//! The output assembler: the buffers that the partitions filled become the
//! index arrays of the result.
use vstd::prelude::*;
use crate::join::model::{concat, concat_upto, firsts, seconds};
use crate::IDX_MAX;

verus! {

/// The length of the first `n` buffers together.
pub proof fn lemma_concat_len<T>(buffers: Seq<Vec<T>>, n: int, m: int)
    requires
        0 <= n <= m <= buffers.len(),
    ensures
        concat_upto(buffers, n).len() <= concat_upto(buffers, m).len(),
        n < m ==> concat_upto(buffers, n).len() + buffers[n]@.len() <= concat_upto(
            buffers,
            m,
        ).len(),
    decreases m - n,
{
    if n < m {
        lemma_concat_len(buffers, n, m - 1);
    }
}

/// A buffer more adds its tuples at the end.
pub proof fn lemma_concat_push<T>(buffers: Seq<Vec<T>>, buffer: Vec<T>)
    ensures
        concat_upto(buffers.push(buffer), buffers.len() as int + 1) == concat_upto(
            buffers,
            buffers.len() as int,
        ) + buffer@,
{
    lemma_concat_same(buffers, buffers.push(buffer), buffers.len() as int);
}

/// The first buffers decide what the first buffers hold together.
pub proof fn lemma_concat_same<T>(a: Seq<Vec<T>>, b: Seq<Vec<T>>, n: int)
    requires
        0 <= n <= a.len() <= b.len(),
        forall|i: int| 0 <= i < n ==> a[i] == b[i],
    ensures
        concat_upto(a, n) == concat_upto(b, n),
    decreases n,
{
    if n > 0 {
        lemma_concat_same(a, b, n - 1);
    }
}

/// The number of tuples in all the buffers, or `None` if there are more than
/// a join can address.
pub fn total_len<T>(buffers: &Vec<Vec<T>>) -> (n: Option<usize>)
    ensures
        n is Some <==> concat(buffers@).len() <= IDX_MAX,
        n matches Some(t) ==> t == concat(buffers@).len(),
{
    let mut total: usize = 0;
    let mut p: usize = 0;
    while p < buffers.len()
        invariant
            p <= buffers@.len(),
            total == concat_upto(buffers@, p as int).len(),
            total <= IDX_MAX,
        decreases buffers.len() - p,
    {
        let len = buffers[p].len();
        if len > IDX_MAX - total {
            proof {
                lemma_concat_len(buffers@, p as int, buffers@.len() as int);
            }
            return None;
        }
        total = total + len;
        p += 1;
    }
    Some(total)
}

/// Merges the buffers of the partitions into one, in the order of the
/// partitions. Fails if the result has more tuples than a join can address.
pub fn flatten<T: Copy>(buffers: &Vec<Vec<T>>) -> (out: Option<Vec<T>>)
    ensures
        out is Some <==> concat(buffers@).len() <= IDX_MAX,
        out matches Some(v) ==> v@ == concat(buffers@),
{
    let total = match total_len(buffers) {
        Some(t) => t,
        None => {
            return None;
        },
    };
    let mut out: Vec<T> = Vec::with_capacity(total);
    let mut p: usize = 0;
    while p < buffers.len()
        invariant
            p <= buffers@.len(),
            out@ == concat_upto(buffers@, p as int),
        decreases buffers.len() - p,
    {
        let buffer = &buffers[p];
        let ghost before = out@;
        let mut i: usize = 0;
        while i < buffer.len()
            invariant
                i <= buffer@.len(),
                out@ == before + buffer@.take(i as int),
            decreases buffer.len() - i,
        {
            out.push(buffer[i]);
            i += 1;
            assert(out@ =~= before + buffer@.take(i as int));
        }
        assert(buffer@.take(i as int) =~= buffer@);
        p += 1;
    }
    Some(out)
}

/// Splits a sequence of tuples into its two index arrays. Position `i` of
/// the one and position `i` of the other form tuple `i`.
pub fn unzip<A: Copy, B: Copy>(tuples: &Vec<(A, B)>) -> (out: (Vec<A>, Vec<B>))
    ensures
        out.0@ == firsts(tuples@),
        out.1@ == seconds(tuples@),
{
    let mut left: Vec<A> = Vec::with_capacity(tuples.len());
    let mut right: Vec<B> = Vec::with_capacity(tuples.len());
    let mut i: usize = 0;
    while i < tuples.len()
        invariant
            i <= tuples@.len(),
            left@.len() == i,
            right@.len() == i,
            forall|j: int| 0 <= j < i ==> #[trigger] left@[j] == tuples@[j].0,
            forall|j: int| 0 <= j < i ==> #[trigger] right@[j] == tuples@[j].1,
        decreases tuples.len() - i,
    {
        let t = tuples[i];
        left.push(t.0);
        right.push(t.1);
        i += 1;
    }
    assert(left@ =~= firsts(tuples@));
    assert(right@ =~= seconds(tuples@));
    (left, right)
}

} // verus!
