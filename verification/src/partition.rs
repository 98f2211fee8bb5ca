//! The partitioner: how the rows of a side are divided among the workers,
//! and where the rows of a column stored in chunks lie.
use vstd::prelude::*;
use crate::array::{Array, Scalar};
use crate::index::{ChunkId, IDX_MAX, IdxSize};

verus! {

/// The sequences of the first `p` parts, one after the other.
pub open spec fn joined<T>(parts: Seq<Seq<T>>, p: int) -> Seq<T>
    decreases p,
{
    if p <= 0 {
        Seq::empty()
    } else {
        joined(parts, p - 1) + parts[p - 1]
    }
}

/// The number of entries in the first `p` parts.
pub open spec fn prefix_len<T>(parts: Seq<Seq<T>>, p: int) -> int
    decreases p,
{
    if p <= 0 {
        0
    } else {
        prefix_len(parts, p - 1) + parts[p - 1].len()
    }
}

/// The entries of the first `p` parts are the first entries of the whole,
/// and entry `i` of part `q` is entry `prefix_len(parts, q) + i` of it.
pub proof fn lemma_joined<T>(parts: Seq<Seq<T>>, p: int)
    requires
        0 <= p <= parts.len(),
    ensures
        joined(parts, p).len() == prefix_len(parts, p),
        forall|q: int| 0 <= q <= p ==> 0 <= #[trigger] prefix_len(parts, q) <= prefix_len(parts, p),
        forall|q: int, i: int|
            0 <= q < p && 0 <= i < parts[q].len() ==> #[trigger] joined(parts, p)[prefix_len(
                parts,
                q,
            ) + i] == parts[q][i],
    decreases p,
{
    if p > 0 {
        lemma_joined(parts, p - 1);
        assert forall|q: int, i: int| 0 <= q < p && 0 <= i < parts[q].len()
            implies #[trigger] joined(
            parts,
            p,
        )[prefix_len(parts, q) + i] == parts[q][i] by {
            if q < p - 1 {
                assert(prefix_len(parts, q + 1) <= prefix_len(parts, p - 1));
                assert(joined(parts, p - 1)[prefix_len(parts, q) + i] == parts[q][i]);
            }
        }
    }
}

/// Where the entries of part `q` lie in the whole.
pub proof fn lemma_joined_part<T>(parts: Seq<Seq<T>>, q: int)
    requires
        0 <= q < parts.len(),
    ensures
        0 <= prefix_len(parts, q),
        prefix_len(parts, q + 1) == prefix_len(parts, q) + parts[q].len(),
        prefix_len(parts, q + 1) <= prefix_len(parts, parts.len() as int),
        joined(parts, parts.len() as int).len() == prefix_len(parts, parts.len() as int),
        joined(parts, parts.len() as int).subrange(
            prefix_len(parts, q),
            prefix_len(parts, q + 1),
        ) == parts[q],
{
    lemma_joined(parts, parts.len() as int);
    assert(0 <= prefix_len(parts, q + 1) <= prefix_len(parts, parts.len() as int));
    assert(0 <= prefix_len(parts, q));
    let whole = joined(parts, parts.len() as int);
    assert forall|i: int| 0 <= i < parts[q].len() implies whole[prefix_len(parts, q) + i]
        == parts[q][i] by {
        assert(joined(parts, parts.len() as int)[prefix_len(parts, q) + i] == parts[q][i]);
    }
    assert(whole.subrange(prefix_len(parts, q), prefix_len(parts, q + 1)) =~= parts[q]);
}

/// The first parts decide what the first parts hold together.
pub proof fn lemma_joined_same<T>(a: Seq<Seq<T>>, b: Seq<Seq<T>>, n: int)
    requires
        0 <= n <= a.len(),
        n <= b.len(),
        forall|i: int| 0 <= i < n ==> a[i] == b[i],
    ensures
        joined(a, n) == joined(b, n),
        prefix_len(a, n) == prefix_len(b, n),
    decreases n,
{
    if n > 0 {
        lemma_joined_same(a, b, n - 1);
    }
}

/// What each of the given chunks holds, chunk by chunk.
pub open spec fn slot_seqs<A: Array>(chunks: Seq<A>) -> Seq<Seq<Option<Scalar>>> {
    Seq::new(chunks.len(), |c: int| chunks[c].spec_slots())
}

/// Whether `offsets` divide `len` rows into `n` partitions: each an offset
/// and a length, one beginning where the one before ends, every one but the
/// last of the same size, and the last taking what remains.
pub open spec fn splits(offsets: Seq<(usize, usize)>, len: int, n: int) -> bool {
    &&& offsets.len() == n
    &&& forall|p: int| 0 <= p < n ==> (#[trigger] offsets[p]).0 == p * (len / n)
    &&& forall|p: int| 0 <= p < n - 1 ==> (#[trigger] offsets[p]).1 == len / n
    &&& n > 0 ==> offsets[n - 1].1 == len - (n - 1) * (len / n)
}

/// Divides `len` rows into `n` partitions of near-equal size: the
/// partitions do not overlap, and together they cover the rows once.
pub fn _split_offsets(len: usize, n: usize) -> (offsets: Vec<(usize, usize)>)
    requires
        n > 0,
    ensures
        splits(offsets@, len as int, n as int),
{
    if n == 1 {
        let mut offsets: Vec<(usize, usize)> = Vec::new();
        offsets.push((0, len));
        offsets
    } else {
        let chunk_size = len / n;
        let mut offsets: Vec<(usize, usize)> = Vec::with_capacity(n);
        let mut partition: usize = 0;
        while partition < n
            invariant
                partition <= n,
                n > 1,
                chunk_size == len / n,
                offsets@.len() == partition,
                forall|p: int| 0 <= p < partition ==> (#[trigger] offsets@[p]).0 == p * chunk_size,
                forall|p: int|
                    0 <= p < partition && p < n - 1 ==> (#[trigger] offsets@[p]).1 == chunk_size,
                partition == n ==> offsets@[n - 1].1 == len - (n - 1) * chunk_size,
            decreases n - partition,
        {
            assert(partition * chunk_size <= len) by (nonlinear_arith)
                requires
                    partition < n,
                    chunk_size == len / n,
                    n > 0,
            {
                assert(n * (len / n) <= len) by (nonlinear_arith)
                    requires
                        n > 0,
                ;
                assert(partition * (len / n) <= n * (len / n)) by (nonlinear_arith)
                    requires
                        partition < n,
                        0 <= len / n,
                ;
            }
            let offset = partition * chunk_size;
            let part_len = if partition == n - 1 {
                len - offset
            } else {
                chunk_size
            };
            offsets.push((offset, part_len));
            partition += 1;
        }
        offsets
    }
}

/// The partitions that [`splits`] describes lie one after the other and
/// end with the last row.
pub proof fn lemma_splits_cover(offsets: Seq<(usize, usize)>, len: int, n: int)
    requires
        n > 0,
        len >= 0,
        splits(offsets, len, n),
    ensures
        offsets[0].0 == 0,
        forall|p: int|
            0 <= p < n - 1 ==> (#[trigger] offsets[p]).0 + offsets[p].1 == offsets[p + 1].0,
        offsets[n - 1].0 + offsets[n - 1].1 == len,
        forall|p: int| 0 <= p < n ==> (#[trigger] offsets[p]).0 + offsets[p].1 <= len,
{
    let size = len / n;
    assert(n * size <= len) by (nonlinear_arith)
        requires
            n > 0,
            len >= 0,
            size == len / n,
    ;
    assert forall|p: int| 0 <= p < n - 1 implies (#[trigger] offsets[p]).0 + offsets[p].1
        == offsets[p + 1].0 by {
        assert(p * size + size == (p + 1) * size) by (nonlinear_arith);
    }
    assert forall|p: int| 0 <= p < n implies (#[trigger] offsets[p]).0 + offsets[p].1 <= len by {
        if p < n - 1 {
            assert(p * size + size <= n * size) by (nonlinear_arith)
                requires
                    0 <= p < n - 1,
                    size >= 0,
            ;
        }
    }
}

/// The row at which partition `p` of `n` begins, in a side of `len` rows;
/// past the last partition, the end of the side.
pub open spec fn part_bound(len: int, n: int, p: int) -> int {
    if p >= n {
        len
    } else {
        p * (len / n)
    }
}

/// The partitions that [`splits`] describes begin and end at the bounds of
/// the partitions.
pub proof fn lemma_part_bounds(offsets: Seq<(usize, usize)>, len: int, n: int)
    requires
        n > 0,
        len >= 0,
        splits(offsets, len, n),
    ensures
        part_bound(len, n, 0) == 0,
        forall|p: int|
            0 <= p < n ==> (#[trigger] offsets[p]).0 == part_bound(len, n, p) && offsets[p].0
                + offsets[p].1 == part_bound(len, n, p + 1),
{
    lemma_splits_cover(offsets, len, n);
    assert forall|p: int| 0 <= p < n implies (#[trigger] offsets[p]).0 == part_bound(len, n, p)
        && offsets[p].0 + offsets[p].1 == part_bound(len, n, p + 1) by {
        if p < n - 1 {
            assert(offsets[p].0 + offsets[p].1 == offsets[p + 1].0);
        }
    }
}

/// Whether `n` is a power of two.
pub open spec fn is_power_of_two(n: int) -> bool
    decreases n,
{
    if n <= 0 {
        false
    } else if n == 1 {
        true
    } else {
        n % 2 == 0 && is_power_of_two(n / 2)
    }
}

/// The number of partitions of an outer join on `n_threads` workers: the
/// least power of two that is not less, or one where there is one worker
/// or none. A number of workers beyond `2^30` is kept as it is.
pub fn _set_partition_size(n_threads: usize) -> (n: usize)
    ensures
        n >= 1,
        n >= n_threads,
        n_threads <= 0x4000_0000 ==> is_power_of_two(n as int),
        1 < n_threads <= 0x4000_0000 ==> n < 2 * n_threads,
        n_threads > 0x4000_0000 ==> n == n_threads,
{
    if n_threads <= 1 {
        return 1;
    }
    if n_threads > 0x4000_0000 {
        return n_threads;
    }
    let mut n: usize = 1;
    while n < n_threads
        invariant
            1 <= n,
            n < 2 * n_threads,
            n_threads <= 0x4000_0000,
            is_power_of_two(n as int),
        decreases 2 * n_threads - n,
    {
        n = n * 2;
    }
    n
}

/// The places of the rows of the first `c` of the given chunks, chunk by
/// chunk: the rows of a chunk lie at its positions, in order.
pub open spec fn chunk_places<T>(chunks: Seq<Seq<T>>, c: int) -> Seq<ChunkId>
    decreases c,
{
    if c <= 0 {
        Seq::empty()
    } else {
        chunk_places(chunks, c - 1) + Seq::new(
            chunks[c - 1].len(),
            |i: int| ChunkId { chunk_idx: (c - 1) as IdxSize, array_idx: i as IdxSize },
        )
    }
}

/// A place for every row: row `prefix_len(chunks, d) + i` lies at position
/// `i` of chunk `d`.
pub proof fn law_chunk_places<T>(chunks: Seq<Seq<T>>, c: int)
    requires
        0 <= c <= chunks.len(),
    ensures
        chunk_places(chunks, c).len() == prefix_len(chunks, c),
        forall|d: int, i: int|
            0 <= d < c && 0 <= i < chunks[d].len() ==> #[trigger] chunk_places(
                chunks,
                c,
            )[prefix_len(chunks, d) + i] == (ChunkId {
                chunk_idx: d as IdxSize,
                array_idx: i as IdxSize,
            }),
    decreases c,
{
    if c > 0 {
        law_chunk_places(chunks, c - 1);
        lemma_joined(chunks, c - 1);
        assert forall|d: int, i: int| 0 <= d < c && 0 <= i < chunks[d].len()
            implies #[trigger] chunk_places(
            chunks,
            c,
        )[prefix_len(chunks, d) + i] == (ChunkId {
            chunk_idx: d as IdxSize,
            array_idx: i as IdxSize,
        }) by {
            if d < c - 1 {
                assert(prefix_len(chunks, d + 1) <= prefix_len(chunks, c - 1));
                assert(chunk_places(chunks, c - 1)[prefix_len(chunks, d) + i] == (ChunkId {
                    chunk_idx: d as IdxSize,
                    array_idx: i as IdxSize,
                }));
            }
        }
    }
}

/// Builds the table that gives for every logical row of a column stored in
/// chunks its place: the chunk, and the position within it. The column
/// has `len` rows, and neither more rows nor more chunks than an index can
/// address.
pub fn create_chunked_index_mapping<A: Array>(chunks: &[A], len: usize) -> (mapping: Vec<ChunkId>)
    requires
        chunks@.len() <= IDX_MAX,
        len == prefix_len(slot_seqs(chunks@), chunks@.len() as int),
        len <= IDX_MAX,
    ensures
        mapping@ == chunk_places(slot_seqs(chunks@), chunks@.len() as int),
        mapping@.len() == len,
{
    let ghost seqs = slot_seqs(chunks@);
    let mut vals: Vec<ChunkId> = Vec::with_capacity(len);
    let mut chunk_i: usize = 0;
    while chunk_i < chunks.len()
        invariant
            chunk_i <= chunks@.len() <= IDX_MAX,
            seqs == slot_seqs(chunks@),
            len == prefix_len(seqs, chunks@.len() as int),
            len <= IDX_MAX,
            vals@ == chunk_places(seqs, chunk_i as int),
            vals@.len() == prefix_len(seqs, chunk_i as int),
        decreases chunks.len() - chunk_i,
    {
        let chunk_len = chunks[chunk_i].len();
        proof {
            lemma_joined(seqs, chunks@.len() as int);
            assert(prefix_len(seqs, chunk_i + 1) <= prefix_len(seqs, chunks@.len() as int));
        }
        let ghost before = vals@;
        let mut array_i: usize = 0;
        while array_i < chunk_len
            invariant
                array_i <= chunk_len <= IDX_MAX,
                chunk_i < IDX_MAX,
                vals@ == before + Seq::new(
                    array_i as nat,
                    |i: int| ChunkId { chunk_idx: chunk_i as IdxSize, array_idx: i as IdxSize },
                ),
            decreases chunk_len - array_i,
        {
            vals.push(ChunkId::store(chunk_i as IdxSize, array_i as IdxSize));
            array_i += 1;
            assert(vals@ =~= before + Seq::new(
                array_i as nat,
                |i: int| ChunkId { chunk_idx: chunk_i as IdxSize, array_idx: i as IdxSize },
            ));
        }
        chunk_i += 1;
    }
    vals
}

/// The table from rows to places that a join uses for a column of the
/// given chunks: none for a column of one chunk, whose rows are their own
/// places, nor where the chunks are more than an index can address.
pub open spec fn spec_mapping<A: Array>(chunks: Seq<A>) -> Option<Seq<ChunkId>> {
    if 1 < chunks.len() <= IDX_MAX {
        Some(chunk_places(slot_seqs(chunks), chunks.len() as int))
    } else {
        None
    }
}

/// The table from rows to places for a column of the given chunks and of
/// `len` rows, where the join uses one.
pub fn mapping_for<A: Array>(chunks: &[A], len: usize) -> (mapping: Option<Vec<ChunkId>>)
    requires
        len == prefix_len(slot_seqs(chunks@), chunks@.len() as int),
        len <= IDX_MAX,
    ensures
        mapping is Some == spec_mapping(chunks@) is Some,
        mapping matches Some(m) ==> Some(m@) == spec_mapping(chunks@) && m@.len() == len,
{
    if chunks.len() > 1 && chunks.len() <= IDX_MAX {
        Some(create_chunked_index_mapping(chunks, len))
    } else {
        None
    }
}

} // verus!
