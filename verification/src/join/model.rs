//! The mathematical model of the join.
//!
//! A side of a join is a sequence of keys; a row is a position in it. A key
//! is seen as its canonical value, or as `None` if it is a null. The
//! functions here say, over such sequences, which rows correspond and in
//! which order the engine reports them: by probe row, and for one probe row
//! by build row.
use vstd::prelude::*;
use crate::array::count_valid;
use crate::error::{JoinError, JoinSide};
use crate::index::NullableIdxSize;
use crate::join::validate::JoinValidation;
use crate::keys::JoinKey;
use crate::{IdxSize, IDX_MAX};

verus! {

/// Whether a key can correspond to any key at all: a null does only where
/// nulls are held equal.
pub open spec fn participates<C>(k: Option<C>, nulls_equal: bool) -> bool {
    nulls_equal || k is Some
}

/// Whether two keys correspond: they are equal, and take part.
pub open spec fn key_match<C>(a: Option<C>, b: Option<C>, nulls_equal: bool) -> bool {
    a == b && participates(a, nulls_equal)
}

/// The rows of `keys` in `lo..hi` whose key corresponds to `k`, in
/// ascending order.
pub open spec fn matching_rows<C>(
    keys: Seq<Option<C>>,
    k: Option<C>,
    nulls_equal: bool,
    lo: int,
    hi: int,
) -> Seq<IdxSize>
    decreases hi - lo,
{
    if hi <= lo {
        Seq::empty()
    } else {
        let rest = matching_rows(keys, k, nulls_equal, lo, hi - 1);
        if key_match(k, keys[hi - 1], nulls_equal) {
            rest.push((hi - 1) as IdxSize)
        } else {
            rest
        }
    }
}

/// All the rows of `keys` whose key corresponds to `k`, in ascending order.
pub open spec fn matches_of<C>(
    keys: Seq<Option<C>>,
    k: Option<C>,
    nulls_equal: bool,
) -> Seq<IdxSize> {
    matching_rows(keys, k, nulls_equal, 0, keys.len() as int)
}

/// The matching rows of a range are those of its two halves, one after the other.
pub proof fn lemma_matching_rows_split<C>(
    keys: Seq<Option<C>>,
    k: Option<C>,
    nulls_equal: bool,
    lo: int,
    mid: int,
    hi: int,
)
    requires
        lo <= mid <= hi,
    ensures
        matching_rows(keys, k, nulls_equal, lo, hi) == matching_rows(keys, k, nulls_equal, lo, mid)
            + matching_rows(keys, k, nulls_equal, mid, hi),
    decreases hi - mid,
{
    if hi > mid {
        lemma_matching_rows_split(keys, k, nulls_equal, lo, mid, hi - 1);
        assert(matching_rows(keys, k, nulls_equal, lo, hi) =~= matching_rows(
            keys,
            k,
            nulls_equal,
            lo,
            mid,
        ) + matching_rows(keys, k, nulls_equal, mid, hi));
    } else {
        assert(matching_rows(keys, k, nulls_equal, lo, hi) =~= matching_rows(
            keys,
            k,
            nulls_equal,
            lo,
            mid,
        ) + matching_rows(keys, k, nulls_equal, mid, hi));
    }
}

/// What the matching rows are: exactly the rows of the range whose key
/// corresponds, each once, in ascending order.
pub proof fn lemma_matching_rows<C>(
    keys: Seq<Option<C>>,
    k: Option<C>,
    nulls_equal: bool,
    lo: int,
    hi: int,
)
    requires
        0 <= lo <= hi <= keys.len() <= IDX_MAX,
    ensures
        matching_rows(keys, k, nulls_equal, lo, hi).len() <= hi - lo,
        forall|t: int|
            0 <= t < matching_rows(keys, k, nulls_equal, lo, hi).len() ==> {
                let r = #[trigger] matching_rows(keys, k, nulls_equal, lo, hi)[t];
                lo <= r < hi && key_match(k, keys[r as int], nulls_equal)
            },
        forall|s: int, t: int|
            0 <= s < t < matching_rows(keys, k, nulls_equal, lo, hi).len() ==> matching_rows(
                keys,
                k,
                nulls_equal,
                lo,
                hi,
            )[s] < matching_rows(keys, k, nulls_equal, lo, hi)[t],
        forall|j: int|
            lo <= j < hi && key_match(k, #[trigger] keys[j], nulls_equal) ==> matching_rows(
                keys,
                k,
                nulls_equal,
                lo,
                hi,
            ).contains(j as IdxSize),
    decreases hi - lo,
{
    if hi > lo {
        lemma_matching_rows(keys, k, nulls_equal, lo, hi - 1);
        let rest = matching_rows(keys, k, nulls_equal, lo, hi - 1);
        let all = matching_rows(keys, k, nulls_equal, lo, hi);
        assert forall|j: int| lo <= j < hi && key_match(k, #[trigger] keys[j],
            nulls_equal) implies all.contains(
            j as IdxSize,
        ) by {
            if j < hi - 1 {
                let t = choose|t: int| 0 <= t < rest.len() && rest[t] == j as IdxSize;
                assert(all[t] == j as IdxSize);
            } else {
                assert(all[all.len() - 1] == j as IdxSize);
            }
        }
    }
}

/// A key that does not take part has no matching rows.
pub proof fn lemma_no_match_without_part<C>(
    keys: Seq<Option<C>>,
    k: Option<C>,
    nulls_equal: bool,
    lo: int,
    hi: int,
)
    requires
        !participates(k, nulls_equal),
    ensures
        matching_rows(keys, k, nulls_equal, lo, hi) == Seq::<IdxSize>::empty(),
    decreases hi - lo,
{
    if hi > lo {
        lemma_no_match_without_part(keys, k, nulls_equal, lo, hi - 1);
    }
}

/// The number of rows in the partitions before partition `p`.
pub open spec fn offset_of<K>(parts: Seq<&[K]>, p: int) -> int
    decreases p,
{
    if p <= 0 {
        0
    } else {
        offset_of(parts, p - 1) + parts[p - 1]@.len()
    }
}

/// The keys of the first `p` partitions, one partition after the other.
pub open spec fn flat_upto<K>(parts: Seq<&[K]>, p: int) -> Seq<K>
    decreases p,
{
    if p <= 0 {
        Seq::empty()
    } else {
        flat_upto(parts, p - 1) + parts[p - 1]@
    }
}

/// The keys of a partitioned side, in row order.
pub open spec fn flat<K>(parts: Seq<&[K]>) -> Seq<K> {
    flat_upto(parts, parts.len() as int)
}

/// The rows of the first `p` partitions are the first rows of the side, and
/// row `i` of partition `q` is row `offset_of(parts, q) + i` of the side.
pub proof fn lemma_flat_upto<K>(parts: Seq<&[K]>, p: int)
    requires
        0 <= p <= parts.len(),
    ensures
        flat_upto(parts, p).len() == offset_of(parts, p),
        forall|q: int| 0 <= q <= p ==> 0 <= #[trigger] offset_of(parts, q) <= offset_of(parts, p),
        forall|q: int, i: int|
            0 <= q < p && 0 <= i < parts[q]@.len() ==> #[trigger] flat_upto(parts, p)[offset_of(
                parts,
                q,
            ) + i] == parts[q]@[i],
    decreases p,
{
    if p > 0 {
        lemma_flat_upto(parts, p - 1);
        assert forall|q: int, i: int| 0 <= q < p && 0 <= i < parts[q]@.len()
            implies #[trigger] flat_upto(
            parts,
            p,
        )[offset_of(parts, q) + i] == parts[q]@[i] by {
            if q < p - 1 {
                assert(offset_of(parts, q + 1) <= offset_of(parts, p - 1));
                assert(flat_upto(parts, p - 1)[offset_of(parts, q) + i] == parts[q]@[i]);
            }
        }
    }
}

/// Where the rows of partition `q` lie in the side.
pub proof fn lemma_flat_index<K>(parts: Seq<&[K]>, q: int)
    requires
        0 <= q < parts.len(),
    ensures
        0 <= offset_of(parts, q),
        offset_of(parts, q + 1) == offset_of(parts, q) + parts[q]@.len(),
        offset_of(parts, q + 1) <= flat(parts).len(),
        flat(parts).len() == offset_of(parts, parts.len() as int),
        forall|i: int|
            0 <= i < parts[q]@.len() ==> #[trigger] flat(parts)[offset_of(parts, q) + i]
                == parts[q]@[i],
{
    lemma_flat_upto(parts, parts.len() as int);
    assert(0 <= offset_of(parts, q + 1) <= offset_of(parts, parts.len() as int));
    assert(0 <= offset_of(parts, q));
    assert forall|i: int| 0 <= i < parts[q]@.len() implies #[trigger] flat(parts)[offset_of(
        parts,
        q,
    ) + i] == parts[q]@[i] by {
        assert(flat_upto(parts, parts.len() as int)[offset_of(parts, q) + i] == parts[q]@[i]);
    }
}

/// The first partitions decide what the first partitions hold together.
pub proof fn lemma_flat_same<K>(a: Seq<&[K]>, b: Seq<&[K]>, n: int)
    requires
        0 <= n <= a.len(),
        n <= b.len(),
        forall|i: int| 0 <= i < n ==> a[i] == b[i],
    ensures
        flat_upto(a, n) == flat_upto(b, n),
        offset_of(a, n) == offset_of(b, n),
    decreases n,
{
    if n > 0 {
        lemma_flat_same(a, b, n - 1);
    }
}

/// The canonical values of a sequence of keys.
pub open spec fn canon_keys<K: JoinKey>(keys: Seq<K>) -> Seq<Option<K::Canon>> {
    Seq::new(keys.len(), |i: int| keys[i].canon())
}

/// The canonical values of the keys of a partitioned side, in row order.
pub open spec fn side_keys<K: JoinKey>(parts: Seq<&[K]>) -> Seq<Option<K::Canon>> {
    canon_keys(flat(parts))
}

/// Where the keys of partition `q` lie in the side.
pub proof fn lemma_side_keys<K: JoinKey>(parts: Seq<&[K]>, q: int)
    requires
        0 <= q < parts.len(),
    ensures
        0 <= offset_of(parts, q),
        offset_of(parts, q + 1) == offset_of(parts, q) + parts[q]@.len(),
        offset_of(parts, q + 1) <= side_keys(parts).len(),
        side_keys(parts).len() == flat(parts).len(),
        side_keys(parts).len() == offset_of(parts, parts.len() as int),
        forall|i: int|
            0 <= i < parts[q]@.len() ==> #[trigger] side_keys(parts)[offset_of(parts, q) + i]
                == parts[q]@[i].canon(),
{
    lemma_flat_index(parts, q);
    assert forall|i: int| 0 <= i < parts[q]@.len() implies #[trigger] side_keys(parts)[offset_of(
        parts,
        q,
    ) + i] == parts[q]@[i].canon() by {
        assert(flat(parts)[offset_of(parts, q) + i] == parts[q]@[i]);
    }
}

/// One tuple for each of `rows`, pairing it with the probe row `i`. The
/// probe row stands first, unless the sides were swapped.
pub open spec fn pair_up(i: IdxSize, rows: Seq<IdxSize>, swapped: bool) -> Seq<
    (IdxSize, IdxSize),
> {
    Seq::new(
        rows.len(),
        |t: int|
            if swapped {
                (rows[t], i)
            } else {
                (i, rows[t])
            },
    )
}

/// The tuples of an inner join for the probe rows `lo..hi`: for each probe
/// row in turn, one tuple for each build row that corresponds to it.
pub open spec fn inner_rows<C>(
    probe: Seq<Option<C>>,
    build: Seq<Option<C>>,
    nulls_equal: bool,
    swapped: bool,
    lo: int,
    hi: int,
) -> Seq<(IdxSize, IdxSize)>
    decreases hi - lo,
{
    if hi <= lo {
        Seq::empty()
    } else {
        inner_rows(probe, build, nulls_equal, swapped, lo, hi - 1) + pair_up(
            (hi - 1) as IdxSize,
            matches_of(build, probe[hi - 1], nulls_equal),
            swapped,
        )
    }
}

/// The tuples of a range of probe rows are those of its two halves, one
/// after the other.
pub proof fn lemma_inner_rows_split<C>(
    probe: Seq<Option<C>>,
    build: Seq<Option<C>>,
    nulls_equal: bool,
    swapped: bool,
    lo: int,
    mid: int,
    hi: int,
)
    requires
        lo <= mid <= hi,
    ensures
        inner_rows(probe, build, nulls_equal, swapped, lo, hi) == inner_rows(
            probe,
            build,
            nulls_equal,
            swapped,
            lo,
            mid,
        ) + inner_rows(probe, build, nulls_equal, swapped, mid, hi),
    decreases hi - mid,
{
    if hi > mid {
        lemma_inner_rows_split(probe, build, nulls_equal, swapped, lo, mid, hi - 1);
    }
    assert(inner_rows(probe, build, nulls_equal, swapped, lo, hi) =~= inner_rows(
        probe,
        build,
        nulls_equal,
        swapped,
        lo,
        mid,
    ) + inner_rows(probe, build, nulls_equal, swapped, mid, hi));
}

/// The tuples of a left join for the left row `i`: one for each right row
/// that corresponds to it, or one without a right row if none does.
pub open spec fn left_tuples(i: IdxSize, rows: Seq<IdxSize>) -> Seq<(IdxSize, Option<IdxSize>)> {
    if rows.len() == 0 {
        seq![(i, None)]
    } else {
        Seq::new(rows.len(), |t: int| (i, Some(rows[t])))
    }
}

/// The tuples of a left join for the left rows `lo..hi`.
pub open spec fn left_rows<C>(
    left: Seq<Option<C>>,
    right: Seq<Option<C>>,
    nulls_equal: bool,
    lo: int,
    hi: int,
) -> Seq<(IdxSize, Option<IdxSize>)>
    decreases hi - lo,
{
    if hi <= lo {
        Seq::empty()
    } else {
        left_rows(left, right, nulls_equal, lo, hi - 1) + left_tuples(
            (hi - 1) as IdxSize,
            matches_of(right, left[hi - 1], nulls_equal),
        )
    }
}

/// The tuples of a range of left rows are those of its two halves, one
/// after the other.
pub proof fn lemma_left_rows_split<C>(
    left: Seq<Option<C>>,
    right: Seq<Option<C>>,
    nulls_equal: bool,
    lo: int,
    mid: int,
    hi: int,
)
    requires
        lo <= mid <= hi,
    ensures
        left_rows(left, right, nulls_equal, lo, hi) == left_rows(left, right, nulls_equal, lo, mid)
            + left_rows(left, right, nulls_equal, mid, hi),
    decreases hi - mid,
{
    if hi > mid {
        lemma_left_rows_split(left, right, nulls_equal, lo, mid, hi - 1);
    }
    assert(left_rows(left, right, nulls_equal, lo, hi) =~= left_rows(
        left,
        right,
        nulls_equal,
        lo,
        mid,
    ) + left_rows(left, right, nulls_equal, mid, hi));
}

/// A tuple of an outer join, from the row of the probe side and the row of
/// the build side. The probe row stands first, unless the sides were swapped.
pub open spec fn outer_tuple(probe: Option<IdxSize>, build: Option<IdxSize>, swapped: bool) -> (
    Option<IdxSize>,
    Option<IdxSize>,
) {
    if swapped {
        (build, probe)
    } else {
        (probe, build)
    }
}

/// The tuples of an outer join for the probe row `i`: one for each build row
/// that corresponds to it, or one without a build row if none does.
pub open spec fn outer_tuples(i: IdxSize, rows: Seq<IdxSize>, swapped: bool) -> Seq<
    (Option<IdxSize>, Option<IdxSize>),
> {
    if rows.len() == 0 {
        seq![outer_tuple(Some(i), None, swapped)]
    } else {
        Seq::new(rows.len(), |t: int| outer_tuple(Some(i), Some(rows[t]), swapped))
    }
}

/// The tuples that the probe rows `lo..hi` give an outer join.
pub open spec fn outer_probe_rows<C>(
    probe: Seq<Option<C>>,
    build: Seq<Option<C>>,
    nulls_equal: bool,
    swapped: bool,
    lo: int,
    hi: int,
) -> Seq<(Option<IdxSize>, Option<IdxSize>)>
    decreases hi - lo,
{
    if hi <= lo {
        Seq::empty()
    } else {
        outer_probe_rows(probe, build, nulls_equal, swapped, lo, hi - 1) + outer_tuples(
            (hi - 1) as IdxSize,
            matches_of(build, probe[hi - 1], nulls_equal),
            swapped,
        )
    }
}

/// The tuples of a range of probe rows are those of its two halves, one
/// after the other.
pub proof fn lemma_outer_probe_rows_split<C>(
    probe: Seq<Option<C>>,
    build: Seq<Option<C>>,
    nulls_equal: bool,
    swapped: bool,
    lo: int,
    mid: int,
    hi: int,
)
    requires
        lo <= mid <= hi,
    ensures
        outer_probe_rows(probe, build, nulls_equal, swapped, lo, hi) == outer_probe_rows(
            probe,
            build,
            nulls_equal,
            swapped,
            lo,
            mid,
        ) + outer_probe_rows(probe, build, nulls_equal, swapped, mid, hi),
    decreases hi - mid,
{
    if hi > mid {
        lemma_outer_probe_rows_split(probe, build, nulls_equal, swapped, lo, mid, hi - 1);
    }
    assert(outer_probe_rows(probe, build, nulls_equal, swapped, lo, hi) =~= outer_probe_rows(
        probe,
        build,
        nulls_equal,
        swapped,
        lo,
        mid,
    ) + outer_probe_rows(probe, build, nulls_equal, swapped, mid, hi));
}

/// Whether some probe row in `lo..hi` corresponds to the build key `k`.
pub open spec fn is_matched<C>(
    probe: Seq<Option<C>>,
    k: Option<C>,
    nulls_equal: bool,
    lo: int,
    hi: int,
) -> bool {
    matching_rows(probe, k, nulls_equal, lo, hi).len() > 0
}

/// The tuples that the build rows before `n` give an outer join: one
/// without a probe row for each build row that no probe row corresponds
/// to, in ascending order.
pub open spec fn outer_build_rows<C>(
    probe: Seq<Option<C>>,
    build: Seq<Option<C>>,
    nulls_equal: bool,
    swapped: bool,
    n: int,
) -> Seq<(Option<IdxSize>, Option<IdxSize>)>
    decreases n,
{
    if n <= 0 {
        Seq::empty()
    } else {
        let rest = outer_build_rows(probe, build, nulls_equal, swapped, n - 1);
        if is_matched(probe, build[n - 1], nulls_equal, 0, probe.len() as int) {
            rest
        } else {
            rest.push(outer_tuple(None, Some((n - 1) as IdxSize), swapped))
        }
    }
}

/// The tuples of an outer join: those of the probe rows, then those of the
/// build rows that were left over.
pub open spec fn outer_rows<C>(
    probe: Seq<Option<C>>,
    build: Seq<Option<C>>,
    nulls_equal: bool,
    swapped: bool,
) -> Seq<(Option<IdxSize>, Option<IdxSize>)> {
    outer_probe_rows(probe, build, nulls_equal, swapped, 0, probe.len() as int)
        + outer_build_rows(probe, build, nulls_equal, swapped, build.len() as int)
}

/// The rows in `lo..hi` of a semi join, or of an anti join if `anti` is set:
/// the rows that some row of the other side corresponds to, or those that
/// none does. Each row is there at most once, in ascending order.
pub open spec fn semi_anti_rows<C>(
    probe: Seq<Option<C>>,
    build: Seq<Option<C>>,
    nulls_equal: bool,
    anti: bool,
    lo: int,
    hi: int,
) -> Seq<IdxSize>
    decreases hi - lo,
{
    if hi <= lo {
        Seq::empty()
    } else {
        let rest = semi_anti_rows(probe, build, nulls_equal, anti, lo, hi - 1);
        if (matches_of(build, probe[hi - 1], nulls_equal).len() == 0) == anti {
            rest.push((hi - 1) as IdxSize)
        } else {
            rest
        }
    }
}

/// The rows of a range are those of its two halves, one after the other.
pub proof fn lemma_semi_anti_rows_split<C>(
    probe: Seq<Option<C>>,
    build: Seq<Option<C>>,
    nulls_equal: bool,
    anti: bool,
    lo: int,
    mid: int,
    hi: int,
)
    requires
        lo <= mid <= hi,
    ensures
        semi_anti_rows(probe, build, nulls_equal, anti, lo, hi) == semi_anti_rows(
            probe,
            build,
            nulls_equal,
            anti,
            lo,
            mid,
        ) + semi_anti_rows(probe, build, nulls_equal, anti, mid, hi),
    decreases hi - mid,
{
    if hi > mid {
        lemma_semi_anti_rows_split(probe, build, nulls_equal, anti, lo, mid, hi - 1);
    }
    assert(semi_anti_rows(probe, build, nulls_equal, anti, lo, hi) =~= semi_anti_rows(
        probe,
        build,
        nulls_equal,
        anti,
        lo,
        mid,
    ) + semi_anti_rows(probe, build, nulls_equal, anti, mid, hi));
}

/// The buffers of the first `n` partitions, one after the other.
pub open spec fn concat_upto<T>(buffers: Seq<Vec<T>>, n: int) -> Seq<T>
    decreases n,
{
    if n <= 0 {
        Seq::empty()
    } else {
        concat_upto(buffers, n - 1) + buffers[n - 1]@
    }
}

/// All the buffers, one after the other.
pub open spec fn concat<T>(buffers: Seq<Vec<T>>) -> Seq<T> {
    concat_upto(buffers, buffers.len() as int)
}

/// The first entries of a sequence of tuples.
pub open spec fn firsts<A, B>(tuples: Seq<(A, B)>) -> Seq<A> {
    Seq::new(tuples.len(), |i: int| tuples[i].0)
}

/// The second entries of a sequence of tuples.
pub open spec fn seconds<A, B>(tuples: Seq<(A, B)>) -> Seq<B> {
    Seq::new(tuples.len(), |i: int| tuples[i].1)
}

/// Whether no two rows of `keys` hold keys that correspond.
pub open spec fn keys_unique<C>(keys: Seq<Option<C>>, nulls_equal: bool) -> bool {
    forall|i: int, j: int|
        0 <= i < j < keys.len() ==> !key_match(#[trigger] keys[i], #[trigger] keys[j], nulls_equal)
}

/// The first pair of rows among the first `n` that hold corresponding keys:
/// the earliest row that repeats a key, with the first row that held it.
pub open spec fn duplicate_upto<C>(keys: Seq<Option<C>>, nulls_equal: bool, n: int) -> Option<
    (IdxSize, IdxSize),
>
    decreases n,
{
    if n <= 0 {
        None
    } else {
        match duplicate_upto(keys, nulls_equal, n - 1) {
            Some(d) => Some(d),
            None => {
                let earlier = matching_rows(keys, keys[n - 1], nulls_equal, 0, n - 1);
                if earlier.len() > 0 {
                    Some((earlier[0], (n - 1) as IdxSize))
                } else {
                    None
                }
            },
        }
    }
}

/// The first pair of rows of `keys` that hold corresponding keys.
pub open spec fn first_duplicate<C>(keys: Seq<Option<C>>, nulls_equal: bool) -> Option<
    (IdxSize, IdxSize),
> {
    duplicate_upto(keys, nulls_equal, keys.len() as int)
}

/// The side that the probe side is.
pub open spec fn probe_side(swapped: bool) -> JoinSide {
    if swapped {
        JoinSide::Right
    } else {
        JoinSide::Left
    }
}

/// The side that the build side is.
pub open spec fn build_side(swapped: bool) -> JoinSide {
    if swapped {
        JoinSide::Left
    } else {
        JoinSide::Right
    }
}

/// The error that stops a join before it probes, if there is one. A side
/// with more rows than an index can address comes first; then the probe
/// side is held to the declared cardinality, then the build side.
pub open spec fn precheck<C>(
    probe: Seq<Option<C>>,
    build: Seq<Option<C>>,
    swapped: bool,
    validate: JoinValidation,
    nulls_equal: bool,
) -> Option<JoinError> {
    if probe.len() > IDX_MAX || build.len() > IDX_MAX {
        Some(JoinError::IndexOverflow)
    } else if validate.spec_swap(swapped).spec_left_unique() && first_duplicate(
        probe,
        nulls_equal,
    ) is Some {
        let d = first_duplicate(probe, nulls_equal)->0;
        Some(
            JoinError::ValidationError {
                validation: validate,
                side: probe_side(swapped),
                first: d.0,
                second: d.1,
            },
        )
    } else if validate.spec_swap(swapped).spec_right_unique() && first_duplicate(
        build,
        nulls_equal,
    ) is Some {
        let d = first_duplicate(build, nulls_equal)->0;
        Some(
            JoinError::ValidationError {
                validation: validate,
                side: build_side(swapped),
                first: d.0,
                second: d.1,
            },
        )
    } else {
        None
    }
}

/// The tuples of an inner join of the given probe and build side, as pairs
/// of a left and a right row. The probe side is the left one unless
/// `swapped` is set.
pub open spec fn inner_tuples<C>(
    probe: Seq<Option<C>>,
    build: Seq<Option<C>>,
    swapped: bool,
    nulls_equal: bool,
) -> Seq<(IdxSize, IdxSize)> {
    inner_rows(probe, build, nulls_equal, swapped, 0, probe.len() as int)
}

/// The error that an inner join fails with, if it fails: what stops it
/// before it probes, or more tuples than an index can address.
pub open spec fn inner_error<C>(
    probe: Seq<Option<C>>,
    build: Seq<Option<C>>,
    swapped: bool,
    validate: JoinValidation,
    nulls_equal: bool,
) -> Option<JoinError> {
    match precheck(probe, build, swapped, validate, nulls_equal) {
        Some(e) => Some(e),
        None => if inner_tuples(probe, build, swapped, nulls_equal).len() > IDX_MAX {
            Some(JoinError::IndexOverflow)
        } else {
            None
        },
    }
}

/// The tuples of a left join, each a left row with a right row or with none.
pub open spec fn left_join_tuples<C>(
    left: Seq<Option<C>>,
    right: Seq<Option<C>>,
    nulls_equal: bool,
) -> Seq<(IdxSize, NullableIdxSize)> {
    left_rows(left, right, nulls_equal, 0, left.len() as int)
}

/// The error that a left join fails with, if it fails: what stops it before
/// it probes, or more tuples than an index can address.
pub open spec fn left_error<C>(
    left: Seq<Option<C>>,
    right: Seq<Option<C>>,
    validate: JoinValidation,
    nulls_equal: bool,
) -> Option<JoinError> {
    match precheck(left, right, false, validate, nulls_equal) {
        Some(e) => Some(e),
        None => if left_join_tuples(left, right, nulls_equal).len() > IDX_MAX {
            Some(JoinError::IndexOverflow)
        } else {
            None
        },
    }
}

/// The error that an outer join fails with, if it fails: what stops it
/// before it probes, or more tuples than an index can address.
pub open spec fn outer_error<C>(
    probe: Seq<Option<C>>,
    build: Seq<Option<C>>,
    swapped: bool,
    validate: JoinValidation,
    nulls_equal: bool,
) -> Option<JoinError> {
    match precheck(probe, build, swapped, validate, nulls_equal) {
        Some(e) => Some(e),
        None => if outer_rows(probe, build, nulls_equal, swapped).len() > IDX_MAX {
            Some(JoinError::IndexOverflow)
        } else {
            None
        },
    }
}

/// Whether the left side is the build side of an inner or an outer join:
/// it is unless it has more rows that are not null than the right side.
pub open spec fn swaps<C>(left: Seq<Option<C>>, right: Seq<Option<C>>) -> bool {
    count_valid(left) <= count_valid(right)
}

/// The probe side of an inner or an outer join: the side with more rows
/// that are not null.
pub open spec fn probe_of<C>(left: Seq<Option<C>>, right: Seq<Option<C>>) -> Seq<Option<C>> {
    if swaps(left, right) {
        right
    } else {
        left
    }
}

/// The build side of an inner or an outer join: the side with fewer rows
/// that are not null, and the left side of two that have as many.
pub open spec fn build_of<C>(left: Seq<Option<C>>, right: Seq<Option<C>>) -> Seq<Option<C>> {
    if swaps(left, right) {
        left
    } else {
        right
    }
}

/// The tuples of the inner join of a left with a right side, as pairs of a
/// left and a right row, in the order of the rows of the probe side.
pub open spec fn inner_join<C>(
    left: Seq<Option<C>>,
    right: Seq<Option<C>>,
    nulls_equal: bool,
) -> Seq<(IdxSize, IdxSize)> {
    inner_tuples(probe_of(left, right), build_of(left, right), swaps(left, right), nulls_equal)
}

/// The tuples of the left join of a left with a right side.
pub open spec fn left_join<C>(
    left: Seq<Option<C>>,
    right: Seq<Option<C>>,
    nulls_equal: bool,
) -> Seq<(IdxSize, NullableIdxSize)> {
    left_join_tuples(left, right, nulls_equal)
}

/// The tuples of the outer join of a left with a right side, as pairs of a
/// left and a right row of which one may be absent.
pub open spec fn outer_join<C>(
    left: Seq<Option<C>>,
    right: Seq<Option<C>>,
    nulls_equal: bool,
) -> Seq<(NullableIdxSize, NullableIdxSize)> {
    outer_rows(probe_of(left, right), build_of(left, right), nulls_equal, swaps(left, right))
}

/// The rows of the semi join of a left with a right side.
pub open spec fn semi_join<C>(
    left: Seq<Option<C>>,
    right: Seq<Option<C>>,
    nulls_equal: bool,
) -> Seq<IdxSize> {
    semi_anti_rows(left, right, nulls_equal, false, 0, left.len() as int)
}

/// The rows of the anti join of a left with a right side.
pub open spec fn anti_join<C>(
    left: Seq<Option<C>>,
    right: Seq<Option<C>>,
    nulls_equal: bool,
) -> Seq<IdxSize> {
    semi_anti_rows(left, right, nulls_equal, true, 0, left.len() as int)
}

/// The error that the inner join of a left with a right side fails with,
/// if it fails.
pub open spec fn inner_join_error<C>(
    left: Seq<Option<C>>,
    right: Seq<Option<C>>,
    validate: JoinValidation,
    nulls_equal: bool,
) -> Option<JoinError> {
    inner_error(
        probe_of(left, right),
        build_of(left, right),
        swaps(left, right),
        validate,
        nulls_equal,
    )
}

/// The error that the outer join of a left with a right side fails with,
/// if it fails.
pub open spec fn outer_join_error<C>(
    left: Seq<Option<C>>,
    right: Seq<Option<C>>,
    validate: JoinValidation,
    nulls_equal: bool,
) -> Option<JoinError> {
    outer_error(
        probe_of(left, right),
        build_of(left, right),
        swaps(left, right),
        validate,
        nulls_equal,
    )
}

/// The error that a semi or an anti join fails with, if it fails: a side
/// with more rows than an index can address.
pub open spec fn semi_anti_error<C>(left: Seq<Option<C>>, right: Seq<Option<C>>) -> Option<
    JoinError,
> {
    if left.len() > IDX_MAX || right.len() > IDX_MAX {
        Some(JoinError::IndexOverflow)
    } else {
        None
    }
}

} // verus!
