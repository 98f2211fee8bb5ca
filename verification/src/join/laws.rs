//! What holds of every join.
//!
//! The laws are stated over the model of the join, by which the results of
//! the engine are specified: they hold of whatever the engine returns.
use vstd::prelude::*;
use crate::index::{IDX_MAX, IdxSize, NullableIdxSize};
use crate::join::model::{
    anti_join, first_duplicate, firsts, inner_join, inner_rows, is_matched, key_match,
    keys_unique, left_join, left_rows, left_tuples, lemma_matching_rows, matches_of,
    outer_build_rows, outer_join, outer_probe_rows, outer_tuple, outer_tuples, pair_up, seconds,
    semi_anti_rows, semi_join, swaps,
};
use crate::join::validate::lemma_duplicate_upto;

verus! {

/// Correspondence does not depend on which of the two keys is asked first.
pub proof fn law_key_match_symmetric<C>(a: Option<C>, b: Option<C>, nulls_equal: bool)
    ensures
        key_match(a, b, nulls_equal) == key_match(b, a, nulls_equal),
{
}

/// A side keeps a declared uniqueness exactly where no two of its rows
/// hold corresponding keys; where it does not, the rows that are reported
/// are two distinct rows of which the keys correspond.
pub proof fn law_validation<C>(keys: Seq<Option<C>>, nulls_equal: bool)
    requires
        keys.len() <= IDX_MAX,
    ensures
        first_duplicate(keys, nulls_equal) is None <==> keys_unique(keys, nulls_equal),
        first_duplicate(keys, nulls_equal) matches Some((first, second)) ==> first < second
            < keys.len() && key_match(keys[first as int], keys[second as int], nulls_equal),
{
    lemma_duplicate_upto(keys, nulls_equal, keys.len() as int);
    assert(keys.take(keys.len() as int) =~= keys);
}

/// A value is in two sequences put together where it is in one of them.
pub proof fn lemma_contains_add<T>(a: Seq<T>, b: Seq<T>, x: T)
    ensures
        (a + b).contains(x) <==> a.contains(x) || b.contains(x),
{
    if a.contains(x) {
        let t = choose|t: int| 0 <= t < a.len() && a[t] == x;
        assert((a + b)[t] == x);
    }
    if b.contains(x) {
        let t = choose|t: int| 0 <= t < b.len() && b[t] == x;
        assert((a + b)[a.len() + t] == x);
    }
    if (a + b).contains(x) {
        let t = choose|t: int| 0 <= t < (a + b).len() && (a + b)[t] == x;
        if t < a.len() {
            assert(a[t] == x);
        } else {
            assert(b[t - a.len()] == x);
        }
    }
}

/// The first entries of two sequences put together are the first entries
/// of the one and then of the other; and so are the second entries.
pub proof fn lemma_projections_add<A, B>(a: Seq<(A, B)>, b: Seq<(A, B)>)
    ensures
        firsts(a + b) == firsts(a) + firsts(b),
        seconds(a + b) == seconds(a) + seconds(b),
{
    assert(firsts(a + b) =~= firsts(a) + firsts(b));
    assert(seconds(a + b) =~= seconds(a) + seconds(b));
}

/// The row of the probe side and the row of the build side that a tuple of
/// a left and a right row holds.
pub open spec fn unswap(tuple: (IdxSize, IdxSize), swapped: bool) -> (IdxSize, IdxSize) {
    if swapped {
        (tuple.1, tuple.0)
    } else {
        tuple
    }
}

/// The tuples of the probe rows `lo..hi` are the pairs of one of these
/// rows with a build row whose key corresponds.
pub proof fn lemma_inner_rows_contains<C>(
    probe: Seq<Option<C>>,
    build: Seq<Option<C>>,
    nulls_equal: bool,
    swapped: bool,
    lo: int,
    hi: int,
    tuple: (IdxSize, IdxSize),
)
    requires
        0 <= lo <= hi <= probe.len() <= IDX_MAX,
        build.len() <= IDX_MAX,
    ensures
        inner_rows(probe, build, nulls_equal, swapped, lo, hi).contains(tuple) <==> ({
            let (i, j) = unswap(tuple, swapped);
            lo <= i < hi && j < build.len() && key_match(
                probe[i as int],
                build[j as int],
                nulls_equal,
            )
        }),
    decreases hi - lo,
{
    if hi > lo {
        lemma_inner_rows_contains(probe, build, nulls_equal, swapped, lo, hi - 1, tuple);
        let (i, j) = unswap(tuple, swapped);
        let row = (hi - 1) as IdxSize;
        let rows = matches_of(build, probe[hi - 1], nulls_equal);
        let added = pair_up(row, rows, swapped);
        lemma_matching_rows(build, probe[hi - 1], nulls_equal, 0, build.len() as int);
        lemma_contains_add(
            inner_rows(probe, build, nulls_equal, swapped, lo, hi - 1),
            added,
            tuple,
        );
        if added.contains(tuple) {
            let t = choose|t: int| 0 <= t < added.len() && added[t] == tuple;
            assert(rows[t] == j);
            assert(i == row);
        }
        if i == row && j < build.len() && key_match(probe[i as int], build[j as int], nulls_equal) {
            assert(rows.contains(j as int as IdxSize));
            let t = choose|t: int| 0 <= t < rows.len() && rows[t] == j;
            assert(added[t] == tuple);
        }
    }
}

/// The inner join is the set of the pairs of a left and a right row whose
/// keys correspond.
pub proof fn law_inner_join_pairs<C>(
    left: Seq<Option<C>>,
    right: Seq<Option<C>>,
    nulls_equal: bool,
    l: IdxSize,
    r: IdxSize,
)
    requires
        left.len() <= IDX_MAX,
        right.len() <= IDX_MAX,
    ensures
        inner_join(left, right, nulls_equal).contains((l, r)) <==> l < left.len() && r
            < right.len() && key_match(left[l as int], right[r as int], nulls_equal),
{
    if swaps(left, right) {
        lemma_inner_rows_contains(
            right,
            left,
            nulls_equal,
            true,
            0,
            right.len() as int,
            (l, r),
        );
    } else {
        lemma_inner_rows_contains(
            left,
            right,
            nulls_equal,
            false,
            0,
            left.len() as int,
            (l, r),
        );
    }
}

/// The tuples of a join, each with its two rows exchanged.
pub open spec fn swapped_back(tuples: Seq<(IdxSize, IdxSize)>) -> Seq<(IdxSize, IdxSize)> {
    Seq::new(tuples.len(), |t: int| (tuples[t].1, tuples[t].0))
}

/// Swap invariance: the inner join of two sides holds the same tuples as
/// the inner join of the sides exchanged, with the rows of every tuple
/// exchanged back. Which side the tables were built of makes no
/// difference to the set of tuples.
pub proof fn law_swap_invariance<C>(
    left: Seq<Option<C>>,
    right: Seq<Option<C>>,
    nulls_equal: bool,
)
    requires
        left.len() <= IDX_MAX,
        right.len() <= IDX_MAX,
    ensures
        inner_join(left, right, nulls_equal).to_set() == swapped_back(
            inner_join(right, left, nulls_equal),
        ).to_set(),
{
    let direct = inner_join(left, right, nulls_equal);
    let other = inner_join(right, left, nulls_equal);
    let back = swapped_back(other);
    assert forall|tuple: (IdxSize, IdxSize)| direct.contains(tuple) <==> back.contains(
        tuple,
    ) by {
        law_inner_join_pairs(left, right, nulls_equal, tuple.0, tuple.1);
        law_inner_join_pairs(right, left, nulls_equal, tuple.1, tuple.0);
        if back.contains(tuple) {
            let t = choose|t: int| 0 <= t < back.len() && back[t] == tuple;
            assert(other[t] == (tuple.1, tuple.0));
        }
        if other.contains((tuple.1, tuple.0)) {
            let t = choose|t: int| 0 <= t < other.len() && other[t] == (tuple.1, tuple.0);
            assert(back[t] == tuple);
        }
    }
    assert(direct.to_set() =~= back.to_set());
}

/// The left rows of the tuples of the left rows `lo..hi` are these rows.
pub proof fn lemma_left_rows_firsts<C>(
    left: Seq<Option<C>>,
    right: Seq<Option<C>>,
    nulls_equal: bool,
    lo: int,
    hi: int,
    row: IdxSize,
)
    requires
        0 <= lo <= hi <= left.len() <= IDX_MAX,
    ensures
        firsts(left_rows(left, right, nulls_equal, lo, hi)).contains(row) <==> lo <= row < hi,
    decreases hi - lo,
{
    if hi > lo {
        lemma_left_rows_firsts(left, right, nulls_equal, lo, hi - 1, row);
        let before = left_rows(left, right, nulls_equal, lo, hi - 1);
        let added = left_tuples(
            (hi - 1) as IdxSize,
            matches_of(right, left[hi - 1], nulls_equal),
        );
        lemma_projections_add(before, added);
        lemma_contains_add(firsts(before), firsts(added), row);
        if firsts(added).contains(row) {
            let t = choose|t: int| 0 <= t < firsts(added).len() && firsts(added)[t] == row;
            assert(added[t].0 == hi - 1);
        }
        if row == hi - 1 {
            assert(firsts(added)[0] == row);
        }
    } else {
        assert(firsts(left_rows(left, right, nulls_equal, lo, hi)) =~= Seq::empty());
    }
}

/// Left completeness: the left rows of the tuples of a left join are the
/// rows of the left side, every one of them and no other.
pub proof fn law_left_completeness<C>(
    left: Seq<Option<C>>,
    right: Seq<Option<C>>,
    nulls_equal: bool,
)
    requires
        left.len() <= IDX_MAX,
    ensures
        firsts(left_join(left, right, nulls_equal)).to_set() == Set::new(
            |row: IdxSize| row < left.len(),
        ),
{
    let rows = firsts(left_join(left, right, nulls_equal));
    assert forall|row: IdxSize| rows.contains(row) <==> row < left.len() by {
        lemma_left_rows_firsts(left, right, nulls_equal, 0, left.len() as int, row);
    }
    assert(rows.to_set() =~= Set::new(|row: IdxSize| row < left.len()));
}

/// The row of the probe side in a tuple of an outer join.
pub open spec fn probe_part(
    tuple: (NullableIdxSize, NullableIdxSize),
    swapped: bool,
) -> NullableIdxSize {
    if swapped {
        tuple.1
    } else {
        tuple.0
    }
}

/// The row of the build side in a tuple of an outer join.
pub open spec fn build_part(
    tuple: (NullableIdxSize, NullableIdxSize),
    swapped: bool,
) -> NullableIdxSize {
    if swapped {
        tuple.0
    } else {
        tuple.1
    }
}

/// Whether one of the tuples holds the probe row `row`.
pub open spec fn holds_probe_row(
    tuples: Seq<(NullableIdxSize, NullableIdxSize)>,
    swapped: bool,
    row: IdxSize,
) -> bool {
    exists|t: int| 0 <= t < tuples.len() && probe_part(#[trigger] tuples[t], swapped) == Some(row)
}

/// Whether one of the tuples holds the build row `row`.
pub open spec fn holds_build_row(
    tuples: Seq<(NullableIdxSize, NullableIdxSize)>,
    swapped: bool,
    row: IdxSize,
) -> bool {
    exists|t: int| 0 <= t < tuples.len() && build_part(#[trigger] tuples[t], swapped) == Some(row)
}

/// A tuple that one of two sequences holds is held by the two put together.
pub proof fn lemma_holds_add(
    a: Seq<(NullableIdxSize, NullableIdxSize)>,
    b: Seq<(NullableIdxSize, NullableIdxSize)>,
    swapped: bool,
    row: IdxSize,
)
    ensures
        holds_probe_row(a, swapped, row) || holds_probe_row(b, swapped, row) ==> holds_probe_row(
            a + b,
            swapped,
            row,
        ),
        holds_build_row(a, swapped, row) || holds_build_row(b, swapped, row) ==> holds_build_row(
            a + b,
            swapped,
            row,
        ),
{
    if holds_probe_row(a, swapped, row) {
        let t = choose|t: int|
            0 <= t < a.len() && probe_part(#[trigger] a[t], swapped) == Some(row);
        assert((a + b)[t] == a[t]);
    }
    if holds_probe_row(b, swapped, row) {
        let t = choose|t: int|
            0 <= t < b.len() && probe_part(#[trigger] b[t], swapped) == Some(row);
        assert((a + b)[a.len() + t] == b[t]);
    }
    if holds_build_row(a, swapped, row) {
        let t = choose|t: int|
            0 <= t < a.len() && build_part(#[trigger] a[t], swapped) == Some(row);
        assert((a + b)[t] == a[t]);
    }
    if holds_build_row(b, swapped, row) {
        let t = choose|t: int|
            0 <= t < b.len() && build_part(#[trigger] b[t], swapped) == Some(row);
        assert((a + b)[a.len() + t] == b[t]);
    }
}

/// Whether every tuple holds a row of a side, and the rows that the tuples
/// hold are rows of their sides.
pub open spec fn rows_within(
    tuples: Seq<(NullableIdxSize, NullableIdxSize)>,
    left_len: nat,
    right_len: nat,
) -> bool {
    forall|t: int|
        0 <= t < tuples.len() ==> {
            let tuple = #[trigger] tuples[t];
            &&& tuple.0 is Some || tuple.1 is Some
            &&& tuple.0 matches Some(l) ==> l < left_len
            &&& tuple.1 matches Some(r) ==> r < right_len
        }
}

/// The length of the left side of a probe and a build side.
pub open spec fn left_len(probe_len: nat, build_len: nat, swapped: bool) -> nat {
    if swapped {
        build_len
    } else {
        probe_len
    }
}

/// The length of the right side of a probe and a build side.
pub open spec fn right_len(probe_len: nat, build_len: nat, swapped: bool) -> nat {
    if swapped {
        probe_len
    } else {
        build_len
    }
}

/// The tuples that the probe rows `lo..hi` give an outer join hold rows of
/// their sides, and each a probe row.
pub proof fn lemma_outer_probe_rows_within<C>(
    probe: Seq<Option<C>>,
    build: Seq<Option<C>>,
    nulls_equal: bool,
    swapped: bool,
    lo: int,
    hi: int,
)
    requires
        0 <= lo <= hi <= probe.len() <= IDX_MAX,
        build.len() <= IDX_MAX,
    ensures
        rows_within(
            outer_probe_rows(probe, build, nulls_equal, swapped, lo, hi),
            left_len(probe.len(), build.len(), swapped),
            right_len(probe.len(), build.len(), swapped),
        ),
    decreases hi - lo,
{
    if hi > lo {
        lemma_outer_probe_rows_within(probe, build, nulls_equal, swapped, lo, hi - 1);
        let before = outer_probe_rows(probe, build, nulls_equal, swapped, lo, hi - 1);
        let all = outer_probe_rows(probe, build, nulls_equal, swapped, lo, hi);
        let rows = matches_of(build, probe[hi - 1], nulls_equal);
        let added = outer_tuples((hi - 1) as IdxSize, rows, swapped);
        lemma_matching_rows(build, probe[hi - 1], nulls_equal, 0, build.len() as int);
        assert(all == before + added);
        assert forall|t: int| 0 <= t < all.len() implies ({
            let tuple = #[trigger] all[t];
            &&& tuple.0 is Some || tuple.1 is Some
            &&& tuple.0 matches Some(l) ==> l < left_len(probe.len(), build.len(), swapped)
            &&& tuple.1 matches Some(r) ==> r < right_len(probe.len(), build.len(), swapped)
        }) by {
            if t < before.len() {
                assert(all[t] == before[t]);
            } else {
                assert(all[t] == added[t - before.len()]);
            }
        }
    }
}

/// Each of the probe rows `lo..hi` is in one of the tuples that these rows
/// give an outer join.
pub proof fn lemma_outer_probe_rows_hold_probe<C>(
    probe: Seq<Option<C>>,
    build: Seq<Option<C>>,
    nulls_equal: bool,
    swapped: bool,
    lo: int,
    hi: int,
    row: IdxSize,
)
    requires
        0 <= lo <= hi <= probe.len() <= IDX_MAX,
        lo <= row < hi,
    ensures
        holds_probe_row(
            outer_probe_rows(probe, build, nulls_equal, swapped, lo, hi),
            swapped,
            row,
        ),
    decreases hi - lo,
{
    let before = outer_probe_rows(probe, build, nulls_equal, swapped, lo, hi - 1);
    let rows = matches_of(build, probe[hi - 1], nulls_equal);
    let added = outer_tuples((hi - 1) as IdxSize, rows, swapped);
    if row < hi - 1 {
        lemma_outer_probe_rows_hold_probe(probe, build, nulls_equal, swapped, lo, hi - 1, row);
    } else {
        assert(probe_part(added[0], swapped) == Some(row));
    }
    lemma_holds_add(before, added, swapped, row);
}

/// Each build row that one of the probe rows `lo..hi` corresponds to is in
/// one of the tuples that these rows give an outer join.
pub proof fn lemma_outer_probe_rows_hold_build<C>(
    probe: Seq<Option<C>>,
    build: Seq<Option<C>>,
    nulls_equal: bool,
    swapped: bool,
    lo: int,
    hi: int,
    row: IdxSize,
)
    requires
        0 <= lo <= hi <= probe.len() <= IDX_MAX,
        row < build.len() <= IDX_MAX,
        is_matched(probe, build[row as int], nulls_equal, lo, hi),
    ensures
        holds_build_row(
            outer_probe_rows(probe, build, nulls_equal, swapped, lo, hi),
            swapped,
            row,
        ),
    decreases hi - lo,
{
    if hi > lo {
        let before = outer_probe_rows(probe, build, nulls_equal, swapped, lo, hi - 1);
        let rows = matches_of(build, probe[hi - 1], nulls_equal);
        let added = outer_tuples((hi - 1) as IdxSize, rows, swapped);
        if is_matched(probe, build[row as int], nulls_equal, lo, hi - 1) {
            lemma_outer_probe_rows_hold_build(probe, build, nulls_equal, swapped, lo, hi - 1, row);
        } else {
            lemma_matching_rows(build, probe[hi - 1], nulls_equal, 0, build.len() as int);
            assert(key_match(build[row as int], probe[hi - 1], nulls_equal));
            assert(key_match(probe[hi - 1], build[row as int], nulls_equal));
            assert(rows.contains(row as int as IdxSize));
            let s = choose|s: int| 0 <= s < rows.len() && rows[s] == row;
            assert(build_part(added[s], swapped) == Some(row));
        }
        lemma_holds_add(before, added, swapped, row);
    }
}

/// The tuples that the build rows before `n` give an outer join hold rows
/// of the build side, and each such row that no probe row corresponds to
/// is in one of them.
pub proof fn lemma_outer_build_rows<C>(
    probe: Seq<Option<C>>,
    build: Seq<Option<C>>,
    nulls_equal: bool,
    swapped: bool,
    n: int,
    row: IdxSize,
)
    requires
        0 <= n <= build.len() <= IDX_MAX,
    ensures
        rows_within(
            outer_build_rows(probe, build, nulls_equal, swapped, n),
            left_len(probe.len(), build.len(), swapped),
            right_len(probe.len(), build.len(), swapped),
        ),
        row < n && !is_matched(probe, build[row as int], nulls_equal, 0, probe.len() as int)
            ==> holds_build_row(
            outer_build_rows(probe, build, nulls_equal, swapped, n),
            swapped,
            row,
        ),
    decreases n,
{
    if n > 0 {
        lemma_outer_build_rows(probe, build, nulls_equal, swapped, n - 1, row);
        let before = outer_build_rows(probe, build, nulls_equal, swapped, n - 1);
        let all = outer_build_rows(probe, build, nulls_equal, swapped, n);
        if !is_matched(probe, build[n - 1], nulls_equal, 0, probe.len() as int) {
            let added = seq![outer_tuple(None, Some((n - 1) as IdxSize), swapped)];
            assert(all =~= before + added);
            if row == n - 1 {
                assert(build_part(added[0], swapped) == Some(row));
            }
            lemma_holds_add(before, added, swapped, row);
            assert forall|t: int| 0 <= t < all.len() implies ({
                let tuple = #[trigger] all[t];
                &&& tuple.0 is Some || tuple.1 is Some
                &&& tuple.0 matches Some(l) ==> l < left_len(probe.len(), build.len(), swapped)
                &&& tuple.1 matches Some(r) ==> r < right_len(probe.len(), build.len(), swapped)
            }) by {
                if t < before.len() {
                    assert(all[t] == before[t]);
                }
            }
        }
    }
}

/// Outer completeness: every row of the left side and every row of the
/// right side is in a tuple of the outer join, the rows in the tuples are
/// rows of their sides, and no tuple lacks both its rows.
pub proof fn law_outer_completeness<C>(
    left: Seq<Option<C>>,
    right: Seq<Option<C>>,
    nulls_equal: bool,
)
    requires
        left.len() <= IDX_MAX,
        right.len() <= IDX_MAX,
    ensures
        forall|l: IdxSize|
            l < left.len() ==> #[trigger] firsts(outer_join(left, right, nulls_equal)).contains(
                Some(l),
            ),
        forall|r: IdxSize|
            r < right.len() ==> #[trigger] seconds(outer_join(left, right, nulls_equal)).contains(
                Some(r),
            ),
        rows_within(outer_join(left, right, nulls_equal), left.len(), right.len()),
{
    let swapped = swaps(left, right);
    let probe = if swapped {
        right
    } else {
        left
    };
    let build = if swapped {
        left
    } else {
        right
    };
    let main = outer_probe_rows(probe, build, nulls_equal, swapped, 0, probe.len() as int);
    let rest = outer_build_rows(probe, build, nulls_equal, swapped, build.len() as int);
    let all = outer_join(left, right, nulls_equal);
    assert(all == main + rest);
    lemma_outer_probe_rows_within(probe, build, nulls_equal, swapped, 0, probe.len() as int);
    lemma_outer_build_rows(probe, build, nulls_equal, swapped, build.len() as int, 0);
    assert forall|t: int| 0 <= t < all.len() implies ({
        let tuple = #[trigger] all[t];
        &&& tuple.0 is Some || tuple.1 is Some
        &&& tuple.0 matches Some(l) ==> l < left.len()
        &&& tuple.1 matches Some(r) ==> r < right.len()
    }) by {
        if t < main.len() {
            assert(all[t] == main[t]);
        } else {
            assert(all[t] == rest[t - main.len()]);
        }
    }
    assert forall|row: IdxSize| row < probe.len() implies holds_probe_row(
        all,
        swapped,
        row,
    ) by {
        lemma_outer_probe_rows_hold_probe(
            probe,
            build,
            nulls_equal,
            swapped,
            0,
            probe.len() as int,
            row,
        );
        lemma_holds_add(main, rest, swapped, row);
    }
    assert forall|row: IdxSize| row < build.len() implies holds_build_row(
        all,
        swapped,
        row,
    ) by {
        if is_matched(probe, build[row as int], nulls_equal, 0, probe.len() as int) {
            lemma_outer_probe_rows_hold_build(
                probe,
                build,
                nulls_equal,
                swapped,
                0,
                probe.len() as int,
                row,
            );
        } else {
            lemma_outer_build_rows(probe, build, nulls_equal, swapped, build.len() as int, row);
        }
        lemma_holds_add(main, rest, swapped, row);
    }
    assert forall|l: IdxSize| l < left.len() implies #[trigger] firsts(all).contains(
        Some(l),
    ) by {
        if swapped {
            assert(holds_build_row(all, swapped, l));
            let t = choose|t: int|
                0 <= t < all.len() && build_part(#[trigger] all[t], swapped) == Some(l);
            assert(firsts(all)[t] == Some(l));
        } else {
            assert(holds_probe_row(all, swapped, l));
            let t = choose|t: int|
                0 <= t < all.len() && probe_part(#[trigger] all[t], swapped) == Some(l);
            assert(firsts(all)[t] == Some(l));
        }
    }
    assert forall|r: IdxSize| r < right.len() implies #[trigger] seconds(all).contains(
        Some(r),
    ) by {
        if swapped {
            assert(holds_probe_row(all, swapped, r));
            let t = choose|t: int|
                0 <= t < all.len() && probe_part(#[trigger] all[t], swapped) == Some(r);
            assert(seconds(all)[t] == Some(r));
        } else {
            assert(holds_build_row(all, swapped, r));
            let t = choose|t: int|
                0 <= t < all.len() && build_part(#[trigger] all[t], swapped) == Some(r);
            assert(seconds(all)[t] == Some(r));
        }
    }
}

/// The rows of a semi or an anti join in `lo..hi` are the rows of the range
/// that have a corresponding row, or those that have none.
pub proof fn lemma_semi_anti_rows_contains<C>(
    left: Seq<Option<C>>,
    right: Seq<Option<C>>,
    nulls_equal: bool,
    anti: bool,
    lo: int,
    hi: int,
    row: IdxSize,
)
    requires
        0 <= lo <= hi <= left.len() <= IDX_MAX,
    ensures
        semi_anti_rows(left, right, nulls_equal, anti, lo, hi).contains(row) <==> lo <= row < hi
            && (matches_of(right, left[row as int], nulls_equal).len() == 0) == anti,
    decreases hi - lo,
{
    if hi > lo {
        lemma_semi_anti_rows_contains(left, right, nulls_equal, anti, lo, hi - 1, row);
        let before = semi_anti_rows(left, right, nulls_equal, anti, lo, hi - 1);
        let all = semi_anti_rows(left, right, nulls_equal, anti, lo, hi);
        if (matches_of(right, left[hi - 1], nulls_equal).len() == 0) == anti {
            assert(all == before.push((hi - 1) as IdxSize));
            assert(all == before + seq![(hi - 1) as IdxSize]);
            lemma_contains_add(before, seq![(hi - 1) as IdxSize], row);
            if row == hi - 1 {
                assert(seq![(hi - 1) as IdxSize][0] == row);
            }
        }
    }
}

/// Semi and anti partition: every row of the left side is in the semi join
/// or in the anti join, and none is in both.
pub proof fn law_semi_anti_partition<C>(
    left: Seq<Option<C>>,
    right: Seq<Option<C>>,
    nulls_equal: bool,
)
    requires
        left.len() <= IDX_MAX,
    ensures
        semi_join(left, right, nulls_equal).to_set().union(
            anti_join(left, right, nulls_equal).to_set(),
        ) == Set::new(|row: IdxSize| row < left.len()),
        semi_join(left, right, nulls_equal).to_set().disjoint(
            anti_join(left, right, nulls_equal).to_set(),
        ),
{
    let semi = semi_join(left, right, nulls_equal);
    let anti = anti_join(left, right, nulls_equal);
    assert forall|row: IdxSize|
        (semi.contains(row) || anti.contains(row)) == (row < left.len()) && !(semi.contains(row)
            && anti.contains(row)) by {
        lemma_semi_anti_rows_contains(left, right, nulls_equal, false, 0, left.len() as int, row);
        lemma_semi_anti_rows_contains(left, right, nulls_equal, true, 0, left.len() as int, row);
    }
    assert(semi.to_set().union(anti.to_set()) =~= Set::new(|row: IdxSize| row < left.len()));
}

/// The null-equality toggle: where nulls are not held equal, a row with a
/// null key is in no tuple of the inner join; where they are, a row with a
/// null key on the left and one on the right are a tuple of it.
pub proof fn law_null_equality<C>(
    left: Seq<Option<C>>,
    right: Seq<Option<C>>,
    nulls_equal: bool,
    l: IdxSize,
    r: IdxSize,
)
    requires
        left.len() <= IDX_MAX,
        right.len() <= IDX_MAX,
        l < left.len(),
        r < right.len(),
    ensures
        !nulls_equal && (left[l as int] is None || right[r as int] is None) ==> !inner_join(
            left,
            right,
            nulls_equal,
        ).contains((l, r)),
        nulls_equal && left[l as int] is None && right[r as int] is None ==> inner_join(
            left,
            right,
            nulls_equal,
        ).contains((l, r)),
{
    law_inner_join_pairs(left, right, nulls_equal, l, r);
}

/// Whether one pair of a probe and a build row comes before another in the
/// order of the probe rows, and among the pairs of one probe row in the
/// order of the build rows.
pub open spec fn comes_before(a: (IdxSize, IdxSize), b: (IdxSize, IdxSize)) -> bool {
    a.0 < b.0 || (a.0 == b.0 && a.1 < b.1)
}

/// The tuples of the probe rows `lo..hi` stand in the order of the probe
/// rows, and those of one probe row in the order of the build rows.
pub proof fn lemma_inner_rows_order<C>(
    probe: Seq<Option<C>>,
    build: Seq<Option<C>>,
    nulls_equal: bool,
    swapped: bool,
    lo: int,
    hi: int,
)
    requires
        0 <= lo <= hi <= probe.len() <= IDX_MAX,
        build.len() <= IDX_MAX,
    ensures
        forall|s: int, t: int|
            0 <= s < t < inner_rows(probe, build, nulls_equal, swapped, lo, hi).len()
                ==> comes_before(
                unswap(
                    #[trigger] inner_rows(probe, build, nulls_equal, swapped, lo, hi)[s],
                    swapped,
                ),
                unswap(
                    #[trigger] inner_rows(probe, build, nulls_equal, swapped, lo, hi)[t],
                    swapped,
                ),
            ),
    decreases hi - lo,
{
    if hi > lo {
        lemma_inner_rows_order(probe, build, nulls_equal, swapped, lo, hi - 1);
        let before = inner_rows(probe, build, nulls_equal, swapped, lo, hi - 1);
        let all = inner_rows(probe, build, nulls_equal, swapped, lo, hi);
        let row = (hi - 1) as IdxSize;
        let rows = matches_of(build, probe[hi - 1], nulls_equal);
        let added = pair_up(row, rows, swapped);
        lemma_matching_rows(build, probe[hi - 1], nulls_equal, 0, build.len() as int);
        assert(all == before + added);
        assert forall|s: int, t: int| 0 <= s < t < all.len() implies comes_before(
            unswap(#[trigger] all[s], swapped),
            unswap(#[trigger] all[t], swapped),
        ) by {
            if t < before.len() {
                assert(all[s] == before[s] && all[t] == before[t]);
            } else if s < before.len() {
                assert(all[s] == before[s]);
                assert(before.contains(before[s]));
                lemma_inner_rows_contains(
                    probe,
                    build,
                    nulls_equal,
                    swapped,
                    lo,
                    hi - 1,
                    before[s],
                );
                assert(all[t] == added[t - before.len()]);
            } else {
                assert(all[s] == added[s - before.len()]);
                assert(all[t] == added[t - before.len()]);
            }
        }
    }
}

/// The order of the result: the tuples of an inner join stand in the order
/// of the rows of the probe side, and the tuples of one probe row in the
/// order of the rows of the build side. So no tuple stands twice.
pub proof fn law_inner_join_order<C>(
    left: Seq<Option<C>>,
    right: Seq<Option<C>>,
    nulls_equal: bool,
)
    requires
        left.len() <= IDX_MAX,
        right.len() <= IDX_MAX,
    ensures
        forall|s: int, t: int|
            0 <= s < t < inner_join(left, right, nulls_equal).len() ==> comes_before(
                unswap(#[trigger] inner_join(left, right, nulls_equal)[s], swaps(left, right)),
                unswap(#[trigger] inner_join(left, right, nulls_equal)[t], swaps(left, right)),
            ),
        inner_join(left, right, nulls_equal).no_duplicates(),
{
    let all = inner_join(left, right, nulls_equal);
    if swaps(left, right) {
        lemma_inner_rows_order(right, left, nulls_equal, true, 0, right.len() as int);
    } else {
        lemma_inner_rows_order(left, right, nulls_equal, false, 0, left.len() as int);
    }
    assert forall|s: int, t: int| 0 <= s < all.len() && 0 <= t < all.len() && s != t implies all[s]
        != all[t] by {
        if s < t {
            assert(comes_before(
                unswap(all[s], swaps(left, right)),
                unswap(all[t], swaps(left, right)),
            ));
        } else {
            assert(comes_before(
                unswap(all[t], swaps(left, right)),
                unswap(all[s], swaps(left, right)),
            ));
        }
    }
}

/// The rows of a semi or an anti join in `lo..hi` stand in ascending order.
pub proof fn lemma_semi_anti_rows_order<C>(
    left: Seq<Option<C>>,
    right: Seq<Option<C>>,
    nulls_equal: bool,
    anti: bool,
    lo: int,
    hi: int,
)
    requires
        0 <= lo <= hi <= left.len() <= IDX_MAX,
    ensures
        forall|s: int, t: int|
            0 <= s < t < semi_anti_rows(left, right, nulls_equal, anti, lo, hi).len()
                ==> semi_anti_rows(left, right, nulls_equal, anti, lo, hi)[s] < semi_anti_rows(
                left,
                right,
                nulls_equal,
                anti,
                lo,
                hi,
            )[t],
        forall|t: int|
            0 <= t < semi_anti_rows(left, right, nulls_equal, anti, lo, hi).len() ==> lo
                <= #[trigger] semi_anti_rows(left, right, nulls_equal, anti, lo, hi)[t] < hi,
    decreases hi - lo,
{
    if hi > lo {
        lemma_semi_anti_rows_order(left, right, nulls_equal, anti, lo, hi - 1);
        let before = semi_anti_rows(left, right, nulls_equal, anti, lo, hi - 1);
        let all = semi_anti_rows(left, right, nulls_equal, anti, lo, hi);
        assert forall|t: int| 0 <= t < all.len() implies lo <= #[trigger] all[t] < hi by {
            if t < before.len() {
                assert(all[t] == before[t]);
            }
        }
        assert forall|s: int, t: int| 0 <= s < t < all.len() implies all[s] < all[t] by {
            assert(all[s] == before[s]);
            if t < before.len() {
                assert(all[t] == before[t]);
            }
        }
    }
}

/// A semi and an anti join hold each row at most once: their rows stand in
/// ascending order.
pub proof fn law_semi_anti_ascending<C>(
    left: Seq<Option<C>>,
    right: Seq<Option<C>>,
    nulls_equal: bool,
)
    requires
        left.len() <= IDX_MAX,
    ensures
        forall|s: int, t: int|
            0 <= s < t < semi_join(left, right, nulls_equal).len() ==> semi_join(
                left,
                right,
                nulls_equal,
            )[s] < semi_join(left, right, nulls_equal)[t],
        forall|s: int, t: int|
            0 <= s < t < anti_join(left, right, nulls_equal).len() ==> anti_join(
                left,
                right,
                nulls_equal,
            )[s] < anti_join(left, right, nulls_equal)[t],
{
    lemma_semi_anti_rows_order(left, right, nulls_equal, false, 0, left.len() as int);
    lemma_semi_anti_rows_order(left, right, nulls_equal, true, 0, left.len() as int);
}

} // verus!
