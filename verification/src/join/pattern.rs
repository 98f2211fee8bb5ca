//! A join depends on its keys only through which of them correspond.
//!
//! Two pairs of sides on which the same rows correspond give the same
//! tuples and fail alike, whatever their keys are. So the engine may join
//! on any representation of the keys that keeps their equality.
use vstd::prelude::*;
use crate::join::model::{
    duplicate_upto, inner_error, inner_rows, inner_tuples, key_match, left_error,
    left_join_tuples, left_rows, matches_of, matching_rows, outer_build_rows, outer_error,
    outer_probe_rows, outer_rows, precheck, semi_anti_rows,
};
use crate::join::validate::JoinValidation;

verus! {

/// Whether the same rows correspond on the two pairs of sides.
pub open spec fn same_pattern<A, B>(
    probe_a: Seq<Option<A>>,
    build_a: Seq<Option<A>>,
    probe_b: Seq<Option<B>>,
    build_b: Seq<Option<B>>,
    nulls_equal: bool,
) -> bool {
    &&& probe_a.len() == probe_b.len()
    &&& build_a.len() == build_b.len()
    &&& forall|i: int, j: int|
        0 <= i < probe_a.len() && 0 <= j < build_a.len() ==> key_match(
            #[trigger] probe_a[i],
            #[trigger] build_a[j],
            nulls_equal,
        ) == key_match(probe_b[i], build_b[j], nulls_equal)
}

/// Seen from the other side, the pattern is the same.
pub proof fn lemma_pattern_flip<A, B>(
    probe_a: Seq<Option<A>>,
    build_a: Seq<Option<A>>,
    probe_b: Seq<Option<B>>,
    build_b: Seq<Option<B>>,
    nulls_equal: bool,
)
    requires
        same_pattern(probe_a, build_a, probe_b, build_b, nulls_equal),
    ensures
        same_pattern(build_a, probe_a, build_b, probe_b, nulls_equal),
{
    assert forall|i: int, j: int| 0 <= i < build_a.len() && 0 <= j < probe_a.len()
        implies key_match(
        #[trigger] build_a[i],
        #[trigger] probe_a[j],
        nulls_equal,
    ) == key_match(build_b[i], probe_b[j], nulls_equal) by {
        assert(key_match(probe_a[j], build_a[i], nulls_equal) == key_match(
            probe_b[j],
            build_b[i],
            nulls_equal,
        ));
    }
}

/// Keys that correspond to the same rows have the same matching rows.
pub proof fn lemma_matching_rows_pattern<A, B>(
    keys_a: Seq<Option<A>>,
    k_a: Option<A>,
    keys_b: Seq<Option<B>>,
    k_b: Option<B>,
    nulls_equal: bool,
    lo: int,
    hi: int,
)
    requires
        0 <= lo,
        hi <= keys_a.len() == keys_b.len(),
        forall|j: int|
            lo <= j < hi ==> key_match(k_a, #[trigger] keys_a[j], nulls_equal) == key_match(
                k_b,
                keys_b[j],
                nulls_equal,
            ),
    ensures
        matching_rows(keys_a, k_a, nulls_equal, lo, hi) == matching_rows(
            keys_b,
            k_b,
            nulls_equal,
            lo,
            hi,
        ),
    decreases hi - lo,
{
    if hi > lo {
        lemma_matching_rows_pattern(keys_a, k_a, keys_b, k_b, nulls_equal, lo, hi - 1);
        assert(key_match(k_a, keys_a[hi - 1], nulls_equal) == key_match(
            k_b,
            keys_b[hi - 1],
            nulls_equal,
        ));
    }
}

/// Under the same pattern, a probe row has the same matching build rows.
pub proof fn lemma_matches_pattern<A, B>(
    probe_a: Seq<Option<A>>,
    build_a: Seq<Option<A>>,
    probe_b: Seq<Option<B>>,
    build_b: Seq<Option<B>>,
    nulls_equal: bool,
    i: int,
)
    requires
        same_pattern(probe_a, build_a, probe_b, build_b, nulls_equal),
        0 <= i < probe_a.len(),
    ensures
        matches_of(build_a, probe_a[i], nulls_equal) == matches_of(
            build_b,
            probe_b[i],
            nulls_equal,
        ),
{
    assert forall|j: int| 0 <= j < build_a.len() implies key_match(
        probe_a[i],
        #[trigger] build_a[j],
        nulls_equal,
    ) == key_match(probe_b[i], build_b[j], nulls_equal) by {
        assert(key_match(probe_a[i], build_a[j], nulls_equal) == key_match(
            probe_b[i],
            build_b[j],
            nulls_equal,
        ));
    }
    lemma_matching_rows_pattern(
        build_a,
        probe_a[i],
        build_b,
        probe_b[i],
        nulls_equal,
        0,
        build_a.len() as int,
    );
}

/// Under the same pattern, the tuples of every variant are the same.
pub proof fn lemma_rows_pattern<A, B>(
    probe_a: Seq<Option<A>>,
    build_a: Seq<Option<A>>,
    probe_b: Seq<Option<B>>,
    build_b: Seq<Option<B>>,
    nulls_equal: bool,
    swapped: bool,
    anti: bool,
    lo: int,
    hi: int,
)
    requires
        same_pattern(probe_a, build_a, probe_b, build_b, nulls_equal),
        0 <= lo,
        hi <= probe_a.len(),
    ensures
        inner_rows(probe_a, build_a, nulls_equal, swapped, lo, hi) == inner_rows(
            probe_b,
            build_b,
            nulls_equal,
            swapped,
            lo,
            hi,
        ),
        left_rows(probe_a, build_a, nulls_equal, lo, hi) == left_rows(
            probe_b,
            build_b,
            nulls_equal,
            lo,
            hi,
        ),
        outer_probe_rows(probe_a, build_a, nulls_equal, swapped, lo, hi) == outer_probe_rows(
            probe_b,
            build_b,
            nulls_equal,
            swapped,
            lo,
            hi,
        ),
        semi_anti_rows(probe_a, build_a, nulls_equal, anti, lo, hi) == semi_anti_rows(
            probe_b,
            build_b,
            nulls_equal,
            anti,
            lo,
            hi,
        ),
    decreases hi - lo,
{
    if hi > lo {
        lemma_rows_pattern(
            probe_a,
            build_a,
            probe_b,
            build_b,
            nulls_equal,
            swapped,
            anti,
            lo,
            hi - 1,
        );
        lemma_matches_pattern(probe_a, build_a, probe_b, build_b, nulls_equal, hi - 1);
    }
}

/// Under the same pattern, the same build rows are left over.
pub proof fn lemma_build_rows_pattern<A, B>(
    probe_a: Seq<Option<A>>,
    build_a: Seq<Option<A>>,
    probe_b: Seq<Option<B>>,
    build_b: Seq<Option<B>>,
    nulls_equal: bool,
    swapped: bool,
    n: int,
)
    requires
        same_pattern(probe_a, build_a, probe_b, build_b, nulls_equal),
        n <= build_a.len(),
    ensures
        outer_build_rows(probe_a, build_a, nulls_equal, swapped, n) == outer_build_rows(
            probe_b,
            build_b,
            nulls_equal,
            swapped,
            n,
        ),
    decreases n,
{
    if n > 0 {
        lemma_build_rows_pattern(probe_a, build_a, probe_b, build_b, nulls_equal, swapped, n - 1);
        lemma_pattern_flip(probe_a, build_a, probe_b, build_b, nulls_equal);
        lemma_matches_pattern(build_a, probe_a, build_b, probe_b, nulls_equal, n - 1);
    }
}

/// Under the same pattern of a side with itself, the first duplicate is
/// the same.
pub proof fn lemma_duplicate_pattern<A, B>(
    keys_a: Seq<Option<A>>,
    keys_b: Seq<Option<B>>,
    nulls_equal: bool,
    n: int,
)
    requires
        same_pattern(keys_a, keys_a, keys_b, keys_b, nulls_equal),
        n <= keys_a.len(),
    ensures
        duplicate_upto(keys_a, nulls_equal, n) == duplicate_upto(keys_b, nulls_equal, n),
    decreases n,
{
    if n > 0 {
        lemma_duplicate_pattern(keys_a, keys_b, nulls_equal, n - 1);
        assert forall|j: int| 0 <= j < n - 1 implies key_match(
            keys_a[n - 1],
            #[trigger] keys_a[j],
            nulls_equal,
        ) == key_match(keys_b[n - 1], keys_b[j], nulls_equal) by {
            assert(key_match(keys_a[n - 1], keys_a[j], nulls_equal) == key_match(
                keys_b[n - 1],
                keys_b[j],
                nulls_equal,
            ));
        }
        lemma_matching_rows_pattern(
            keys_a,
            keys_a[n - 1],
            keys_b,
            keys_b[n - 1],
            nulls_equal,
            0,
            n - 1,
        );
    }
}

/// Under the same pattern between the sides and of each side with itself,
/// every variant of the join gives the same tuples and fails alike.
pub proof fn lemma_same_join<A, B>(
    probe_a: Seq<Option<A>>,
    build_a: Seq<Option<A>>,
    probe_b: Seq<Option<B>>,
    build_b: Seq<Option<B>>,
    nulls_equal: bool,
    swapped: bool,
    validate: JoinValidation,
)
    requires
        same_pattern(probe_a, build_a, probe_b, build_b, nulls_equal),
        same_pattern(probe_a, probe_a, probe_b, probe_b, nulls_equal),
        same_pattern(build_a, build_a, build_b, build_b, nulls_equal),
    ensures
        precheck(probe_a, build_a, swapped, validate, nulls_equal) == precheck(
            probe_b,
            build_b,
            swapped,
            validate,
            nulls_equal,
        ),
        inner_tuples(probe_a, build_a, swapped, nulls_equal) == inner_tuples(
            probe_b,
            build_b,
            swapped,
            nulls_equal,
        ),
        inner_error(probe_a, build_a, swapped, validate, nulls_equal) == inner_error(
            probe_b,
            build_b,
            swapped,
            validate,
            nulls_equal,
        ),
        left_join_tuples(probe_a, build_a, nulls_equal) == left_join_tuples(
            probe_b,
            build_b,
            nulls_equal,
        ),
        left_error(probe_a, build_a, validate, nulls_equal) == left_error(
            probe_b,
            build_b,
            validate,
            nulls_equal,
        ),
        outer_rows(probe_a, build_a, nulls_equal, swapped) == outer_rows(
            probe_b,
            build_b,
            nulls_equal,
            swapped,
        ),
        outer_error(probe_a, build_a, swapped, validate, nulls_equal) == outer_error(
            probe_b,
            build_b,
            swapped,
            validate,
            nulls_equal,
        ),
        semi_anti_rows(probe_a, build_a, nulls_equal, false, 0, probe_a.len() as int)
            == semi_anti_rows(probe_b, build_b, nulls_equal, false, 0, probe_b.len() as int),
        semi_anti_rows(probe_a, build_a, nulls_equal, true, 0, probe_a.len() as int)
            == semi_anti_rows(probe_b, build_b, nulls_equal, true, 0, probe_b.len() as int),
{
    let n = probe_a.len() as int;
    lemma_rows_pattern(probe_a, build_a, probe_b, build_b, nulls_equal, swapped, false, 0, n);
    lemma_rows_pattern(probe_a, build_a, probe_b, build_b, nulls_equal, swapped, true, 0, n);
    lemma_rows_pattern(probe_a, build_a, probe_b, build_b, nulls_equal, false, true, 0, n);
    lemma_build_rows_pattern(
        probe_a,
        build_a,
        probe_b,
        build_b,
        nulls_equal,
        swapped,
        build_a.len() as int,
    );
    lemma_duplicate_pattern(probe_a, probe_b, nulls_equal, n);
    lemma_duplicate_pattern(build_a, build_b, nulls_equal, build_a.len() as int);
}

} // verus!
