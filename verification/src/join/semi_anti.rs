//! The semi join and the anti join: the rows of one side that some row of
//! the other side corresponds to, and those that none does.
use vstd::prelude::*;
use crate::join::assemble::flatten;
use crate::join::model::{
    concat_upto, lemma_semi_anti_rows_split, lemma_side_keys, offset_of, semi_anti_rows,
    side_keys,
};
use crate::join::table::{build_tables, has_match, part_offsets, tables_hold, HashTable};
use crate::keys::JoinKey;
use crate::pool::par_map;
use crate::{IdxSize, IDX_MAX};

verus! {

/// There are no more rows in a semi or an anti join than in the range.
pub proof fn lemma_semi_anti_rows_len<C>(
    probe: Seq<Option<C>>,
    build: Seq<Option<C>>,
    nulls_equal: bool,
    anti: bool,
    lo: int,
    hi: int,
)
    requires
        lo <= hi,
    ensures
        semi_anti_rows(probe, build, nulls_equal, anti, lo, hi).len() <= hi - lo,
    decreases hi - lo,
{
    if hi > lo {
        lemma_semi_anti_rows_len(probe, build, nulls_equal, anti, lo, hi - 1);
    }
}

/// Probes the tables with the keys of partition `p` of the probe side, whose
/// first row is row `offset` of that side, and returns the rows that have a
/// corresponding row, or those that have none if `anti` is set.
pub fn probe_semi_anti<K: JoinKey>(
    probe: &Vec<&[K]>,
    p: usize,
    offset: usize,
    tables: &Vec<HashTable>,
    build: &Vec<&[K]>,
    nulls_equal: bool,
    anti: bool,
) -> (out: Vec<IdxSize>)
    requires
        p < probe@.len(),
        offset == offset_of(probe@, p as int),
        side_keys(probe@).len() <= IDX_MAX,
        side_keys(build@).len() <= IDX_MAX,
        tables_hold(tables@, build@, nulls_equal),
    ensures
        out@ == semi_anti_rows(
            side_keys(probe@),
            side_keys(build@),
            nulls_equal,
            anti,
            offset_of(probe@, p as int),
            offset_of(probe@, p + 1),
        ),
{
    let part: &[K] = probe[p];
    let ghost keys = side_keys(probe@);
    let ghost others = side_keys(build@);
    proof {
        lemma_side_keys(probe@, p as int);
    }
    let mut out: Vec<IdxSize> = Vec::new();
    let mut i: usize = 0;
    while i < part.len()
        invariant
            i <= part@.len(),
            part@ == probe@[p as int]@,
            keys == side_keys(probe@),
            others == side_keys(build@),
            others.len() <= IDX_MAX,
            offset + part@.len() <= keys.len() <= IDX_MAX,
            forall|j: int| 0 <= j < part@.len() ==> #[trigger] keys[offset + j] == part@[j].canon(),
            tables_hold(tables@, build@, nulls_equal),
            out@ == semi_anti_rows(keys, others, nulls_equal, anti, offset as int, offset + i),
        decreases part.len() - i,
    {
        let key = &part[i];
        assert(keys[offset + i] == part@[i as int].canon());
        if has_match(tables, build, key, nulls_equal) != anti {
            out.push((offset + i) as IdxSize);
        }
        i += 1;
    }
    out
}

/// The rows of the partitions, one partition after the other, are the
/// rows of the side.
pub proof fn lemma_semi_anti_parts<K: JoinKey>(
    buffers: Seq<Vec<IdxSize>>,
    probe: Seq<&[K]>,
    build: Seq<Option<K::Canon>>,
    nulls_equal: bool,
    anti: bool,
    n: int,
)
    requires
        0 <= n <= probe.len() == buffers.len(),
        forall|p: int|
            0 <= p < n ==> (#[trigger] buffers[p])@ == semi_anti_rows(
                side_keys(probe),
                build,
                nulls_equal,
                anti,
                offset_of(probe, p),
                offset_of(probe, p + 1),
            ),
    ensures
        concat_upto(buffers, n) == semi_anti_rows(
            side_keys(probe),
            build,
            nulls_equal,
            anti,
            0,
            offset_of(probe, n),
        ),
    decreases n,
{
    if n > 0 {
        lemma_semi_anti_parts(buffers, probe, build, nulls_equal, anti, n - 1);
        lemma_side_keys(probe, n - 1);
        lemma_semi_anti_rows_split(
            side_keys(probe),
            build,
            nulls_equal,
            anti,
            0,
            offset_of(probe, n - 1),
            offset_of(probe, n),
        );
    }
}

/// The rows of a semi join of the probe side with the build side, or of an
/// anti join if `anti` is set, in ascending order. The partitions of the
/// probe side are probed each on a worker of the pool.
pub fn hash_join_tuples_semi_anti<K: JoinKey>(
    probe: &Vec<&[K]>,
    build: &Vec<&[K]>,
    nulls_equal: bool,
    anti: bool,
) -> (out: Vec<IdxSize>)
    requires
        side_keys(probe@).len() <= IDX_MAX,
        side_keys(build@).len() <= IDX_MAX,
    ensures
        out@ == semi_anti_rows(
            side_keys(probe@),
            side_keys(build@),
            nulls_equal,
            anti,
            0,
            side_keys(probe@).len() as int,
        ),
{
    let tables = build_tables(build, nulls_equal);
    let offsets = part_offsets(probe);
    let probe_part = |p: usize| -> (out: Vec<IdxSize>)
        requires
            p < probe@.len(),
        ensures
            out@ == semi_anti_rows(
                side_keys(probe@),
                side_keys(build@),
                nulls_equal,
                anti,
                offset_of(probe@, p as int),
                offset_of(probe@, p + 1),
            ),
        { probe_semi_anti(probe, p, offsets[p], &tables, build, nulls_equal, anti) };
    let buffers = par_map(probe.len(), probe_part);
    proof {
        lemma_semi_anti_parts(
            buffers@,
            probe@,
            side_keys(build@),
            nulls_equal,
            anti,
            probe@.len() as int,
        );
        if probe@.len() > 0 {
            lemma_side_keys(probe@, 0);
        }
        lemma_semi_anti_rows_len(
            side_keys(probe@),
            side_keys(build@),
            nulls_equal,
            anti,
            0,
            side_keys(probe@).len() as int,
        );
    }
    match flatten(&buffers) {
        Some(out) => out,
        None => vstd::pervasive::unreached(),
    }
}

/// The rows of the probe side that some row of the build side corresponds to.
pub fn hash_join_tuples_left_semi<K: JoinKey>(
    probe: &Vec<&[K]>,
    build: &Vec<&[K]>,
    nulls_equal: bool,
) -> (out: Vec<IdxSize>)
    requires
        side_keys(probe@).len() <= IDX_MAX,
        side_keys(build@).len() <= IDX_MAX,
    ensures
        out@ == semi_anti_rows(
            side_keys(probe@),
            side_keys(build@),
            nulls_equal,
            false,
            0,
            side_keys(probe@).len() as int,
        ),
{
    hash_join_tuples_semi_anti(probe, build, nulls_equal, false)
}

/// The rows of the probe side that no row of the build side corresponds to.
pub fn hash_join_tuples_left_anti<K: JoinKey>(
    probe: &Vec<&[K]>,
    build: &Vec<&[K]>,
    nulls_equal: bool,
) -> (out: Vec<IdxSize>)
    requires
        side_keys(probe@).len() <= IDX_MAX,
        side_keys(build@).len() <= IDX_MAX,
    ensures
        out@ == semi_anti_rows(
            side_keys(probe@),
            side_keys(build@),
            nulls_equal,
            true,
            0,
            side_keys(probe@).len() as int,
        ),
{
    hash_join_tuples_semi_anti(probe, build, nulls_equal, true)
}

} // verus!
