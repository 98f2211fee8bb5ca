//! The inner join: one tuple for each pair of corresponding rows.
use vstd::prelude::*;
use crate::error::JoinError;
use crate::join::assemble::{flatten, unzip};
use crate::join::model::{
    concat, concat_upto, firsts, inner_error, inner_rows, inner_tuples, lemma_inner_rows_split,
    lemma_side_keys, offset_of, pair_up, seconds, side_keys,
};
use crate::join::table::{build_tables, HashTable, part_offsets, probe_key, tables_hold};
use crate::join::validate::{check_sides, JoinValidation};
use crate::keys::JoinKey;
use crate::pool::par_map;
use crate::{IdxSize, IDX_MAX};

verus! {

/// Probes the tables with the keys of partition `p` of the probe side, whose
/// first row is row `offset` of that side, and returns the tuples of these
/// rows.
pub fn probe_inner<K: JoinKey>(
    probe: &Vec<&[K]>,
    p: usize,
    offset: usize,
    tables: &Vec<HashTable>,
    build: &Vec<&[K]>,
    nulls_equal: bool,
    swapped: bool,
) -> (out: Vec<(IdxSize, IdxSize)>)
    requires
        p < probe@.len(),
        offset == offset_of(probe@, p as int),
        side_keys(probe@).len() <= IDX_MAX,
        side_keys(build@).len() <= IDX_MAX,
        tables_hold(tables@, build@, nulls_equal),
    ensures
        out@ == inner_rows(
            side_keys(probe@),
            side_keys(build@),
            nulls_equal,
            swapped,
            offset_of(probe@, p as int),
            offset_of(probe@, p + 1),
        ),
{
    let part: &[K] = probe[p];
    let ghost keys = side_keys(probe@);
    let ghost others = side_keys(build@);
    proof {
        lemma_side_keys(probe@, p as int);
    }
    let mut out: Vec<(IdxSize, IdxSize)> = Vec::new();
    let mut matches: Vec<IdxSize> = Vec::new();
    let mut i: usize = 0;
    while i < part.len()
        invariant
            i <= part@.len(),
            part@ == probe@[p as int]@,
            keys == side_keys(probe@),
            others == side_keys(build@),
            others.len() <= IDX_MAX,
            offset + part@.len() <= keys.len() <= IDX_MAX,
            forall|j: int| 0 <= j < part@.len() ==> #[trigger] keys[offset + j] == part@[j].canon(),
            tables_hold(tables@, build@, nulls_equal),
            out@ == inner_rows(keys, others, nulls_equal, swapped, offset as int, offset + i),
        decreases part.len() - i,
    {
        let key = &part[i];
        assert(keys[offset + i] == part@[i as int].canon());
        probe_key(tables, build, key, nulls_equal, &mut matches);
        let row = (offset + i) as IdxSize;
        let ghost before = out@;
        let mut t: usize = 0;
        while t < matches.len()
            invariant
                t <= matches@.len(),
                out@ == before + pair_up(row, matches@.take(t as int), swapped),
            decreases matches.len() - t,
        {
            let other = matches[t];
            if swapped {
                out.push((other, row));
            } else {
                out.push((row, other));
            }
            t += 1;
            assert(out@ =~= before + pair_up(row, matches@.take(t as int), swapped));
        }
        assert(matches@.take(t as int) =~= matches@);
        i += 1;
    }
    out
}

/// The tuples of the partitions, one partition after the other, are the
/// tuples of the side.
pub proof fn lemma_inner_parts<K: JoinKey>(
    buffers: Seq<Vec<(IdxSize, IdxSize)>>,
    probe: Seq<&[K]>,
    build: Seq<Option<K::Canon>>,
    nulls_equal: bool,
    swapped: bool,
    n: int,
)
    requires
        0 <= n <= probe.len() == buffers.len(),
        forall|p: int|
            0 <= p < n ==> (#[trigger] buffers[p])@ == inner_rows(
                side_keys(probe),
                build,
                nulls_equal,
                swapped,
                offset_of(probe, p),
                offset_of(probe, p + 1),
            ),
    ensures
        concat_upto(buffers, n) == inner_rows(
            side_keys(probe),
            build,
            nulls_equal,
            swapped,
            0,
            offset_of(probe, n),
        ),
    decreases n,
{
    if n > 0 {
        lemma_inner_parts(buffers, probe, build, nulls_equal, swapped, n - 1);
        lemma_side_keys(probe, n - 1);
        lemma_inner_rows_split(
            side_keys(probe),
            build,
            nulls_equal,
            swapped,
            0,
            offset_of(probe, n - 1),
            offset_of(probe, n),
        );
    }
}

/// Probes the tables with every partition of the probe side, each on a
/// worker of the pool.
pub fn probe_all_inner<K: JoinKey>(
    probe: &Vec<&[K]>,
    tables: &Vec<HashTable>,
    build: &Vec<&[K]>,
    nulls_equal: bool,
    swapped: bool,
) -> (buffers: Vec<Vec<(IdxSize, IdxSize)>>)
    requires
        side_keys(probe@).len() <= IDX_MAX,
        side_keys(build@).len() <= IDX_MAX,
        tables_hold(tables@, build@, nulls_equal),
    ensures
        concat(buffers@) == inner_rows(
            side_keys(probe@),
            side_keys(build@),
            nulls_equal,
            swapped,
            0,
            side_keys(probe@).len() as int,
        ),
{
    let offsets = part_offsets(probe);
    let probe_part = |p: usize| -> (out: Vec<(IdxSize, IdxSize)>)
        requires
            p < probe@.len(),
        ensures
            out@ == inner_rows(
                side_keys(probe@),
                side_keys(build@),
                nulls_equal,
                swapped,
                offset_of(probe@, p as int),
                offset_of(probe@, p + 1),
            ),
        { probe_inner(probe, p, offsets[p], tables, build, nulls_equal, swapped) };
    let buffers = par_map(probe.len(), probe_part);
    proof {
        lemma_inner_parts(
            buffers@,
            probe@,
            side_keys(build@),
            nulls_equal,
            swapped,
            probe@.len() as int,
        );
        if probe@.len() > 0 {
            lemma_side_keys(probe@, 0);
        }
    }
    buffers
}

/// The inner join of a probe side with a build side.
///
/// The result is a pair of index arrays, the rows of the left side and the
/// rows of the right side: position `i` of the one and position `i` of the
/// other are one tuple. The tuples come in the order of the probe rows, and
/// for one probe row in the order of the build rows. The build side is the
/// right one unless `swapped` is set.
pub fn hash_join_tuples_inner<K: JoinKey>(
    probe: &Vec<&[K]>,
    build: &Vec<&[K]>,
    swapped: bool,
    validate: JoinValidation,
    nulls_equal: bool,
) -> (r: Result<(Vec<IdxSize>, Vec<IdxSize>), JoinError>)
    ensures
        match r {
            Ok(ids) => {
                &&& inner_error(
                    side_keys(probe@),
                    side_keys(build@),
                    swapped,
                    validate,
                    nulls_equal,
                ) is None
                &&& ids.0@ == firsts(
                    inner_tuples(side_keys(probe@), side_keys(build@), swapped, nulls_equal),
                )
                &&& ids.1@ == seconds(
                    inner_tuples(side_keys(probe@), side_keys(build@), swapped, nulls_equal),
                )
            },
            Err(e) => inner_error(
                side_keys(probe@),
                side_keys(build@),
                swapped,
                validate,
                nulls_equal,
            ) == Some(e),
        },
{
    match check_sides(probe, build, swapped, validate, nulls_equal) {
        Err(e) => {
            return Err(e);
        },
        Ok(_) => {},
    }
    let tables = build_tables(build, nulls_equal);
    let buffers = probe_all_inner(probe, &tables, build, nulls_equal, swapped);
    match flatten(&buffers) {
        Some(tuples) => Ok(unzip(&tuples)),
        None => Err(JoinError::IndexOverflow),
    }
}

} // verus!
