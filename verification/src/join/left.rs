//! The left join: every row of the left side, with each right row that
//! corresponds to it, or with none.
use vstd::prelude::*;
use crate::error::JoinError;
use crate::index::{ChunkId, ChunkJoinIds, ChunkJoinOptIds, LeftJoinIds, NullableIdxSize};
use crate::join::assemble::{flatten, unzip};
use crate::join::model::{
    concat, concat_upto, firsts, left_error, left_join_tuples, left_rows, left_tuples,
    lemma_left_rows_split, lemma_matching_rows, lemma_side_keys, offset_of, seconds, side_keys,
};
use crate::join::table::{build_tables, HashTable, part_offsets, probe_key, tables_hold};
use crate::join::validate::{check_sides, JoinValidation};
use crate::keys::JoinKey;
use crate::pool::par_map;
use crate::{IdxSize, IDX_MAX};

verus! {

/// The rows of a left join lie within their sides.
pub proof fn lemma_left_rows_bounds<C>(
    left: Seq<Option<C>>,
    right: Seq<Option<C>>,
    nulls_equal: bool,
    lo: int,
    hi: int,
)
    requires
        0 <= lo <= hi <= left.len() <= IDX_MAX,
        right.len() <= IDX_MAX,
    ensures
        forall|t: int|
            0 <= t < left_rows(left, right, nulls_equal, lo, hi).len() ==> {
                let tuple = #[trigger] left_rows(left, right, nulls_equal, lo, hi)[t];
                &&& lo <= tuple.0 < hi
                &&& tuple.1 matches Some(r) ==> r < right.len()
            },
    decreases hi - lo,
{
    if hi > lo {
        lemma_left_rows_bounds(left, right, nulls_equal, lo, hi - 1);
        lemma_matching_rows(right, left[hi - 1], nulls_equal, 0, right.len() as int);
    }
}

/// Probes the tables with the keys of partition `p` of the left side, whose
/// first row is row `offset` of that side, and returns the tuples of these
/// rows.
pub fn probe_left<K: JoinKey>(
    probe: &Vec<&[K]>,
    p: usize,
    offset: usize,
    tables: &Vec<HashTable>,
    build: &Vec<&[K]>,
    nulls_equal: bool,
) -> (out: Vec<(IdxSize, NullableIdxSize)>)
    requires
        p < probe@.len(),
        offset == offset_of(probe@, p as int),
        side_keys(probe@).len() <= IDX_MAX,
        side_keys(build@).len() <= IDX_MAX,
        tables_hold(tables@, build@, nulls_equal),
    ensures
        out@ == left_rows(
            side_keys(probe@),
            side_keys(build@),
            nulls_equal,
            offset_of(probe@, p as int),
            offset_of(probe@, p + 1),
        ),
{
    let part: &[K] = probe[p];
    let ghost keys = side_keys(probe@);
    let ghost others = side_keys(build@);
    proof {
        lemma_side_keys(probe@, p as int);
    }
    let mut out: Vec<(IdxSize, NullableIdxSize)> = Vec::new();
    let mut matches: Vec<IdxSize> = Vec::new();
    let mut i: usize = 0;
    while i < part.len()
        invariant
            i <= part@.len(),
            part@ == probe@[p as int]@,
            keys == side_keys(probe@),
            others == side_keys(build@),
            others.len() <= IDX_MAX,
            offset + part@.len() <= keys.len() <= IDX_MAX,
            forall|j: int| 0 <= j < part@.len() ==> #[trigger] keys[offset + j] == part@[j].canon(),
            tables_hold(tables@, build@, nulls_equal),
            out@ == left_rows(keys, others, nulls_equal, offset as int, offset + i),
        decreases part.len() - i,
    {
        let key = &part[i];
        assert(keys[offset + i] == part@[i as int].canon());
        probe_key(tables, build, key, nulls_equal, &mut matches);
        let row = (offset + i) as IdxSize;
        let ghost before = out@;
        if matches.len() == 0 {
            out.push((row, None));
            assert(out@ =~= before + left_tuples(row, matches@));
        } else {
            let mut t: usize = 0;
            while t < matches.len()
                invariant
                    t <= matches@.len(),
                    out@ == before + Seq::new(t as nat, |s: int| (row, Some(matches@[s]))),
                decreases matches.len() - t,
            {
                out.push((row, Some(matches[t])));
                t += 1;
                assert(out@ =~= before + Seq::new(t as nat, |s: int| (row, Some(matches@[s]))));
            }
            assert(out@ =~= before + left_tuples(row, matches@));
        }
        i += 1;
    }
    out
}

/// The tuples of the partitions, one partition after the other, are the
/// tuples of the side.
pub proof fn lemma_left_parts<K: JoinKey>(
    buffers: Seq<Vec<(IdxSize, NullableIdxSize)>>,
    probe: Seq<&[K]>,
    build: Seq<Option<K::Canon>>,
    nulls_equal: bool,
    n: int,
)
    requires
        0 <= n <= probe.len() == buffers.len(),
        forall|p: int|
            0 <= p < n ==> (#[trigger] buffers[p])@ == left_rows(
                side_keys(probe),
                build,
                nulls_equal,
                offset_of(probe, p),
                offset_of(probe, p + 1),
            ),
    ensures
        concat_upto(buffers, n) == left_rows(
            side_keys(probe),
            build,
            nulls_equal,
            0,
            offset_of(probe, n),
        ),
    decreases n,
{
    if n > 0 {
        lemma_left_parts(buffers, probe, build, nulls_equal, n - 1);
        lemma_side_keys(probe, n - 1);
        lemma_left_rows_split(
            side_keys(probe),
            build,
            nulls_equal,
            0,
            offset_of(probe, n - 1),
            offset_of(probe, n),
        );
    }
}

/// Probes the tables with every partition of the left side, each on a
/// worker of the pool.
pub fn probe_all_left<K: JoinKey>(
    probe: &Vec<&[K]>,
    tables: &Vec<HashTable>,
    build: &Vec<&[K]>,
    nulls_equal: bool,
) -> (buffers: Vec<Vec<(IdxSize, NullableIdxSize)>>)
    requires
        side_keys(probe@).len() <= IDX_MAX,
        side_keys(build@).len() <= IDX_MAX,
        tables_hold(tables@, build@, nulls_equal),
    ensures
        concat(buffers@) == left_rows(
            side_keys(probe@),
            side_keys(build@),
            nulls_equal,
            0,
            side_keys(probe@).len() as int,
        ),
{
    let offsets = part_offsets(probe);
    let probe_part = |p: usize| -> (out: Vec<(IdxSize, NullableIdxSize)>)
        requires
            p < probe@.len(),
        ensures
            out@ == left_rows(
                side_keys(probe@),
                side_keys(build@),
                nulls_equal,
                offset_of(probe@, p as int),
                offset_of(probe@, p + 1),
            ),
        { probe_left(probe, p, offsets[p], tables, build, nulls_equal) };
    let buffers = par_map(probe.len(), probe_part);
    proof {
        lemma_left_parts(buffers@, probe@, side_keys(build@), nulls_equal, probe@.len() as int);
        if probe@.len() > 0 {
            lemma_side_keys(probe@, 0);
        }
    }
    buffers
}

/// The rows of a left join as places in the chunks of their columns,
/// where a mapping from rows to places is given.
pub open spec fn mapped_ids(ids: Seq<IdxSize>, mapping: Seq<ChunkId>) -> Seq<ChunkId> {
    Seq::new(ids.len(), |i: int| mapping[ids[i] as int])
}

/// The optional rows of a left join as places in the chunks of their column.
pub open spec fn mapped_opt_ids(ids: Seq<NullableIdxSize>, mapping: Seq<ChunkId>) -> Seq<
    Option<ChunkId>,
> {
    Seq::new(
        ids.len(),
        |i: int|
            match ids[i] {
                Some(r) => Some(mapping[r as int]),
                None => None,
            },
    )
}

/// Whether `ids` are the given rows: the rows themselves where there is no
/// mapping, their places where there is one.
pub open spec fn ids_are(
    ids: ChunkJoinIds,
    rows: Seq<IdxSize>,
    mapping: Option<Seq<ChunkId>>,
) -> bool {
    match (ids, mapping) {
        (ChunkJoinIds::Left(v), None) => v@ == rows,
        (ChunkJoinIds::Right(v), Some(m)) => v@ == mapped_ids(rows, m),
        _ => false,
    }
}

/// Whether `ids` are the given optional rows: the rows themselves where
/// there is no mapping, their places where there is one.
pub open spec fn opt_ids_are(
    ids: ChunkJoinOptIds,
    rows: Seq<NullableIdxSize>,
    mapping: Option<Seq<ChunkId>>,
) -> bool {
    match (ids, mapping) {
        (ChunkJoinOptIds::Left(v), None) => v@ == rows,
        (ChunkJoinOptIds::Right(v), Some(m)) => v@ == mapped_opt_ids(rows, m),
        _ => false,
    }
}

/// The view of an optional mapping.
pub open spec fn mapping_view(mapping: Option<&[ChunkId]>) -> Option<Seq<ChunkId>> {
    match mapping {
        Some(m) => Some(m@),
        None => None,
    }
}

/// Turns the rows of the result of a left join into places, for each side
/// that comes with a mapping from rows to places.
pub fn finish_left_join_mappings(
    result_idx_left: Vec<IdxSize>,
    result_idx_right: Vec<NullableIdxSize>,
    chunk_mapping_left: Option<&[ChunkId]>,
    chunk_mapping_right: Option<&[ChunkId]>,
) -> (ids: LeftJoinIds)
    requires
        chunk_mapping_left matches Some(m) ==> forall|i: int|
            0 <= i < result_idx_left@.len() ==> (#[trigger] result_idx_left@[i]) < m@.len(),
        chunk_mapping_right matches Some(m) ==> forall|i: int|
            0 <= i < result_idx_right@.len() ==> ((#[trigger] result_idx_right@[i]) matches Some(
                r,
            ) ==> r < m@.len()),
    ensures
        ids_are(ids.0, result_idx_left@, mapping_view(chunk_mapping_left)),
        opt_ids_are(ids.1, result_idx_right@, mapping_view(chunk_mapping_right)),
{
    let left = match chunk_mapping_left {
        None => ChunkJoinIds::Left(result_idx_left),
        Some(mapping) => {
            let mut mapped: Vec<ChunkId> = Vec::with_capacity(result_idx_left.len());
            let mut i: usize = 0;
            while i < result_idx_left.len()
                invariant
                    i <= result_idx_left@.len(),
                    forall|j: int|
                        0 <= j < result_idx_left@.len() ==> (#[trigger] result_idx_left@[j])
                            < mapping@.len(),
                    mapped@ == mapped_ids(result_idx_left@.take(i as int), mapping@),
                decreases result_idx_left.len() - i,
            {
                mapped.push(mapping[result_idx_left[i] as usize]);
                i += 1;
                assert(mapped@ =~= mapped_ids(result_idx_left@.take(i as int), mapping@));
            }
            assert(result_idx_left@.take(i as int) =~= result_idx_left@);
            ChunkJoinIds::Right(mapped)
        },
    };
    let right = match chunk_mapping_right {
        None => ChunkJoinOptIds::Left(result_idx_right),
        Some(mapping) => {
            let mut mapped: Vec<Option<ChunkId>> = Vec::with_capacity(result_idx_right.len());
            let mut i: usize = 0;
            while i < result_idx_right.len()
                invariant
                    i <= result_idx_right@.len(),
                    forall|j: int|
                        0 <= j < result_idx_right@.len() ==> ((
                        #[trigger] result_idx_right@[j]) matches Some(r) ==> r < mapping@.len()),
                    mapped@ == mapped_opt_ids(result_idx_right@.take(i as int), mapping@),
                decreases result_idx_right.len() - i,
            {
                let place = match result_idx_right[i] {
                    Some(r) => Some(mapping[r as usize]),
                    None => None,
                };
                mapped.push(place);
                i += 1;
                assert(mapped@ =~= mapped_opt_ids(result_idx_right@.take(i as int), mapping@));
            }
            assert(result_idx_right@.take(i as int) =~= result_idx_right@);
            ChunkJoinOptIds::Right(mapped)
        },
    };
    (left, right)
}

/// The left join of a left side, which probes, with a right side, of which
/// the tables are built.
///
/// The tuples come in the order of the left rows, and for one left row in
/// the order of the right rows. Where a side comes with a mapping from rows
/// to places in its chunks, the result holds places for that side. A
/// mapping has a place for every row of its side.
pub fn hash_join_tuples_left<K: JoinKey>(
    probe: &Vec<&[K]>,
    build: &Vec<&[K]>,
    chunk_mapping_left: Option<&[ChunkId]>,
    chunk_mapping_right: Option<&[ChunkId]>,
    validate: JoinValidation,
    nulls_equal: bool,
) -> (r: Result<LeftJoinIds, JoinError>)
    requires
        chunk_mapping_left matches Some(m) ==> m@.len() >= side_keys(probe@).len(),
        chunk_mapping_right matches Some(m) ==> m@.len() >= side_keys(build@).len(),
    ensures
        match r {
            Ok(ids) => {
                &&& left_error(side_keys(probe@), side_keys(build@), validate, nulls_equal) is None
                &&& ids_are(
                    ids.0,
                    firsts(left_join_tuples(side_keys(probe@), side_keys(build@), nulls_equal)),
                    mapping_view(chunk_mapping_left),
                )
                &&& opt_ids_are(
                    ids.1,
                    seconds(left_join_tuples(side_keys(probe@), side_keys(build@), nulls_equal)),
                    mapping_view(chunk_mapping_right),
                )
            },
            Err(e) => left_error(side_keys(probe@), side_keys(build@), validate, nulls_equal)
                == Some(e),
        },
{
    match check_sides(probe, build, false, validate, nulls_equal) {
        Err(e) => {
            return Err(e);
        },
        Ok(_) => {},
    }
    let tables = build_tables(build, nulls_equal);
    let buffers = probe_all_left(probe, &tables, build, nulls_equal);
    match flatten(&buffers) {
        Some(tuples) => {
            let (left, right) = unzip(&tuples);
            proof {
                lemma_left_rows_bounds(
                    side_keys(probe@),
                    side_keys(build@),
                    nulls_equal,
                    0,
                    side_keys(probe@).len() as int,
                );
                assert forall|i: int| 0 <= i < left@.len() implies (
                    #[trigger] left@[i]) < side_keys(
                    probe@,
                ).len() by {
                    assert(left@[i] == tuples@[i].0);
                }
                assert forall|i: int| 0 <= i < right@.len() implies ((
                #[trigger] right@[i]) matches Some(r) ==> r < side_keys(build@).len()) by {
                    assert(right@[i] == tuples@[i].1);
                }
            }
            Ok(finish_left_join_mappings(left, right, chunk_mapping_left, chunk_mapping_right))
        },
        None => Err(JoinError::IndexOverflow),
    }
}

} // verus!
