//! The outer join: every row of both sides, with each row of the other side
//! that corresponds to it, or with none.
use vstd::prelude::*;
use crate::error::JoinError;
use crate::index::NullableIdxSize;
use crate::join::assemble::{flatten, lemma_concat_push, unzip};
use crate::join::model::{
    concat_upto, firsts, is_matched, lemma_matching_rows, lemma_matching_rows_split,
    lemma_outer_probe_rows_split, lemma_side_keys, offset_of, outer_build_rows, outer_error,
    outer_probe_rows, outer_rows, outer_tuple, outer_tuples, seconds, side_keys,
};
use crate::join::table::{build_tables, HashTable, part_offsets, probe_key, tables_hold};
use crate::join::validate::{check_sides, JoinValidation, side_len};
use crate::keys::JoinKey;
use crate::pool::par_map;
use crate::{IdxSize, IDX_MAX};

verus! {

/// Whether `marker` tells, for every build row, whether some probe row in
/// `lo..hi` corresponds to it.
pub open spec fn marks<C>(
    marker: Seq<bool>,
    probe: Seq<Option<C>>,
    build: Seq<Option<C>>,
    nulls_equal: bool,
    lo: int,
    hi: int,
) -> bool {
    &&& marker.len() == build.len()
    &&& forall|j: int|
        0 <= j < build.len() ==> #[trigger] marker[j] == is_matched(
            probe,
            build[j],
            nulls_equal,
            lo,
            hi,
        )
}

/// Probes the tables with the keys of partition `p` of the probe side, whose
/// first row is row `offset` of that side. Returns the tuples of these rows,
/// and a marker of the build rows that they correspond to.
pub fn probe_outer<K: JoinKey>(
    probe: &Vec<&[K]>,
    p: usize,
    offset: usize,
    tables: &Vec<HashTable>,
    build: &Vec<&[K]>,
    build_len: usize,
    nulls_equal: bool,
    swapped: bool,
) -> (out: (Vec<(NullableIdxSize, NullableIdxSize)>, Vec<bool>))
    requires
        p < probe@.len(),
        offset == offset_of(probe@, p as int),
        side_keys(probe@).len() <= IDX_MAX,
        build_len == side_keys(build@).len() <= IDX_MAX,
        tables_hold(tables@, build@, nulls_equal),
    ensures
        out.0@ == outer_probe_rows(
            side_keys(probe@),
            side_keys(build@),
            nulls_equal,
            swapped,
            offset_of(probe@, p as int),
            offset_of(probe@, p + 1),
        ),
        marks(
            out.1@,
            side_keys(probe@),
            side_keys(build@),
            nulls_equal,
            offset_of(probe@, p as int),
            offset_of(probe@, p + 1),
        ),
{
    let part: &[K] = probe[p];
    let ghost keys = side_keys(probe@);
    let ghost others = side_keys(build@);
    proof {
        lemma_side_keys(probe@, p as int);
    }
    let mut out: Vec<(NullableIdxSize, NullableIdxSize)> = Vec::new();
    let mut marker: Vec<bool> = vec![false; build_len];
    let mut matches: Vec<IdxSize> = Vec::new();
    let mut i: usize = 0;
    while i < part.len()
        invariant
            i <= part@.len(),
            p < probe@.len(),
            part@ == probe@[p as int]@,
            keys == side_keys(probe@),
            others == side_keys(build@),
            build_len == others.len() <= IDX_MAX,
            offset + part@.len() <= keys.len() <= IDX_MAX,
            forall|j: int| 0 <= j < part@.len() ==> #[trigger] keys[offset + j] == part@[j].canon(),
            tables_hold(tables@, build@, nulls_equal),
            out@ == outer_probe_rows(keys, others, nulls_equal, swapped, offset as int, offset + i),
            marks(marker@, keys, others, nulls_equal, offset as int, offset + i),
        decreases part.len() - i,
    {
        let key = &part[i];
        assert(keys[offset + i] == part@[i as int].canon());
        probe_key(tables, build, key, nulls_equal, &mut matches);
        proof {
            lemma_matching_rows(others, key.canon(), nulls_equal, 0, others.len() as int);
        }
        let row = (offset + i) as IdxSize;
        let ghost before = out@;
        let ghost marked = marker@;
        if matches.len() == 0 {
            if swapped {
                out.push((None, Some(row)));
            } else {
                out.push((Some(row), None));
            }
            assert(out@ =~= before + outer_tuples(row, matches@, swapped));
        } else {
            let mut t: usize = 0;
            while t < matches.len()
                invariant
                    t <= matches@.len(),
                    marker@.len() == marked.len() == build_len <= IDX_MAX,
                    forall|s: int| 0 <= s < matches@.len() ==> (#[trigger] matches@[s]) < build_len,
                    out@ == before + Seq::new(
                        t as nat,
                        |s: int| outer_tuple(Some(row), Some(matches@[s]), swapped),
                    ),
                    forall|j: int|
                        0 <= j < build_len ==> #[trigger] marker@[j] == (marked[j]
                            || matches@.take(t as int).contains(j as IdxSize)),
                decreases matches.len() - t,
            {
                let other = matches[t];
                if swapped {
                    out.push((Some(other), Some(row)));
                } else {
                    out.push((Some(row), Some(other)));
                }
                marker.set(other as usize, true);
                proof {
                    let seen = matches@.take(t as int);
                    let more = matches@.take(t + 1);
                    assert(more[t as int] == other);
                    assert forall|j: int| 0 <= j < build_len implies #[trigger] marker@[j] == (
                    marked[j] || more.contains(j as IdxSize)) by {
                        if seen.contains(j as IdxSize) {
                            let s = choose|s: int| 0 <= s < seen.len() && seen[s] == j as IdxSize;
                            assert(more[s] == j as IdxSize);
                        }
                        if more.contains(j as IdxSize) && j != other {
                            let s = choose|s: int| 0 <= s < more.len() && more[s] == j as IdxSize;
                            assert(seen[s] == j as IdxSize);
                        }
                    }
                }
                t += 1;
                assert(out@ =~= before + Seq::new(
                    t as nat,
                    |s: int| outer_tuple(Some(row), Some(matches@[s]), swapped),
                ));
            }
            assert(matches@.take(t as int) =~= matches@);
            assert(out@ =~= before + outer_tuples(row, matches@, swapped));
        }
        proof {
            assert forall|j: int| 0 <= j < build_len implies #[trigger] marker@[j] == is_matched(
                keys,
                others[j],
                nulls_equal,
                offset as int,
                offset + i + 1,
            ) by {
                if matches@.contains(j as IdxSize) {
                    let s = choose|s: int| 0 <= s < matches@.len() && matches@[s] == j as IdxSize;
                    assert(matches@[s] == j);
                }
            }
        }
        i += 1;
    }
    (out, marker)
}

/// The tuples of the unmarked rows among the first `n`: one without a
/// probe row for each, in ascending order.
pub open spec fn unmarked_rows(marker: Seq<bool>, swapped: bool, n: int) -> Seq<
    (NullableIdxSize, NullableIdxSize),
>
    decreases n,
{
    if n <= 0 {
        Seq::empty()
    } else {
        let rest = unmarked_rows(marker, swapped, n - 1);
        if marker[n - 1] {
            rest
        } else {
            rest.push(outer_tuple(None, Some((n - 1) as IdxSize), swapped))
        }
    }
}

/// Under a marker of the build rows that some probe row corresponds to,
/// the unmarked rows are the build rows that an outer join has left over.
pub proof fn lemma_unmarked_rows<C>(
    marker: Seq<bool>,
    probe: Seq<Option<C>>,
    build: Seq<Option<C>>,
    nulls_equal: bool,
    swapped: bool,
    n: int,
)
    requires
        0 <= n <= build.len(),
        marks(marker, probe, build, nulls_equal, 0, probe.len() as int),
    ensures
        unmarked_rows(marker, swapped, n) == outer_build_rows(
            probe,
            build,
            nulls_equal,
            swapped,
            n,
        ),
    decreases n,
{
    if n > 0 {
        lemma_unmarked_rows(marker, probe, build, nulls_equal, swapped, n - 1);
    }
}

/// The tuples of the build rows that `marker` does not mark.
pub fn unmatched_build_rows(marker: &Vec<bool>, swapped: bool) -> (out: Vec<
    (NullableIdxSize, NullableIdxSize),
>)
    requires
        marker@.len() <= IDX_MAX,
    ensures
        out@ == unmarked_rows(marker@, swapped, marker@.len() as int),
{
    let mut out: Vec<(NullableIdxSize, NullableIdxSize)> = Vec::new();
    let mut j: usize = 0;
    while j < marker.len()
        invariant
            j <= marker@.len() <= IDX_MAX,
            out@ == unmarked_rows(marker@, swapped, j as int),
        decreases marker.len() - j,
    {
        if !marker[j] {
            if swapped {
                out.push((Some(j as IdxSize), None));
            } else {
                out.push((None, Some(j as IdxSize)));
            }
        }
        j += 1;
    }
    out
}

/// Whether one of the first `n` markers marks row `j`.
pub open spec fn marked_by<T>(results: Seq<(Vec<T>, Vec<bool>)>, n: int, j: int) -> bool
    decreases n,
{
    n > 0 && (marked_by(results, n - 1, j) || results[n - 1].1@[j])
}

/// The markers of the partitions, merged: a row is marked where the marker
/// of some partition marks it. Every marker has `len` entries.
pub fn merge_markers<T>(results: &Vec<(Vec<T>, Vec<bool>)>, len: usize) -> (merged: Vec<bool>)
    requires
        forall|p: int| 0 <= p < results@.len() ==> (#[trigger] results@[p]).1@.len() == len,
    ensures
        merged@.len() == len,
        forall|j: int|
            0 <= j < len ==> #[trigger] merged@[j] == marked_by(
                results@,
                results@.len() as int,
                j,
            ),
{
    let mut merged: Vec<bool> = vec![false; len];
    let mut p: usize = 0;
    while p < results.len()
        invariant
            p <= results@.len(),
            forall|q: int| 0 <= q < results@.len() ==> (#[trigger] results@[q]).1@.len() == len,
            merged@.len() == len,
            forall|j: int| 0 <= j < len ==> #[trigger] merged@[j] == marked_by(results@,
                p as int, j),
        decreases results.len() - p,
    {
        let local = &results[p].1;
        let ghost before = merged@;
        let mut j: usize = 0;
        while j < len
            invariant
                j <= len,
                merged@.len() == len == local@.len() == before.len(),
                forall|k: int| 0 <= k < j ==> #[trigger] merged@[k] == (before[k] || local@[k]),
                forall|k: int| j <= k < len ==> #[trigger] merged@[k] == before[k],
            decreases len - j,
        {
            if local[j] {
                merged.set(j, true);
            }
            j += 1;
        }
        p += 1;
    }
    merged
}

/// What the partitions marked together is what the probe side corresponds to.
pub proof fn lemma_merged_marks<K: JoinKey>(
    results: Seq<(Vec<(NullableIdxSize, NullableIdxSize)>, Vec<bool>)>,
    probe: Seq<&[K]>,
    build: Seq<Option<K::Canon>>,
    nulls_equal: bool,
    n: int,
    j: int,
)
    requires
        0 <= n <= probe.len() == results.len(),
        0 <= j < build.len(),
        forall|p: int|
            0 <= p < n ==> marks(
                (#[trigger] results[p]).1@,
                side_keys(probe),
                build,
                nulls_equal,
                offset_of(probe, p),
                offset_of(probe, p + 1),
            ),
    ensures
        marked_by(results, n, j) == is_matched(
            side_keys(probe),
            build[j],
            nulls_equal,
            0,
            offset_of(probe, n),
        ),
    decreases n,
{
    if n > 0 {
        lemma_merged_marks(results, probe, build, nulls_equal, n - 1, j);
        lemma_side_keys(probe, n - 1);
        lemma_matching_rows_split(
            side_keys(probe),
            build[j],
            nulls_equal,
            0,
            offset_of(probe, n - 1),
            offset_of(probe, n),
        );
        assert(results[n - 1].1@[j] == is_matched(
            side_keys(probe),
            build[j],
            nulls_equal,
            offset_of(probe, n - 1),
            offset_of(probe, n),
        ));
    }
}

/// The tuples of the partitions, one partition after the other, are the
/// tuples of the probe side.
pub proof fn lemma_outer_parts<K: JoinKey>(
    buffers: Seq<Vec<(NullableIdxSize, NullableIdxSize)>>,
    probe: Seq<&[K]>,
    build: Seq<Option<K::Canon>>,
    nulls_equal: bool,
    swapped: bool,
    n: int,
)
    requires
        0 <= n <= probe.len(),
        n <= buffers.len(),
        forall|p: int|
            0 <= p < n ==> (#[trigger] buffers[p])@ == outer_probe_rows(
                side_keys(probe),
                build,
                nulls_equal,
                swapped,
                offset_of(probe, p),
                offset_of(probe, p + 1),
            ),
    ensures
        concat_upto(buffers, n) == outer_probe_rows(
            side_keys(probe),
            build,
            nulls_equal,
            swapped,
            0,
            offset_of(probe, n),
        ),
    decreases n,
{
    if n > 0 {
        lemma_outer_parts(buffers, probe, build, nulls_equal, swapped, n - 1);
        lemma_side_keys(probe, n - 1);
        lemma_outer_probe_rows_split(
            side_keys(probe),
            build,
            nulls_equal,
            swapped,
            0,
            offset_of(probe, n - 1),
            offset_of(probe, n),
        );
    }
}

/// The buffers of tuples of the partitions, without their markers.
pub fn take_buffers<T>(results: Vec<(Vec<T>, Vec<bool>)>) -> (buffers: Vec<Vec<T>>)
    ensures
        buffers@.len() == results@.len(),
        forall|p: int| 0 <= p < buffers@.len() ==> (#[trigger] buffers@[p])@ == results@[p].0@,
{
    let ghost all = results@;
    let mut results = results;
    let mut reversed: Vec<Vec<T>> = Vec::with_capacity(results.len());
    while results.len() > 0
        invariant
            results@.len() + reversed@.len() == all.len(),
            forall|p: int| 0 <= p < results@.len() ==> results@[p] == all[p],
            forall|p: int|
                0 <= p < reversed@.len() ==> (#[trigger] reversed@[p])@ == all[all.len() - 1
                    - p].0@,
        decreases results@.len(),
    {
        let (buffer, _) = results.pop().unwrap();
        reversed.push(buffer);
    }
    let ghost turned = reversed@;
    let mut buffers: Vec<Vec<T>> = Vec::with_capacity(reversed.len());
    while reversed.len() > 0
        invariant
            turned.len() == all.len(),
            reversed@.len() + buffers@.len() == all.len(),
            forall|p: int| 0 <= p < reversed@.len() ==> reversed@[p] == turned[p],
            forall|p: int| 0 <= p < turned.len() ==> (#[trigger] turned[p])@ == all[all.len() - 1
                - p].0@,
            forall|p: int| 0 <= p < buffers@.len() ==> (#[trigger] buffers@[p])@ == all[p].0@,
        decreases reversed@.len(),
    {
        let ghost last = reversed@.len() - 1;
        let buffer = reversed.pop().unwrap();
        assert(buffer@ == turned[last]@);
        buffers.push(buffer);
    }
    buffers
}

/// The outer join of a probe side with a build side.
///
/// The result is a pair of index arrays, the rows of the left side and the
/// rows of the right side: position `i` of the one and position `i` of the
/// other are one tuple, in which one of the two rows may be absent. First
/// come the tuples of the probe rows, in their order and for one probe row in
/// the order of the build rows; then the build rows that no probe row
/// corresponds to, in their order. The build side is the right one unless
/// `swapped` is set.
///
/// The partitions of the probe side are probed each on a worker of the
/// pool. Each marks the build rows that it found, in a marker of its own;
/// the markers are merged when all are done.
pub fn hash_join_tuples_outer<K: JoinKey>(
    probe: &Vec<&[K]>,
    build: &Vec<&[K]>,
    swapped: bool,
    validate: JoinValidation,
    nulls_equal: bool,
) -> (r: Result<(Vec<NullableIdxSize>, Vec<NullableIdxSize>), JoinError>)
    ensures
        match r {
            Ok(ids) => {
                &&& outer_error(
                    side_keys(probe@),
                    side_keys(build@),
                    swapped,
                    validate,
                    nulls_equal,
                ) is None
                &&& ids.0@ == firsts(
                    outer_rows(side_keys(probe@), side_keys(build@), nulls_equal, swapped),
                )
                &&& ids.1@ == seconds(
                    outer_rows(side_keys(probe@), side_keys(build@), nulls_equal, swapped),
                )
            },
            Err(e) => outer_error(
                side_keys(probe@),
                side_keys(build@),
                swapped,
                validate,
                nulls_equal,
            ) == Some(e),
        },
{
    match check_sides(probe, build, swapped, validate, nulls_equal) {
        Err(e) => {
            return Err(e);
        },
        Ok(_) => {},
    }
    let build_len = match side_len(build) {
        Some(n) => n,
        None => {
            return Err(JoinError::IndexOverflow);
        },
    };
    let ghost keys = side_keys(probe@);
    let ghost others = side_keys(build@);
    let tables = build_tables(build, nulls_equal);
    let offsets = part_offsets(probe);
    let probe_part = |p: usize| -> (out: (Vec<(NullableIdxSize, NullableIdxSize)>, Vec<bool>))
        requires
            p < probe@.len(),
        ensures
            out.0@ == outer_probe_rows(
                side_keys(probe@),
                side_keys(build@),
                nulls_equal,
                swapped,
                offset_of(probe@, p as int),
                offset_of(probe@, p + 1),
            ),
            marks(
                out.1@,
                side_keys(probe@),
                side_keys(build@),
                nulls_equal,
                offset_of(probe@, p as int),
                offset_of(probe@, p + 1),
            ),
        { probe_outer(probe, p, offsets[p], &tables, build, build_len, nulls_equal, swapped) };
    let results = par_map(probe.len(), probe_part);
    let marker = merge_markers(&results, build_len);
    proof {
        if probe@.len() > 0 {
            lemma_side_keys(probe@, 0);
        }
        assert forall|j: int| 0 <= j < others.len() implies #[trigger] marker@[j] == is_matched(
            keys,
            others[j],
            nulls_equal,
            0,
            keys.len() as int,
        ) by {
            lemma_merged_marks(results@, probe@, others, nulls_equal, probe@.len() as int, j);
        }
    }
    let rest = unmatched_build_rows(&marker, swapped);
    let mut buffers = take_buffers(results);
    proof {
        lemma_outer_parts(buffers@, probe@, others, nulls_equal, swapped, probe@.len() as int);
        lemma_unmarked_rows(marker@, keys, others, nulls_equal, swapped, others.len() as int);
    }
    let ghost before = buffers@;
    buffers.push(rest);
    proof {
        lemma_concat_push(before, rest);
    }
    match flatten(&buffers) {
        Some(tuples) => Ok(unzip(&tuples)),
        None => Err(JoinError::IndexOverflow),
    }
}

} // verus!
