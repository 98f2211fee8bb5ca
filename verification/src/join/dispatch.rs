//! The join of two key columns: the choice of the key representation by
//! the types of the columns, of the build side, and of the partitions.
use vstd::prelude::*;
use crate::array::{Array, Scalar};
use crate::array::primitive::PrimitiveArray;
use crate::chunked::{BinaryChunked, ChunkedArray, PrimitiveChunked};
use crate::datatypes::BitWidth;
use crate::error::JoinError;
use crate::index::{ChunkId, InnerJoinIds, LeftJoinIds, NullableIdxSize};
use crate::join::inner::hash_join_tuples_inner;
use crate::join::left::{hash_join_tuples_left, ids_are, opt_ids_are};
use crate::join::model::{
    firsts, inner_join, inner_join_error, left_error, left_join, outer_join, outer_join_error,
    seconds, semi_anti_error, semi_anti_rows, side_keys, swaps,
};
use crate::join::outer::hash_join_tuples_outer;
use crate::join::semi_anti::hash_join_tuples_semi_anti;
use crate::join::validate::JoinValidation;
use crate::keys::BytesHash;
use crate::normalize::{
    chunk_refs, chunks_as_slices, contiguous_slices, get_arrays, key_slices,
    lemma_normalized_valid, lemma_scalar_join, normalized, optional_keys, owned_keys,
    scalar_keys, split, split_slices, to_bytes_hashes, NativeType,
};
use crate::partition::{_set_partition_size, mapping_for, spec_mapping};
use crate::pool::{current_num_threads, par_join};
use crate::series::{Column, DataType, KeyRepr, Series};
use crate::{IdxSize, IDX_MAX};

verus! {

/// Whether `r` is what the inner join of the two sides comes to: its error,
/// or the rows of its tuples, and whether the left rows come in ascending
/// order, which they do where the left side probes.
pub open spec fn inner_join_ok<C>(
    r: Result<(InnerJoinIds, bool), JoinError>,
    left: Seq<Option<C>>,
    right: Seq<Option<C>>,
    validate: JoinValidation,
    nulls_equal: bool,
) -> bool {
    match r {
        Ok((ids, sorted)) => {
            &&& inner_join_error(left, right, validate, nulls_equal) is None
            &&& ids.0@ == firsts(inner_join(left, right, nulls_equal))
            &&& ids.1@ == seconds(inner_join(left, right, nulls_equal))
            &&& sorted == !swaps(left, right)
        },
        Err(e) => inner_join_error(left, right, validate, nulls_equal) == Some(e),
    }
}

/// Whether `r` is what the left join of the two sides comes to: its error,
/// or the rows of its tuples, as places where a side has a mapping.
pub open spec fn left_join_ok<C>(
    r: Result<LeftJoinIds, JoinError>,
    left: Seq<Option<C>>,
    right: Seq<Option<C>>,
    mapping_left: Option<Seq<ChunkId>>,
    mapping_right: Option<Seq<ChunkId>>,
    validate: JoinValidation,
    nulls_equal: bool,
) -> bool {
    match r {
        Ok(ids) => {
            &&& left_error(left, right, validate, nulls_equal) is None
            &&& ids_are(ids.0, firsts(left_join(left, right, nulls_equal)), mapping_left)
            &&& opt_ids_are(ids.1, seconds(left_join(left, right, nulls_equal)), mapping_right)
        },
        Err(e) => left_error(left, right, validate, nulls_equal) == Some(e),
    }
}

/// Whether `r` is what the outer join of the two sides comes to: its error,
/// or the rows of its tuples.
pub open spec fn outer_join_ok<C>(
    r: Result<(Vec<NullableIdxSize>, Vec<NullableIdxSize>), JoinError>,
    left: Seq<Option<C>>,
    right: Seq<Option<C>>,
    validate: JoinValidation,
    nulls_equal: bool,
) -> bool {
    match r {
        Ok(ids) => {
            &&& outer_join_error(left, right, validate, nulls_equal) is None
            &&& ids.0@ == firsts(outer_join(left, right, nulls_equal))
            &&& ids.1@ == seconds(outer_join(left, right, nulls_equal))
        },
        Err(e) => outer_join_error(left, right, validate, nulls_equal) == Some(e),
    }
}

/// Whether `r` is what the semi join of the two sides comes to, or the anti
/// join if `anti` is set: its error, or its rows.
pub open spec fn semi_anti_ok<C>(
    r: Result<Vec<IdxSize>, JoinError>,
    left: Seq<Option<C>>,
    right: Seq<Option<C>>,
    anti: bool,
    nulls_equal: bool,
) -> bool {
    match r {
        Ok(rows) => {
            &&& semi_anti_error(left, right) is None
            &&& rows@ == semi_anti_rows(left, right, nulls_equal, anti, 0, left.len() as int)
        },
        Err(e) => semi_anti_error(left, right) == Some(e),
    }
}

/// The keys of two columns of byte strings, with their hashes, and whether
/// the columns were swapped: where the column with fewer rows that are not
/// null is to be the build side, the first of what is returned is the
/// other one, and `ca` of two that have as many.
pub fn prepare_binary<'a>(
    ca: &'a BinaryChunked,
    other: &'a BinaryChunked,
    build_shortest_table: bool,
) -> (r: (Vec<Vec<BytesHash<'a>>>, Vec<Vec<BytesHash<'a>>>, bool))
    requires
        ca.data_type().is_bytes(),
        other.data_type().is_bytes(),
    ensures
        r.2 == (build_shortest_table && swaps(ca.slots(), other.slots())),
        scalar_keys::<BytesHash<'a>>(owned_keys(r.0@)) == if r.2 {
            other.slots()
        } else {
            ca.slots()
        },
        scalar_keys::<BytesHash<'a>>(owned_keys(r.1@)) == if r.2 {
            ca.slots()
        } else {
            other.slots()
        },
{
    let swapped = build_shortest_table && ca.len() - ca.null_count() <= other.len()
        - other.null_count();
    let (a, b) = if swapped {
        (other, ca)
    } else {
        (ca, other)
    };
    let arrays_a = chunk_refs(a);
    let arrays_b = chunk_refs(b);
    let bh_a = to_bytes_hashes(&arrays_a);
    let bh_b = to_bytes_hashes(&arrays_b);
    (bh_a, bh_b, swapped)
}

/// The tables from rows to places of the two sides of a left join, for
/// each side that is stored in more than one chunk. The two tables are
/// built at the same time.
pub fn create_mappings<A: Array + Sync>(
    chunks_left: &[A],
    chunks_right: &[A],
    left_len: usize,
    right_len: usize,
) -> (r: (Option<Vec<ChunkId>>, Option<Vec<ChunkId>>))
    requires
        left_len == crate::partition::prefix_len(
            crate::partition::slot_seqs(chunks_left@),
            chunks_left@.len() as int,
        ),
        right_len == crate::partition::prefix_len(
            crate::partition::slot_seqs(chunks_right@),
            chunks_right@.len() as int,
        ),
        left_len <= IDX_MAX,
        right_len <= IDX_MAX,
    ensures
        r.0 is Some == spec_mapping(chunks_left@) is Some,
        r.0 matches Some(m) ==> Some(m@) == spec_mapping(chunks_left@) && m@.len() == left_len,
        r.1 is Some == spec_mapping(chunks_right@) is Some,
        r.1 matches Some(m) ==> Some(m@) == spec_mapping(chunks_right@) && m@.len() == right_len,
{
    let mapping_left = || -> (m: Option<Vec<ChunkId>>)
        ensures
            m is Some == spec_mapping(chunks_left@) is Some,
            m matches Some(v) ==> Some(v@) == spec_mapping(chunks_left@) && v@.len() == left_len,
        { mapping_for(chunks_left, left_len) };
    let mapping_right = || -> (m: Option<Vec<ChunkId>>)
        ensures
            m is Some == spec_mapping(chunks_right@) is Some,
            m matches Some(v) ==> Some(v@) == spec_mapping(chunks_right@) && v@.len()
                == right_len,
        { mapping_for(chunks_right, right_len) };
    par_join(mapping_left, mapping_right)
}

/// The width of the floating-point values that keys are, if they are.
pub open spec fn float_of<T: NativeType>(float: bool) -> Option<BitWidth> {
    if float {
        Some(T::spec_width())
    } else {
        None
    }
}

/// The inner join of two columns of fixed-width values of the width of
/// `T`, of floating-point values if `float` is set.
///
/// The column with fewer rows that are not null is the build side. Columns
/// without nulls that are not of floating-point values are joined on their
/// values as they are stored; where each is stored in one chunk, nothing is
/// copied.
pub fn group_join_inner<T: NativeType>(
    left: &PrimitiveChunked,
    right: &PrimitiveChunked,
    float: bool,
    validate: JoinValidation,
    nulls_equal: bool,
) -> (r: Result<(InnerJoinIds, bool), JoinError>)
    requires
        left.data_type().spec_width() == Some(T::spec_width()),
        right.data_type().spec_width() == Some(T::spec_width()),
    ensures
        inner_join_ok(
            r,
            normalized(left.slots(), float_of::<T>(float)),
            normalized(right.slots(), float_of::<T>(float)),
            validate,
            nulls_equal,
        ),
{
    let n_threads = current_num_threads();
    let swapped = left.len() - left.null_count() <= right.len() - right.null_count();
    proof {
        lemma_normalized_valid(left.slots(), float_of::<T>(float));
        lemma_normalized_valid(right.slots(), float_of::<T>(float));
    }
    let (a, b) = if swapped {
        (right, left)
    } else {
        (left, right)
    };
    let plain = !float && left.null_count() == 0 && right.null_count() == 0;
    if plain && left.chunks().len() == 1 && right.chunks().len() == 1 {
        let keys_a = contiguous_slices::<T>(a, n_threads);
        let keys_b = contiguous_slices::<T>(b, n_threads);
        proof {
            lemma_scalar_join::<T>(
                side_keys(keys_a@),
                side_keys(keys_b@),
                nulls_equal,
                swapped,
                validate,
            );
        }
        return match hash_join_tuples_inner(&keys_a, &keys_b, swapped, validate, nulls_equal) {
            Ok(ids) => Ok((ids, !swapped)),
            Err(e) => Err(e),
        };
    }
    let splitted_a = split(a, n_threads);
    let splitted_b = split(b, n_threads);
    let ids = if plain {
        let keys_a = chunks_as_slices::<T>(&splitted_a);
        let keys_b = chunks_as_slices::<T>(&splitted_b);
        proof {
            lemma_scalar_join::<T>(
                side_keys(keys_a@),
                side_keys(keys_b@),
                nulls_equal,
                swapped,
                validate,
            );
        }
        hash_join_tuples_inner(&keys_a, &keys_b, swapped, validate, nulls_equal)
    } else {
        let arrays_a = get_arrays(&splitted_a);
        let arrays_b = get_arrays(&splitted_b);
        let owned_a = optional_keys::<T>(&arrays_a, float);
        let owned_b = optional_keys::<T>(&arrays_b, float);
        let keys_a = key_slices(&owned_a);
        let keys_b = key_slices(&owned_b);
        proof {
            lemma_scalar_join::<Option<T>>(
                side_keys(keys_a@),
                side_keys(keys_b@),
                nulls_equal,
                swapped,
                validate,
            );
        }
        hash_join_tuples_inner(&keys_a, &keys_b, swapped, validate, nulls_equal)
    };
    match ids {
        Ok(ids) => Ok((ids, !swapped)),
        Err(e) => Err(e),
    }
}

/// The left join of two columns of fixed-width values of the width of `T`,
/// of floating-point values if `float` is set.
///
/// The right column is the build side. Columns without nulls that are not
/// of floating-point values are joined on their values as they are stored.
/// For a column stored in more than one chunk the result holds places in
/// the chunks.
pub fn num_group_join_left<T: NativeType>(
    left: &PrimitiveChunked,
    right: &PrimitiveChunked,
    float: bool,
    validate: JoinValidation,
    nulls_equal: bool,
) -> (r: Result<LeftJoinIds, JoinError>)
    requires
        left.data_type().spec_width() == Some(T::spec_width()),
        right.data_type().spec_width() == Some(T::spec_width()),
    ensures
        left_join_ok(
            r,
            normalized(left.slots(), float_of::<T>(float)),
            normalized(right.slots(), float_of::<T>(float)),
            spec_mapping(left.spec_chunks()),
            spec_mapping(right.spec_chunks()),
            validate,
            nulls_equal,
        ),
{
    if left.len() > IDX_MAX || right.len() > IDX_MAX {
        return Err(JoinError::IndexOverflow);
    }
    let n_threads = current_num_threads();
    let plain = !float && left.null_count() == 0 && right.null_count() == 0;
    if plain && left.chunks().len() == 1 && right.chunks().len() == 1 {
        let keys_a = contiguous_slices::<T>(left, n_threads);
        let keys_b = contiguous_slices::<T>(right, n_threads);
        proof {
            lemma_scalar_join::<T>(
                side_keys(keys_a@),
                side_keys(keys_b@),
                nulls_equal,
                false,
                validate,
            );
        }
        return hash_join_tuples_left(&keys_a, &keys_b, None, None, validate, nulls_equal);
    }
    let splitted_a = split(left, n_threads);
    let splitted_b = split(right, n_threads);
    if plain {
        let keys_a = chunks_as_slices::<T>(&splitted_a);
        let keys_b = chunks_as_slices::<T>(&splitted_b);
        let (mapping_left, mapping_right) = create_mappings(
            left.chunks().as_slice(),
            right.chunks().as_slice(),
            left.len(),
            right.len(),
        );
        proof {
            lemma_scalar_join::<T>(
                side_keys(keys_a@),
                side_keys(keys_b@),
                nulls_equal,
                false,
                validate,
            );
        }
        hash_join_tuples_left(
            &keys_a,
            &keys_b,
            as_deref(&mapping_left),
            as_deref(&mapping_right),
            validate,
            nulls_equal,
        )
    } else {
        let arrays_a = get_arrays(&splitted_a);
        let arrays_b = get_arrays(&splitted_b);
        let owned_a = optional_keys::<T>(&arrays_a, float);
        let owned_b = optional_keys::<T>(&arrays_b, float);
        let keys_a = key_slices(&owned_a);
        let keys_b = key_slices(&owned_b);
        let (mapping_left, mapping_right) = create_mappings(
            left.chunks().as_slice(),
            right.chunks().as_slice(),
            left.len(),
            right.len(),
        );
        proof {
            lemma_scalar_join::<Option<T>>(
                side_keys(keys_a@),
                side_keys(keys_b@),
                nulls_equal,
                false,
                validate,
            );
        }
        hash_join_tuples_left(
            &keys_a,
            &keys_b,
            as_deref(&mapping_left),
            as_deref(&mapping_right),
            validate,
            nulls_equal,
        )
    }
}

/// An optional table from rows to places, as a slice.
pub fn as_deref(mapping: &Option<Vec<ChunkId>>) -> (r: Option<&[ChunkId]>)
    ensures
        r is Some == mapping is Some,
        r matches Some(m) ==> m@ == mapping->0@,
{
    match mapping {
        Some(m) => Some(m.as_slice()),
        None => None,
    }
}

/// The outer join of two columns of fixed-width values of the width of
/// `T`, of floating-point values if `float` is set.
///
/// The column with fewer rows that are not null is the build side. The
/// number of partitions is a power of two.
pub fn hash_join_outer<T: NativeType>(
    ca_in: &PrimitiveChunked,
    other: &PrimitiveChunked,
    float: bool,
    validate: JoinValidation,
    nulls_equal: bool,
) -> (r: Result<(Vec<NullableIdxSize>, Vec<NullableIdxSize>), JoinError>)
    requires
        ca_in.data_type().spec_width() == Some(T::spec_width()),
        other.data_type().spec_width() == Some(T::spec_width()),
    ensures
        outer_join_ok(
            r,
            normalized(ca_in.slots(), float_of::<T>(float)),
            normalized(other.slots(), float_of::<T>(float)),
            validate,
            nulls_equal,
        ),
{
    let swapped = ca_in.len() - ca_in.null_count() <= other.len() - other.null_count();
    proof {
        lemma_normalized_valid(ca_in.slots(), float_of::<T>(float));
        lemma_normalized_valid(other.slots(), float_of::<T>(float));
    }
    let (a, b) = if swapped {
        (other, ca_in)
    } else {
        (ca_in, other)
    };
    let n_partitions = _set_partition_size(current_num_threads());
    let plain = !float && a.null_count() == 0 && b.null_count() == 0;
    if plain && a.chunks().len() == 1 && b.chunks().len() == 1 {
        let keys_a = contiguous_slices::<T>(a, n_partitions);
        let keys_b = contiguous_slices::<T>(b, n_partitions);
        proof {
            lemma_scalar_join::<T>(
                side_keys(keys_a@),
                side_keys(keys_b@),
                nulls_equal,
                swapped,
                validate,
            );
        }
        return hash_join_tuples_outer(&keys_a, &keys_b, swapped, validate, nulls_equal);
    }
    let splitted_a = split(a, n_partitions);
    let splitted_b = split(b, n_partitions);
    if plain {
        let keys_a = chunks_as_slices::<T>(&splitted_a);
        let keys_b = chunks_as_slices::<T>(&splitted_b);
        proof {
            lemma_scalar_join::<T>(
                side_keys(keys_a@),
                side_keys(keys_b@),
                nulls_equal,
                swapped,
                validate,
            );
        }
        hash_join_tuples_outer(&keys_a, &keys_b, swapped, validate, nulls_equal)
    } else {
        let arrays_a = get_arrays(&splitted_a);
        let arrays_b = get_arrays(&splitted_b);
        let owned_a = optional_keys::<T>(&arrays_a, float);
        let owned_b = optional_keys::<T>(&arrays_b, float);
        let keys_a = key_slices(&owned_a);
        let keys_b = key_slices(&owned_b);
        proof {
            lemma_scalar_join::<Option<T>>(
                side_keys(keys_a@),
                side_keys(keys_b@),
                nulls_equal,
                swapped,
                validate,
            );
        }
        hash_join_tuples_outer(&keys_a, &keys_b, swapped, validate, nulls_equal)
    }
}

/// The semi join of two columns of fixed-width values of the width of
/// `T`, or their anti join if `anti` is set; of floating-point values if
/// `float` is set.
///
/// The right column is the build side. Columns without nulls that are not
/// of floating-point values are joined on their values as they are stored.
pub fn num_group_join_anti_semi<T: NativeType>(
    left: &PrimitiveChunked,
    right: &PrimitiveChunked,
    float: bool,
    anti: bool,
    nulls_equal: bool,
) -> (r: Result<Vec<IdxSize>, JoinError>)
    requires
        left.data_type().spec_width() == Some(T::spec_width()),
        right.data_type().spec_width() == Some(T::spec_width()),
    ensures
        semi_anti_ok(
            r,
            normalized(left.slots(), float_of::<T>(float)),
            normalized(right.slots(), float_of::<T>(float)),
            anti,
            nulls_equal,
        ),
{
    if left.len() > IDX_MAX || right.len() > IDX_MAX {
        return Err(JoinError::IndexOverflow);
    }
    let n_threads = current_num_threads();
    let plain = !float && left.null_count() == 0 && right.null_count() == 0;
    if plain && left.chunks().len() == 1 && right.chunks().len() == 1 {
        let keys_a = contiguous_slices::<T>(left, n_threads);
        let keys_b = contiguous_slices::<T>(right, n_threads);
        proof {
            lemma_scalar_join::<T>(
                side_keys(keys_a@),
                side_keys(keys_b@),
                nulls_equal,
                false,
                JoinValidation::ManyToMany,
            );
        }
        return Ok(hash_join_tuples_semi_anti(&keys_a, &keys_b, nulls_equal, anti));
    }
    let splitted_a = split(left, n_threads);
    let splitted_b = split(right, n_threads);
    if plain {
        let keys_a = chunks_as_slices::<T>(&splitted_a);
        let keys_b = chunks_as_slices::<T>(&splitted_b);
        proof {
            lemma_scalar_join::<T>(
                side_keys(keys_a@),
                side_keys(keys_b@),
                nulls_equal,
                false,
                JoinValidation::ManyToMany,
            );
        }
        Ok(hash_join_tuples_semi_anti(&keys_a, &keys_b, nulls_equal, anti))
    } else {
        let arrays_a = get_arrays(&splitted_a);
        let arrays_b = get_arrays(&splitted_b);
        let owned_a = optional_keys::<T>(&arrays_a, float);
        let owned_b = optional_keys::<T>(&arrays_b, float);
        let keys_a = key_slices(&owned_a);
        let keys_b = key_slices(&owned_b);
        proof {
            lemma_scalar_join::<Option<T>>(
                side_keys(keys_a@),
                side_keys(keys_b@),
                nulls_equal,
                false,
                JoinValidation::ManyToMany,
            );
        }
        Ok(hash_join_tuples_semi_anti(&keys_a, &keys_b, nulls_equal, anti))
    }
}

/// The form in which two columns of the given types are joined on, if they
/// have one in common.
pub open spec fn shared_repr(left: DataType, right: DataType) -> Option<KeyRepr> {
    if left.spec_key_repr() == right.spec_key_repr() {
        left.spec_key_repr()
    } else {
        None
    }
}

/// The form in which two columns of the given types are joined on, if they
/// have one in common.
pub fn common_repr(left: DataType, right: DataType) -> (r: Option<KeyRepr>)
    ensures
        r == shared_repr(left, right),
{
    match (left.key_repr(), right.key_repr()) {
        (Some(a), Some(b)) => if a == b {
            Some(a)
        } else {
            None
        },
        _ => None,
    }
}

/// The table from rows to places that a left join uses for a column: for a
/// column of fixed-width values stored in more than one chunk.
pub open spec fn series_mapping(s: &Series) -> Option<Seq<ChunkId>> {
    match s.spec_column() {
        Column::Primitive(ca) => spec_mapping(ca.spec_chunks()),
        _ => None,
    }
}

/// The joins of a key column with another.
pub trait SeriesJoin: Sized {
    /// The left join of this column with `other`. Every row of this column
    /// is in the result, with each row of `other` that corresponds to it or
    /// with none.
    fn hash_join_left(&self, other: &Series, validate: JoinValidation, nulls_equal: bool) -> (r:
        Result<LeftJoinIds, JoinError>)
        ensures
            series_left_ok(r, self.as_series(), other, validate, nulls_equal),
    ;

    /// The semi join of this column with `other`, or the anti join if
    /// `anti` is set: the rows of this column that some row of `other`
    /// corresponds to, or those that none does.
    fn hash_join_semi_anti(&self, other: &Series, anti: bool, nulls_equal: bool) -> (r: Result<
        Vec<IdxSize>,
        JoinError,
    >)
        ensures
            series_semi_anti_ok(r, self.as_series(), other, anti, nulls_equal),
    ;

    /// The inner join of this column with `other`, and whether the rows of
    /// this column come in ascending order in the result.
    fn hash_join_inner(&self, other: &Series, validate: JoinValidation, nulls_equal: bool) -> (r:
        Result<(InnerJoinIds, bool), JoinError>)
        ensures
            series_inner_ok(r, self.as_series(), other, validate, nulls_equal),
    ;

    /// The outer join of this column with `other`, as two arrays of rows
    /// in which a slot is null where a tuple lacks a row of that side.
    fn hash_join_outer(&self, other: &Series, validate: JoinValidation, nulls_equal: bool) -> (r:
        Result<(PrimitiveArray, PrimitiveArray), JoinError>)
        ensures
            series_outer_ok(r, self.as_series(), other, validate, nulls_equal),
    ;

    /// This column.
    spec fn as_series(&self) -> &Series;
}

/// Whether `r` is what the left join of two columns comes to. Columns
/// whose types have no key representation in common cannot be joined.
pub open spec fn series_left_ok(
    r: Result<LeftJoinIds, JoinError>,
    left: &Series,
    right: &Series,
    validate: JoinValidation,
    nulls_equal: bool,
) -> bool {
    if shared_repr(left.data_type(), right.data_type()) is None {
        r matches Err(JoinError::UnsupportedJoinType)
    } else {
        left_join_ok(
            r,
            left.join_keys(),
            right.join_keys(),
            series_mapping(left),
            series_mapping(right),
            validate,
            nulls_equal,
        )
    }
}

/// Whether `r` is what the semi or the anti join of two columns comes to.
pub open spec fn series_semi_anti_ok(
    r: Result<Vec<IdxSize>, JoinError>,
    left: &Series,
    right: &Series,
    anti: bool,
    nulls_equal: bool,
) -> bool {
    if shared_repr(left.data_type(), right.data_type()) is None {
        r matches Err(JoinError::UnsupportedJoinType)
    } else {
        semi_anti_ok(r, left.join_keys(), right.join_keys(), anti, nulls_equal)
    }
}

/// Whether `r` is what the inner join of two columns comes to.
pub open spec fn series_inner_ok(
    r: Result<(InnerJoinIds, bool), JoinError>,
    left: &Series,
    right: &Series,
    validate: JoinValidation,
    nulls_equal: bool,
) -> bool {
    if shared_repr(left.data_type(), right.data_type()) is None {
        r matches Err(JoinError::UnsupportedJoinType)
    } else {
        inner_join_ok(r, left.join_keys(), right.join_keys(), validate, nulls_equal)
    }
}

/// The slots of an array of row addresses.
pub open spec fn index_slots(ids: Seq<NullableIdxSize>) -> Seq<Option<Scalar>> {
    Seq::new(
        ids.len(),
        |i: int|
            match ids[i] {
                Some(r) => Some(Scalar::Bits(r as int)),
                None => None,
            },
    )
}

/// Whether `r` is what the outer join of two columns comes to.
pub open spec fn series_outer_ok(
    r: Result<(PrimitiveArray, PrimitiveArray), JoinError>,
    left: &Series,
    right: &Series,
    validate: JoinValidation,
    nulls_equal: bool,
) -> bool {
    if shared_repr(left.data_type(), right.data_type()) is None {
        r matches Err(JoinError::UnsupportedJoinType)
    } else {
        match r {
            Ok(ids) => {
                &&& outer_join_error(left.join_keys(), right.join_keys(), validate, nulls_equal)
                    is None
                &&& ids.0.slots() == index_slots(
                    firsts(outer_join(left.join_keys(), right.join_keys(), nulls_equal)),
                )
                &&& ids.1.slots() == index_slots(
                    seconds(outer_join(left.join_keys(), right.join_keys(), nulls_equal)),
                )
            },
            Err(e) => outer_join_error(left.join_keys(), right.join_keys(), validate, nulls_equal)
                == Some(e),
        }
    }
}

impl SeriesJoin for Series {
    open spec fn as_series(&self) -> &Series {
        self
    }

    fn hash_join_left(&self, other: &Series, validate: JoinValidation, nulls_equal: bool) -> (r:
        Result<LeftJoinIds, JoinError>) {
        let repr = match common_repr(self.dtype(), other.dtype()) {
            Some(repr) => repr,
            None => {
                return Err(JoinError::UnsupportedJoinType);
            },
        };
        match (self.column(), other.column()) {
            (Column::Binary(lhs), Column::Binary(rhs)) => {
                let n_threads = current_num_threads();
                let (owned_a, owned_b, _) = prepare_binary(lhs, rhs, false);
                let keys_a = split_slices(&key_slices(&owned_a), n_threads);
                let keys_b = split_slices(&key_slices(&owned_b), n_threads);
                proof {
                    lemma_scalar_join::<BytesHash>(
                        side_keys(keys_a@),
                        side_keys(keys_b@),
                        nulls_equal,
                        false,
                        validate,
                    );
                }
                hash_join_tuples_left(&keys_a, &keys_b, None, None, validate, nulls_equal)
            },
            (Column::Primitive(lhs), Column::Primitive(rhs)) => match repr {
                KeyRepr::Bits(BitWidth::W32) => num_group_join_left::<u32>(
                    lhs,
                    rhs,
                    false,
                    validate,
                    nulls_equal,
                ),
                KeyRepr::Bits(BitWidth::W64) => num_group_join_left::<u64>(
                    lhs,
                    rhs,
                    false,
                    validate,
                    nulls_equal,
                ),
                KeyRepr::Bits(BitWidth::W128) => num_group_join_left::<u128>(
                    lhs,
                    rhs,
                    false,
                    validate,
                    nulls_equal,
                ),
                KeyRepr::Float(BitWidth::W32) => num_group_join_left::<u32>(
                    lhs,
                    rhs,
                    true,
                    validate,
                    nulls_equal,
                ),
                KeyRepr::Float(BitWidth::W64) => num_group_join_left::<u64>(
                    lhs,
                    rhs,
                    true,
                    validate,
                    nulls_equal,
                ),
                _ => vstd::pervasive::unreached(),
            },
            _ => vstd::pervasive::unreached(),
        }
    }

    fn hash_join_semi_anti(&self, other: &Series, anti: bool, nulls_equal: bool) -> (r: Result<
        Vec<IdxSize>,
        JoinError,
    >) {
        let repr = match common_repr(self.dtype(), other.dtype()) {
            Some(repr) => repr,
            None => {
                return Err(JoinError::UnsupportedJoinType);
            },
        };
        match (self.column(), other.column()) {
            (Column::Binary(lhs), Column::Binary(rhs)) => {
                if lhs.len() > IDX_MAX || rhs.len() > IDX_MAX {
                    return Err(JoinError::IndexOverflow);
                }
                let n_threads = current_num_threads();
                let (owned_a, owned_b, _) = prepare_binary(lhs, rhs, false);
                let keys_a = split_slices(&key_slices(&owned_a), n_threads);
                let keys_b = split_slices(&key_slices(&owned_b), n_threads);
                proof {
                    lemma_scalar_join::<BytesHash>(
                        side_keys(keys_a@),
                        side_keys(keys_b@),
                        nulls_equal,
                        false,
                        JoinValidation::ManyToMany,
                    );
                }
                Ok(hash_join_tuples_semi_anti(&keys_a, &keys_b, nulls_equal, anti))
            },
            (Column::Primitive(lhs), Column::Primitive(rhs)) => match repr {
                KeyRepr::Bits(BitWidth::W32) => num_group_join_anti_semi::<u32>(
                    lhs,
                    rhs,
                    false,
                    anti,
                    nulls_equal,
                ),
                KeyRepr::Bits(BitWidth::W64) => num_group_join_anti_semi::<u64>(
                    lhs,
                    rhs,
                    false,
                    anti,
                    nulls_equal,
                ),
                KeyRepr::Bits(BitWidth::W128) => num_group_join_anti_semi::<u128>(
                    lhs,
                    rhs,
                    false,
                    anti,
                    nulls_equal,
                ),
                KeyRepr::Float(BitWidth::W32) => num_group_join_anti_semi::<u32>(
                    lhs,
                    rhs,
                    true,
                    anti,
                    nulls_equal,
                ),
                KeyRepr::Float(BitWidth::W64) => num_group_join_anti_semi::<u64>(
                    lhs,
                    rhs,
                    true,
                    anti,
                    nulls_equal,
                ),
                _ => vstd::pervasive::unreached(),
            },
            _ => vstd::pervasive::unreached(),
        }
    }

    fn hash_join_inner(&self, other: &Series, validate: JoinValidation, nulls_equal: bool) -> (r:
        Result<(InnerJoinIds, bool), JoinError>) {
        let repr = match common_repr(self.dtype(), other.dtype()) {
            Some(repr) => repr,
            None => {
                return Err(JoinError::UnsupportedJoinType);
            },
        };
        match (self.column(), other.column()) {
            (Column::Binary(lhs), Column::Binary(rhs)) => {
                let n_threads = current_num_threads();
                let (owned_a, owned_b, swapped) = prepare_binary(lhs, rhs, true);
                let keys_a = split_slices(&key_slices(&owned_a), n_threads);
                let keys_b = split_slices(&key_slices(&owned_b), n_threads);
                proof {
                    lemma_scalar_join::<BytesHash>(
                        side_keys(keys_a@),
                        side_keys(keys_b@),
                        nulls_equal,
                        swapped,
                        validate,
                    );
                }
                match hash_join_tuples_inner(&keys_a, &keys_b, swapped, validate, nulls_equal) {
                    Ok(ids) => Ok((ids, !swapped)),
                    Err(e) => Err(e),
                }
            },
            (Column::Primitive(lhs), Column::Primitive(rhs)) => match repr {
                KeyRepr::Bits(BitWidth::W32) => group_join_inner::<u32>(
                    lhs,
                    rhs,
                    false,
                    validate,
                    nulls_equal,
                ),
                KeyRepr::Bits(BitWidth::W64) => group_join_inner::<u64>(
                    lhs,
                    rhs,
                    false,
                    validate,
                    nulls_equal,
                ),
                KeyRepr::Bits(BitWidth::W128) => group_join_inner::<u128>(
                    lhs,
                    rhs,
                    false,
                    validate,
                    nulls_equal,
                ),
                KeyRepr::Float(BitWidth::W32) => group_join_inner::<u32>(
                    lhs,
                    rhs,
                    true,
                    validate,
                    nulls_equal,
                ),
                KeyRepr::Float(BitWidth::W64) => group_join_inner::<u64>(
                    lhs,
                    rhs,
                    true,
                    validate,
                    nulls_equal,
                ),
                _ => vstd::pervasive::unreached(),
            },
            _ => vstd::pervasive::unreached(),
        }
    }

    fn hash_join_outer(&self, other: &Series, validate: JoinValidation, nulls_equal: bool) -> (r:
        Result<(PrimitiveArray, PrimitiveArray), JoinError>) {
        let repr = match common_repr(self.dtype(), other.dtype()) {
            Some(repr) => repr,
            None => {
                return Err(JoinError::UnsupportedJoinType);
            },
        };
        let ids = match (self.column(), other.column()) {
            (Column::Binary(lhs), Column::Binary(rhs)) => {
                let n_threads = current_num_threads();
                let (owned_a, owned_b, swapped) = prepare_binary(lhs, rhs, true);
                let keys_a = split_slices(&key_slices(&owned_a), n_threads);
                let keys_b = split_slices(&key_slices(&owned_b), n_threads);
                proof {
                    lemma_scalar_join::<BytesHash>(
                        side_keys(keys_a@),
                        side_keys(keys_b@),
                        nulls_equal,
                        swapped,
                        validate,
                    );
                }
                hash_join_tuples_outer(&keys_a, &keys_b, swapped, validate, nulls_equal)
            },
            (Column::Primitive(lhs), Column::Primitive(rhs)) => match repr {
                KeyRepr::Bits(BitWidth::W32) => hash_join_outer::<u32>(
                    lhs,
                    rhs,
                    false,
                    validate,
                    nulls_equal,
                ),
                KeyRepr::Bits(BitWidth::W64) => hash_join_outer::<u64>(
                    lhs,
                    rhs,
                    false,
                    validate,
                    nulls_equal,
                ),
                KeyRepr::Bits(BitWidth::W128) => hash_join_outer::<u128>(
                    lhs,
                    rhs,
                    false,
                    validate,
                    nulls_equal,
                ),
                KeyRepr::Float(BitWidth::W32) => hash_join_outer::<u32>(
                    lhs,
                    rhs,
                    true,
                    validate,
                    nulls_equal,
                ),
                KeyRepr::Float(BitWidth::W64) => hash_join_outer::<u64>(
                    lhs,
                    rhs,
                    true,
                    validate,
                    nulls_equal,
                ),
                _ => vstd::pervasive::unreached(),
            },
            _ => vstd::pervasive::unreached(),
        };
        match ids {
            Ok((left, right)) => Ok(
                (PrimitiveArray::from_indices(&left), PrimitiveArray::from_indices(&right)),
            ),
            Err(e) => Err(e),
        }
    }
}

} // verus!
