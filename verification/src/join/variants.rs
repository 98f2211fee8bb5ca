//! The join of two key columns, by the name of its variant.
use vstd::prelude::*;
use crate::array::Array;
use crate::array::primitive::PrimitiveArray;
use crate::chunked::PrimitiveChunked;
use crate::datatypes::BitWidth;
use crate::error::JoinError;
use crate::index::{ChunkJoinIds, ChunkJoinOptIds};
use crate::join::dispatch::{
    common_repr, float_of, index_slots, prepare_binary, series_mapping, SeriesJoin,
    shared_repr,
};
use crate::join::left::{ids_are, opt_ids_are};
use crate::join::model::{
    firsts, inner_join, inner_join_error, left_error, left_join, outer_join, outer_join_error,
    precheck, seconds, semi_anti_rows, side_keys,
};
use crate::join::validate::{check_sides, JoinValidation};
use crate::keys::BytesHash;
use crate::normalize::{
    chunk_refs, key_slices, lemma_scalar_precheck, normalized, optional_keys, NativeType,
};
use crate::series::{Column, KeyRepr, Series};
use crate::IdxSize;

verus! {

/// The variants of the join.
#[derive(Clone, Copy, Debug, PartialEq, Eq, Structural)]
pub enum JoinType {
    /// The pairs of rows whose keys correspond.
    Inner,
    /// Every left row, with each right row that corresponds to it or with none.
    Left,
    /// Every row of both sides, with each row of the other side that
    /// corresponds to it or with none.
    Outer,
    /// The left rows that some right row corresponds to.
    Semi,
    /// The left rows that no right row corresponds to.
    Anti,
}

/// The result of a join: two index arrays of which position `i` of the one
/// and position `i` of the other are one tuple, or for a semi and an anti
/// join the rows of the left side.
#[derive(Debug)]
pub enum JoinTuples {
    Inner(Vec<IdxSize>, Vec<IdxSize>),
    Left(ChunkJoinIds, ChunkJoinOptIds),
    Outer(PrimitiveArray, PrimitiveArray),
    Semi(Vec<IdxSize>),
    Anti(Vec<IdxSize>),
}

/// The error that a join of the two sides fails with, if it fails. The
/// declared cardinality is held to in every variant; in a semi and an anti
/// join the left side is checked first.
pub open spec fn join_error<C>(
    left: Seq<Option<C>>,
    right: Seq<Option<C>>,
    variant: JoinType,
    validate: JoinValidation,
    nulls_equal: bool,
) -> Option<JoinError> {
    match variant {
        JoinType::Inner => inner_join_error(left, right, validate, nulls_equal),
        JoinType::Left => left_error(left, right, validate, nulls_equal),
        JoinType::Outer => outer_join_error(left, right, validate, nulls_equal),
        JoinType::Semi | JoinType::Anti => precheck(left, right, false, validate, nulls_equal),
    }
}

/// Whether `tuples` are the tuples of the join of the two sides.
pub open spec fn tuples_are<C>(
    tuples: JoinTuples,
    left: Seq<Option<C>>,
    right: Seq<Option<C>>,
    mapping_left: Option<Seq<crate::index::ChunkId>>,
    mapping_right: Option<Seq<crate::index::ChunkId>>,
    variant: JoinType,
    nulls_equal: bool,
) -> bool {
    match (variant, tuples) {
        (JoinType::Inner, JoinTuples::Inner(l, r)) => l@ == firsts(
            inner_join(left, right, nulls_equal),
        ) && r@ == seconds(inner_join(left, right, nulls_equal)),
        (JoinType::Left, JoinTuples::Left(l, r)) => ids_are(
            l,
            firsts(left_join(left, right, nulls_equal)),
            mapping_left,
        ) && opt_ids_are(r, seconds(left_join(left, right, nulls_equal)), mapping_right),
        (JoinType::Outer, JoinTuples::Outer(l, r)) => l.slots() == index_slots(
            firsts(outer_join(left, right, nulls_equal)),
        ) && r.slots() == index_slots(seconds(outer_join(left, right, nulls_equal))),
        (JoinType::Semi, JoinTuples::Semi(rows)) => rows@ == semi_anti_rows(
            left,
            right,
            nulls_equal,
            false,
            0,
            left.len() as int,
        ),
        (JoinType::Anti, JoinTuples::Anti(rows)) => rows@ == semi_anti_rows(
            left,
            right,
            nulls_equal,
            true,
            0,
            left.len() as int,
        ),
        _ => false,
    }
}

/// Whether `r` is what the join of two columns comes to: the error that it
/// fails with, or its tuples.
pub open spec fn join_ok(
    r: Result<JoinTuples, JoinError>,
    left: &Series,
    right: &Series,
    variant: JoinType,
    validate: JoinValidation,
    nulls_equal: bool,
) -> bool {
    if shared_repr(left.data_type(), right.data_type()) is None {
        r matches Err(JoinError::UnsupportedJoinType)
    } else {
        match r {
            Ok(tuples) => join_error(
                left.join_keys(),
                right.join_keys(),
                variant,
                validate,
                nulls_equal,
            ) is None && tuples_are(
                tuples,
                left.join_keys(),
                right.join_keys(),
                series_mapping(left),
                series_mapping(right),
                variant,
                nulls_equal,
            ),
            Err(e) => join_error(left.join_keys(), right.join_keys(), variant, validate,
                nulls_equal)
                == Some(e),
        }
    }
}

/// Holds two columns of fixed-width values of the width of `T` to the
/// declared cardinality, the left one first.
pub fn check_numeric<T: NativeType>(
    left: &PrimitiveChunked,
    right: &PrimitiveChunked,
    float: bool,
    validate: JoinValidation,
    nulls_equal: bool,
) -> (r: Result<(), JoinError>)
    requires
        left.data_type().spec_width() == Some(T::spec_width()),
        right.data_type().spec_width() == Some(T::spec_width()),
    ensures
        match r {
            Ok(_) => precheck(
                normalized(left.slots(), float_of::<T>(float)),
                normalized(right.slots(), float_of::<T>(float)),
                false,
                validate,
                nulls_equal,
            ) is None,
            Err(e) => precheck(
                normalized(left.slots(), float_of::<T>(float)),
                normalized(right.slots(), float_of::<T>(float)),
                false,
                validate,
                nulls_equal,
            ) == Some(e),
        },
{
    let arrays_a = chunk_refs(left);
    let arrays_b = chunk_refs(right);
    let owned_a = optional_keys::<T>(&arrays_a, float);
    let owned_b = optional_keys::<T>(&arrays_b, float);
    let keys_a = key_slices(&owned_a);
    let keys_b = key_slices(&owned_b);
    proof {
        lemma_scalar_precheck::<Option<T>>(
            side_keys(keys_a@),
            side_keys(keys_b@),
            nulls_equal,
            false,
            validate,
        );
    }
    check_sides(&keys_a, &keys_b, false, validate, nulls_equal)
}

/// Holds two columns to the declared cardinality, the left one first.
pub fn check_series(
    left: &Series,
    right: &Series,
    validate: JoinValidation,
    nulls_equal: bool,
) -> (r: Result<(), JoinError>)
    ensures
        if shared_repr(left.data_type(), right.data_type()) is None {
            r matches Err(JoinError::UnsupportedJoinType)
        } else {
            match r {
                Ok(_) => precheck(
                    left.join_keys(),
                    right.join_keys(),
                    false,
                    validate,
                    nulls_equal,
                ) is None,
                Err(e) => precheck(left.join_keys(), right.join_keys(), false, validate,
                    nulls_equal)
                    == Some(e),
            }
        },
{
    let repr = match common_repr(left.dtype(), right.dtype()) {
        Some(repr) => repr,
        None => {
            return Err(JoinError::UnsupportedJoinType);
        },
    };
    match (left.column(), right.column()) {
        (Column::Binary(lhs), Column::Binary(rhs)) => {
            let (owned_a, owned_b, _) = prepare_binary(lhs, rhs, false);
            let keys_a = key_slices(&owned_a);
            let keys_b = key_slices(&owned_b);
            proof {
                lemma_scalar_precheck::<BytesHash>(
                    side_keys(keys_a@),
                    side_keys(keys_b@),
                    nulls_equal,
                    false,
                    validate,
                );
            }
            check_sides(&keys_a, &keys_b, false, validate, nulls_equal)
        },
        (Column::Primitive(lhs), Column::Primitive(rhs)) => match repr {
            KeyRepr::Bits(BitWidth::W32) => check_numeric::<u32>(
                lhs,
                rhs,
                false,
                validate,
                nulls_equal,
            ),
            KeyRepr::Bits(BitWidth::W64) => check_numeric::<u64>(
                lhs,
                rhs,
                false,
                validate,
                nulls_equal,
            ),
            KeyRepr::Bits(BitWidth::W128) => check_numeric::<u128>(
                lhs,
                rhs,
                false,
                validate,
                nulls_equal,
            ),
            KeyRepr::Float(BitWidth::W32) => check_numeric::<u32>(
                lhs,
                rhs,
                true,
                validate,
                nulls_equal,
            ),
            KeyRepr::Float(BitWidth::W64) => check_numeric::<u64>(
                lhs,
                rhs,
                true,
                validate,
                nulls_equal,
            ),
            _ => vstd::pervasive::unreached(),
        },
        _ => vstd::pervasive::unreached(),
    }
}

/// Joins the rows of two key columns.
///
/// A join fails, and returns no tuples, where the types of the columns have
/// no key representation in common, where a side has more rows or the
/// result more tuples than an index can address, and where the keys do not
/// keep the declared cardinality.
pub fn join(
    left_keys: &Series,
    right_keys: &Series,
    variant: JoinType,
    validation: JoinValidation,
    nulls_equal: bool,
) -> (r: Result<JoinTuples, JoinError>)
    ensures
        join_ok(r, left_keys, right_keys, variant, validation, nulls_equal),
{
    match variant {
        JoinType::Inner => match left_keys.hash_join_inner(right_keys, validation, nulls_equal) {
            Ok(((left, right), _)) => Ok(JoinTuples::Inner(left, right)),
            Err(e) => Err(e),
        },
        JoinType::Left => match left_keys.hash_join_left(right_keys, validation, nulls_equal) {
            Ok((left, right)) => Ok(JoinTuples::Left(left, right)),
            Err(e) => Err(e),
        },
        JoinType::Outer => match left_keys.hash_join_outer(right_keys, validation, nulls_equal) {
            Ok((left, right)) => Ok(JoinTuples::Outer(left, right)),
            Err(e) => Err(e),
        },
        JoinType::Semi => {
            match check_series(left_keys, right_keys, validation, nulls_equal) {
                Err(e) => {
                    return Err(e);
                },
                Ok(_) => {},
            }
            match left_keys.hash_join_semi_anti(right_keys, false, nulls_equal) {
                Ok(rows) => Ok(JoinTuples::Semi(rows)),
                Err(e) => Err(e),
            }
        },
        JoinType::Anti => {
            match check_series(left_keys, right_keys, validation, nulls_equal) {
                Err(e) => {
                    return Err(e);
                },
                Ok(_) => {},
            }
            match left_keys.hash_join_semi_anti(right_keys, true, nulls_equal) {
                Ok(rows) => Ok(JoinTuples::Anti(rows)),
                Err(e) => Err(e),
            }
        },
    }
}

} // verus!
