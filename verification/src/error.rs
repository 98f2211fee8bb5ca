//! The errors of a join.
use vstd::prelude::*;
use crate::join::validate::JoinValidation;
use crate::IdxSize;

verus! {

/// One of the two sides of a join.
#[derive(Clone, Copy, Debug, PartialEq, Eq, Structural)]
pub enum JoinSide {
    Left,
    Right,
}

/// Why a join did not produce a result. A join that fails produces no
/// tuples at all.
#[derive(Clone, Copy, Debug, PartialEq, Eq, Structural)]
pub enum JoinError {
    /// The keys do not keep the declared cardinality: on `side`, which was
    /// declared to hold every key once, the rows `first` and `second` hold
    /// the same key.
    ValidationError { validation: JoinValidation, side: JoinSide, first: IdxSize, second: IdxSize },
    /// The key columns of the two sides have no representation in common.
    UnsupportedJoinType,
    /// A hash table or an output buffer could not be allocated.
    ResourceExhausted,
    /// A side has more rows, or the result more tuples, than an index can address.
    IndexOverflow,
}

/// Why an array could not take what it was given.
#[derive(Clone, Copy, Debug, PartialEq, Eq, Structural)]
pub enum ArrayError {
    /// The array would hold more bytes than its offsets can address.
    Overflow,
}

} // verus!
