//! A hash-join engine over columnar key data.
//!
//! Given the key columns of two relations, the engine computes which rows of
//! the left relation correspond to which rows of the right one, for inner,
//! left, outer, semi and anti joins. It produces row indices only; gathering
//! the output rows is left to the caller.
//!
//! A join runs in four steps. The keys of both columns are brought into one
//! representation ([`normalize`]): bit patterns for numbers, byte strings
//! for text and for the encoded rows of nested values. The keys are held to
//! the declared cardinality ([`join::validate`]). One hash table is built
//! for each partition of the build side ([`join::table`]), and each
//! partition of the probe side is looked up in the tables, on the workers of
//! a thread pool. At last the tuples that the partitions found are merged
//! into the index arrays of the result ([`join::assemble`]).
//!
//! Every function is verified against a mathematical model of the join,
//! found in [`join::model`]; what holds of every join is proved in
//! [`join::laws`]. The result of a join does not depend on the number of
//! workers, nor on how the columns are stored in chunks.
pub mod array;
pub mod bitmap;
pub mod chunked;
pub mod datatypes;
pub mod error;
pub mod index;
pub mod join;
pub mod keys;
pub mod normalize;
pub mod partition;
mod pool;
pub mod series;

pub use error::{JoinError, JoinSide};
pub use index::{IdxSize, IDX_MAX};
pub use join::dispatch::SeriesJoin;
pub use join::validate::JoinValidation;
pub use join::variants::{join, JoinTuples, JoinType};
pub use series::{Column, DataType, Series};
