//! Row addresses.
use vstd::prelude::*;

verus! {

/// An address into the logical row space of one side of a join.
pub type IdxSize = u32;

/// The largest number of rows, and of result tuples, that a join can address.
pub const IDX_MAX: usize = 0xffff_ffff;

/// A row address that may be absent.
pub type NullableIdxSize = Option<IdxSize>;

/// The physical place of a row of a column that is stored in chunks: the
/// chunk, and the position within it.
#[derive(Clone, Copy, Debug, PartialEq, Eq, Structural)]
pub struct ChunkId {
    pub chunk_idx: IdxSize,
    pub array_idx: IdxSize,
}

impl ChunkId {
    /// The place `array_idx` of chunk `chunk_idx`.
    pub fn store(chunk_idx: IdxSize, array_idx: IdxSize) -> (id: ChunkId)
        ensures
            id == (ChunkId { chunk_idx, array_idx }),
    {
        ChunkId { chunk_idx, array_idx }
    }

    /// The chunk and the position within it.
    pub fn extract(self) -> (r: (IdxSize, IdxSize))
        ensures
            r == (self.chunk_idx, self.array_idx),
    {
        (self.chunk_idx, self.array_idx)
    }
}

/// The rows of the left side in the result of a join, as logical rows or,
/// for a side stored in chunks, as physical places.
#[derive(Debug)]
pub enum ChunkJoinIds {
    Left(Vec<IdxSize>),
    Right(Vec<ChunkId>),
}

/// The rows of the right side in the result of a left join; a tuple
/// without a right row holds `None`.
#[derive(Debug)]
pub enum ChunkJoinOptIds {
    Left(Vec<NullableIdxSize>),
    Right(Vec<Option<ChunkId>>),
}

/// The result of a left join: the rows of the left side and, position by
/// position, the rows of the right side.
pub type LeftJoinIds = (ChunkJoinIds, ChunkJoinOptIds);

/// The result of an inner join: the rows of the left side and, position by
/// position, the rows of the right side.
pub type InnerJoinIds = (Vec<IdxSize>, Vec<IdxSize>);

} // verus!
