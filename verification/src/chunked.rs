//! Columns stored as a run of chunks.
use vstd::prelude::*;
use crate::array::{
    Array, Chunk, count_nulls, lemma_count_nulls_add, lemma_count_nulls_none,
    lemma_count_unset_nulls, null_count_of, Scalar,
};
use crate::array::binary::BinaryArray;
use crate::array::primitive::PrimitiveArray;
use crate::bitmap::lemma_count_unset_positive;
use crate::datatypes::ArrowDataType;
use crate::partition::{
    joined, lemma_joined, lemma_joined_part, lemma_joined_same, prefix_len, slot_seqs,
};

verus! {

/// What the given chunks hold, one chunk after the other.
pub open spec fn chunk_slots<A: Array>(chunks: Seq<A>) -> Seq<Option<Scalar>> {
    joined(slot_seqs(chunks), chunks.len() as int)
}

/// The null counts that the first `c` of the given chunks report, together.
pub open spec fn null_counts<A: Array>(chunks: Seq<A>, c: int) -> int
    decreases c,
{
    if c <= 0 {
        0
    } else {
        null_counts(chunks, c - 1) + null_count_of(
            chunks[c - 1].spec_dtype(),
            chunks[c - 1].spec_slots().len(),
            chunks[c - 1].spec_validity(),
        )
    }
}

/// A column of one data type, stored as chunks. Its rows are the slots of
/// its chunks, one chunk after the other.
#[derive(Debug)]
pub struct ChunkedArray<A: Chunk> {
    dtype: ArrowDataType,
    chunks: Vec<A>,
    length: usize,
}

/// A column of fixed-width values.
pub type PrimitiveChunked = ChunkedArray<PrimitiveArray>;

/// A column of byte strings.
pub type BinaryChunked = ChunkedArray<BinaryArray>;

impl<A: Chunk> ChunkedArray<A> {
    #[verifier::type_invariant]
    closed spec fn inv(&self) -> bool {
        &&& forall|c: int|
            0 <= c < self.chunks@.len() ==> (#[trigger] self.chunks@[c]).spec_dtype() == self.dtype
        &&& self.length == prefix_len(slot_seqs(self.chunks@), self.chunks@.len() as int)
    }

    /// The chunks.
    pub closed spec fn spec_chunks(&self) -> Seq<A> {
        self.chunks@
    }

    /// The data type.
    pub closed spec fn data_type(&self) -> ArrowDataType {
        self.dtype
    }

    /// What the column holds, row by row; `None` for a null.
    pub open spec fn slots(&self) -> Seq<Option<Scalar>> {
        chunk_slots(self.spec_chunks())
    }

    /// A column of the given chunks, if they all have the type `dtype` and
    /// the number of their rows can be counted.
    pub fn from_chunks(dtype: ArrowDataType, chunks: Vec<A>) -> (r: Option<Self>)
        ensures
            r is Some <==> (forall|c: int|
                0 <= c < chunks@.len() ==> (#[trigger] chunks@[c]).spec_dtype() == dtype)
                && prefix_len(slot_seqs(chunks@), chunks@.len() as int) <= usize::MAX,
            r matches Some(ca) ==> ca.spec_chunks() == chunks@ && ca.data_type() == dtype,
    {
        let ghost seqs = slot_seqs(chunks@);
        let mut length: usize = 0;
        let mut c: usize = 0;
        while c < chunks.len()
            invariant
                c <= chunks@.len(),
                seqs == slot_seqs(chunks@),
                length == prefix_len(seqs, c as int),
                forall|d: int| 0 <= d < c ==> (#[trigger] chunks@[d]).spec_dtype() == dtype,
            decreases chunks.len() - c,
        {
            if *chunks[c].dtype() != dtype {
                return None;
            }
            let len = chunks[c].len();
            if len > usize::MAX - length {
                proof {
                    lemma_joined(seqs, chunks@.len() as int);
                    assert(prefix_len(seqs, c + 1) <= prefix_len(seqs, chunks@.len() as int));
                }
                return None;
            }
            length = length + len;
            c += 1;
        }
        Some(ChunkedArray { dtype, chunks, length })
    }

    /// The number of rows.
    pub fn len(&self) -> (n: usize)
        ensures
            n == self.slots().len(),
    {
        proof {
            use_type_invariant(self);
            lemma_joined(slot_seqs(self.chunks@), self.chunks@.len() as int);
        }
        self.length
    }

    /// The data type of the column.
    pub fn dtype(&self) -> (d: &ArrowDataType)
        ensures
            *d == self.data_type(),
    {
        &self.dtype
    }

    /// The chunks of the column. Each has the type of the column.
    pub fn chunks(&self) -> (chunks: &Vec<A>)
        ensures
            chunks@ == self.spec_chunks(),
            forall|c: int|
                0 <= c < chunks@.len() ==> (#[trigger] chunks@[c]).spec_dtype()
                    == self.data_type(),
            chunk_slots(chunks@).len() <= usize::MAX,
            prefix_len(slot_seqs(chunks@), chunks@.len() as int) == self.slots().len(),
    {
        proof {
            use_type_invariant(self);
            lemma_joined(slot_seqs(self.chunks@), self.chunks@.len() as int);
        }
        &self.chunks
    }

    /// The number of null rows, as the chunks report them. For every type
    /// but the null type, whose own count an array need not keep, these
    /// are the rows that hold no value.
    pub fn null_count(&self) -> (n: usize)
        ensures
            n == null_counts(self.spec_chunks(), self.spec_chunks().len() as int),
            n <= self.slots().len(),
            n == 0 ==> forall|i: int| 0 <= i < self.slots().len() ==> self.slots()[i] is Some,
            self.data_type() != ArrowDataType::Null ==> n == count_nulls(
                self.slots(),
                self.slots().len() as int,
            ),
    {
        proof {
            use_type_invariant(self);
        }
        let ghost seqs = slot_seqs(self.chunks@);
        let mut n: usize = 0;
        let mut c: usize = 0;
        while c < self.chunks.len()
            invariant
                c <= self.chunks@.len(),
                seqs == slot_seqs(self.chunks@),
                self.length == prefix_len(seqs, self.chunks@.len() as int),
                n == null_counts(self.chunks@, c as int),
                n <= prefix_len(seqs, c as int),
                prefix_len(seqs, c as int) == joined(seqs, c as int).len(),
                forall|d: int|
                    0 <= d < self.chunks@.len() ==> (#[trigger] self.chunks@[d]).spec_dtype()
                        == self.dtype,
                self.dtype != ArrowDataType::Null ==> n == count_nulls(
                    joined(seqs, c as int),
                    prefix_len(seqs, c as int),
                ),
                n == 0 ==> forall|i: int|
                    0 <= i < prefix_len(seqs, c as int) ==> (#[trigger] joined(
                        seqs,
                        c as int,
                    )[i]) is Some,
            decreases self.chunks.len() - c,
        {
            let chunk = &self.chunks[c];
            let nulls = chunk.null_count();
            let len = chunk.len();
            let validity = chunk.validity();
            proof {
                lemma_joined(seqs, self.chunks@.len() as int);
                lemma_joined(seqs, c as int);
                lemma_joined(seqs, c + 1);
                assert(prefix_len(seqs, c + 1) <= prefix_len(seqs, self.chunks@.len() as int));
                match validity {
                    Some(v) => {
                        lemma_count_unset_positive(v@, v@.len() as int);
                        lemma_count_unset_nulls(v@, chunk.spec_slots(), v@.len() as int);
                    },
                    None => {
                        lemma_count_nulls_none(chunk.spec_slots(), len as int);
                    },
                }
                lemma_count_nulls_add(joined(seqs, c as int), seqs[c as int], len as int);
                assert(joined(seqs, c + 1) == joined(seqs, c as int) + seqs[c as int]);
                if n == 0 && nulls == 0 {
                    assert forall|i: int| 0 <= i < prefix_len(seqs, c + 1) implies (
                    #[trigger] joined(seqs, c + 1)[i]) is Some by {
                        if i >= prefix_len(seqs, c as int) {
                            let j = i - prefix_len(seqs, c as int);
                            assert(joined(seqs, c + 1)[i] == seqs[c as int][j]);
                            assert(chunk.spec_slots()[j] is None == crate::array::slot_is_null(
                                chunk.spec_validity(),
                                j,
                            ));
                        } else {
                            assert(joined(seqs, c + 1)[i] == joined(seqs, c as int)[i]);
                        }
                    }
                }
            }
            n = n + nulls;
            c += 1;
        }
        proof {
            lemma_joined(seqs, self.chunks@.len() as int);
            if n == 0 {
                assert forall|i: int| 0 <= i < self.slots().len() implies self.slots(
                    )[i] is Some by {
                    assert(joined(seqs, self.chunks@.len() as int)[i] is Some);
                }
            }
        }
        n
    }

    /// The `length` rows of the column from `offset` on, as a column of its own.
    pub fn slice(&self, offset: usize, length: usize) -> (r: Self)
        requires
            offset + length <= self.slots().len(),
        ensures
            r.slots() == self.slots().subrange(offset as int, offset + length),
            r.data_type() == self.data_type(),
    {
        proof {
            use_type_invariant(self);
        }
        let ghost seqs = slot_seqs(self.chunks@);
        let ghost all = self.slots();
        let mut out: Vec<A> = Vec::new();
        let mut taken: usize = 0;
        let mut pos: usize = 0;
        let mut c: usize = 0;
        proof {
            lemma_joined(seqs, self.chunks@.len() as int);
        }
        while c < self.chunks.len()
            invariant
                c <= self.chunks@.len(),
                seqs == slot_seqs(self.chunks@),
                all == joined(seqs, self.chunks@.len() as int),
                all.len() == self.length,
                self.length == prefix_len(seqs, self.chunks@.len() as int),
                offset + length <= all.len(),
                pos == prefix_len(seqs, c as int),
                taken <= length,
                taken < length ==> pos <= offset + taken,
                forall|d: int|
                    0 <= d < self.chunks@.len() ==> (#[trigger] self.chunks@[d]).spec_dtype()
                        == self.dtype,
                forall|d: int| 0 <= d < out@.len() ==> (#[trigger] out@[d]).spec_dtype()
                    == self.dtype,
                chunk_slots(out@) == all.subrange(offset as int, offset + taken),
            decreases self.chunks.len() - c,
        {
            let chunk = &self.chunks[c];
            let chunk_len = chunk.len();
            proof {
                lemma_joined_part(seqs, c as int);
            }
            if taken < length && offset + taken < pos + chunk_len {
                let start = offset + taken - pos;
                let room = chunk_len - start;
                let take = if length - taken < room {
                    length - taken
                } else {
                    room
                };
                let part = chunk.sliced_chunk(start, take);
                let ghost before = out@;
                out.push(part);
                proof {
                    let olds = slot_seqs(before);
                    let news = slot_seqs(out@);
                    lemma_joined_same(olds, news, before.len() as int);
                    assert(chunk_slots(out@) == chunk_slots(before) + part.spec_slots());
                    assert(all.subrange(pos as int, pos + chunk_len) == seqs[c as int]);
                    assert(part.spec_slots() =~= all.subrange(
                        offset + taken,
                        offset + taken + take,
                    )) by {
                        assert forall|i: int| 0 <= i < take implies part.spec_slots()[i]
                            == all[offset
                            + taken + i] by {
                            assert(all.subrange(pos as int, pos + chunk_len)[start + i] == all[pos
                                + start + i]);
                        }
                    }
                    assert(chunk_slots(out@) =~= all.subrange(
                        offset as int,
                        offset + taken + take,
                    ));
                }
                taken = taken + take;
            }
            pos = pos + chunk_len;
            c += 1;
        }
        proof {
            lemma_joined(slot_seqs(out@), out@.len() as int);
            assert(taken == length);
        }
        ChunkedArray { dtype: self.dtype, chunks: out, length }
    }
}

} // verus!
