//! The array whose every slot is null.
use vstd::prelude::*;
use crate::array::{Array, ArrayRef, Chunk, Scalar};
use crate::bitmap::Bitmap;
use crate::datatypes::ArrowDataType;

verus! {

/// An array of null slots. Its validity has every bit unset.
#[derive(Debug)]
pub struct NullArray {
    dtype: ArrowDataType,
    validity: Bitmap,
}

impl NullArray {
    #[verifier::type_invariant]
    closed spec fn inv(&self) -> bool {
        &&& self.dtype == ArrowDataType::Null
        &&& forall|i: int| 0 <= i < self.validity@.len() ==> !self.validity@[i]
    }

    /// The array of no slots.
    pub fn new_empty() -> (a: Self)
        ensures
            a.slots() == Seq::<Option<Scalar>>::empty(),
            a.data_type() == ArrowDataType::Null,
            a.validity_bits() == Some(Seq::<bool>::empty()),
    {
        let a = NullArray::new_null(0);
        assert(a.slots() =~= Seq::<Option<Scalar>>::empty());
        assert(a.validity_bits()->0 =~= Seq::<bool>::empty());
        a
    }

    /// What the array holds, slot by slot: nothing.
    pub closed spec fn slots(&self) -> Seq<Option<Scalar>> {
        Seq::new(self.validity@.len(), |i: int| None::<Scalar>)
    }

    /// The data type.
    pub closed spec fn data_type(&self) -> ArrowDataType {
        self.dtype
    }

    /// The validity bits.
    pub closed spec fn validity_bits(&self) -> Option<Seq<bool>> {
        Some(self.validity@)
    }

    /// The array of `length` null slots.
    pub fn new_null(length: usize) -> (a: Self)
        ensures
            a.slots() == Seq::new(length as nat, |i: int| None::<Scalar>),
            a.data_type() == ArrowDataType::Null,
            a.validity_bits() == Some(Seq::new(length as nat, |i: int| false)),
    {
        let a = NullArray { dtype: ArrowDataType::Null, validity: Bitmap::new_zeroed(length) };
        assert(a.slots() =~= Seq::new(length as nat, |i: int| None::<Scalar>));
        a
    }

    /// A copy of this array.
    pub fn duplicate(&self) -> (a: Self)
        ensures
            a.slots() == self.slots(),
            a.data_type() == self.data_type(),
            a.validity_bits() == self.validity_bits(),
    {
        proof {
            use_type_invariant(self);
        }
        NullArray { dtype: self.dtype, validity: self.validity.duplicate() }
    }

    /// Narrows this array to the `length` slots from `offset` on.
    pub fn slice_in_place(&mut self, offset: usize, length: usize)
        requires
            offset + length <= old(self).slots().len(),
        ensures
            final(self).slots() == old(self).slots().subrange(offset as int, offset + length),
            final(self).data_type() == old(self).data_type(),
            final(self).validity_bits() == crate::array::sliced_validity(
                old(self).validity_bits(),
                offset as int,
                length as int,
            ),
    {
        proof {
            use_type_invariant(&*self);
        }
        let ghost before = self.slots();
        let validity = self.validity.sliced(offset, length);
        *self = NullArray { dtype: self.dtype, validity };
        assert(self.slots() =~= before.subrange(offset as int, offset + length));
    }
}

impl Array for NullArray {
    open spec fn spec_slots(&self) -> Seq<Option<Scalar>> {
        self.slots()
    }

    open spec fn spec_dtype(&self) -> ArrowDataType {
        self.data_type()
    }

    open spec fn spec_validity(&self) -> Option<Seq<bool>> {
        self.validity_bits()
    }

    fn len(&self) -> (n: usize) {
        self.validity.len()
    }

    fn dtype(&self) -> (d: &ArrowDataType) {
        &self.dtype
    }

    fn validity(&self) -> (v: Option<&Bitmap>) {
        proof {
            use_type_invariant(self);
        }
        Some(&self.validity)
    }

    fn slice(&mut self, offset: usize, length: usize) {
        self.slice_in_place(offset, length)
    }

    fn to_boxed(&self) -> (r: ArrayRef) {
        ArrayRef::Null(self.duplicate())
    }
}

impl Chunk for NullArray {
    fn sliced_chunk(&self, offset: usize, length: usize) -> (r: Self) {
        let mut r = self.duplicate();
        r.slice_in_place(offset, length);
        r
    }
}

} // verus!
