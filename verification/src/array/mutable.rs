//! Arrays of fixed-width values that can grow.
use vstd::prelude::*;
use crate::array::{ArrayRef, MutableArray, PushUnchecked, Scalar};
use crate::array::primitive::{Buffer, primitive_slots, PrimitiveArray};
use crate::bitmap::{MutableBitmap, shrink_vec};
use crate::datatypes::ArrowDataType;

verus! {

/// The validity of a mutable array, as its bits.
pub open spec fn mutable_validity(validity: Option<MutableBitmap>) -> Option<Seq<bool>> {
    match validity {
        Some(v) => Some(v@),
        None => None,
    }
}

/// An array of row addresses that can grow. It has no validity until a
/// null is pushed.
#[derive(Debug)]
pub struct MutablePrimitiveArray {
    dtype: ArrowDataType,
    values: Vec<u32>,
    validity: Option<MutableBitmap>,
}

impl MutablePrimitiveArray {
    #[verifier::type_invariant]
    closed spec fn inv(&self) -> bool {
        &&& self.dtype == ArrowDataType::UInt32
        &&& self.validity matches Some(v) ==> v@.len() == self.values@.len()
    }

    /// The values, slot by slot. The value of a null slot is arbitrary.
    pub closed spec fn spec_values(&self) -> Seq<u32> {
        self.values@
    }

    /// What the array holds, slot by slot.
    pub closed spec fn slots(&self) -> Seq<Option<Scalar>> {
        primitive_slots(
            Seq::new(self.values@.len(), |i: int| self.values@[i] as int),
            mutable_validity(self.validity),
        )
    }

    /// The validity bits.
    pub closed spec fn validity_bits(&self) -> Option<Seq<bool>> {
        mutable_validity(self.validity)
    }

    /// The slot that holds an optional row address.
    pub open spec fn slot_of(value: Option<u32>) -> Option<Scalar> {
        match value {
            Some(v) => Some(Scalar::Bits(v as int)),
            None => None,
        }
    }

    /// An array without slots.
    pub fn new() -> (a: Self)
        ensures
            a.slots() == Seq::<Option<Scalar>>::empty(),
            a.validity_bits() is None,
    {
        let a = MutablePrimitiveArray {
            dtype: ArrowDataType::UInt32,
            values: Vec::new(),
            validity: None,
        };
        assert(a.slots() =~= Seq::<Option<Scalar>>::empty());
        a
    }

    /// Adds a slot at the end: a value, or a null.
    pub fn push(&mut self, value: Option<u32>)
        ensures
            final(self).slots() == old(self).slots().push(Self::slot_of(value)),
            final(self).mut_dtype() == old(self).mut_dtype(),
    {
        proof {
            use_type_invariant(&*self);
        }
        let ghost before = self.slots();
        let mut validity: Option<MutableBitmap> = None;
        std::mem::swap(&mut validity, &mut self.validity);
        let mut values: Vec<u32> = Vec::new();
        std::mem::swap(&mut values, &mut self.values);
        let validity = match (value, validity) {
            (Some(_), None) => None,
            (Some(_), Some(mut v)) => {
                v.push(true);
                Some(v)
            },
            (None, Some(mut v)) => {
                v.push(false);
                Some(v)
            },
            (None, None) => {
                let mut v = MutableBitmap::from_len_value(values.len(), true);
                v.push(false);
                Some(v)
            },
        };
        match value {
            Some(v) => values.push(v),
            None => values.push(0),
        }
        *self = MutablePrimitiveArray { dtype: ArrowDataType::UInt32, values, validity };
        assert(self.slots() =~= before.push(Self::slot_of(value)));
    }
}

impl MutableArray for MutablePrimitiveArray {
    open spec fn mut_slots(&self) -> Seq<Option<Scalar>> {
        self.slots()
    }

    closed spec fn mut_dtype(&self) -> ArrowDataType {
        self.dtype
    }

    open spec fn mut_validity(&self) -> Option<Seq<bool>> {
        self.validity_bits()
    }

    fn dtype(&self) -> (d: &ArrowDataType) {
        &self.dtype
    }

    fn len(&self) -> (n: usize) {
        self.values.len()
    }

    fn validity(&self) -> (v: Option<&MutableBitmap>) {
        proof {
            use_type_invariant(self);
        }
        assert(self.mut_validity() == mutable_validity(self.validity));
        self.validity.as_ref()
    }

    fn as_box(&mut self) -> (r: ArrayRef) {
        proof {
            use_type_invariant(&*self);
        }
        let ghost before = self.slots();
        let mut validity: Option<MutableBitmap> = None;
        std::mem::swap(&mut validity, &mut self.validity);
        let mut values: Vec<u32> = Vec::new();
        std::mem::swap(&mut values, &mut self.values);
        let frozen = match validity {
            Some(mut v) => Some(v.freeze()),
            None => None,
        };
        let array = match PrimitiveArray::try_new(self.dtype, Buffer::W32(values), frozen) {
            Some(a) => a,
            None => vstd::pervasive::unreached(),
        };
        proof {
            assert(array.slots() =~= before);
            assert(self.slots() =~= Seq::<Option<Scalar>>::empty());
        }
        ArrayRef::Primitive(array)
    }

    fn push_null(&mut self) {
        self.push(None);
    }

    fn reserve(&mut self, additional: usize)
        ensures
            final(self).spec_values() == old(self).spec_values(),
    {
        proof {
            use_type_invariant(&*self);
        }
        let ghost before = self.slots();
        let mut validity: Option<MutableBitmap> = None;
        std::mem::swap(&mut validity, &mut self.validity);
        let mut values: Vec<u32> = Vec::new();
        std::mem::swap(&mut values, &mut self.values);
        values.reserve(additional);
        *self = MutablePrimitiveArray { dtype: self.dtype, values, validity };
        assert(self.slots() =~= before);
    }

    fn shrink_to_fit(&mut self)
        ensures
            final(self).spec_values() == old(self).spec_values(),
    {
        proof {
            use_type_invariant(&*self);
        }
        let ghost before = self.slots();
        let mut validity: Option<MutableBitmap> = None;
        std::mem::swap(&mut validity, &mut self.validity);
        let mut values: Vec<u32> = Vec::new();
        std::mem::swap(&mut values, &mut self.values);
        shrink_vec(&mut values);
        *self = MutablePrimitiveArray { dtype: self.dtype, values, validity };
        assert(self.slots() =~= before);
    }
}

impl PushUnchecked<Option<u32>> for MutablePrimitiveArray {
    open spec fn pushed(&self) -> Seq<Option<u32>> {
        Seq::new(
            self.slots().len(),
            |i: int|
                match self.slots()[i] {
                    Some(Scalar::Bits(bits)) => Some(bits as u32),
                    _ => None,
                },
        )
    }

    open spec fn admits(&self, item: Option<u32>) -> bool {
        true
    }

    fn push_unchecked(&mut self, item: Option<u32>) {
        let ghost before = self.pushed();
        self.push(item);
        assert(self.pushed() =~= before.push(item));
    }
}

} // verus!
