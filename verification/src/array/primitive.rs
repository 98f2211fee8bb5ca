//! Arrays of fixed-width values.
use vstd::prelude::*;
use vstd::slice::slice_subrange;
use vstd::slice::slice_to_vec;
use crate::array::{Array, ArrayRef, Chunk, Scalar, slot_is_null, validity_view};
use crate::bitmap::Bitmap;
use crate::datatypes::{ArrowDataType, BitWidth, PhysicalType};

verus! {

/// A run of bit patterns of one width.
#[derive(Debug)]
pub enum Buffer {
    W32(Vec<u32>),
    W64(Vec<u64>),
    W128(Vec<u128>),
}

impl Buffer {
    /// The number of patterns.
    pub open spec fn spec_len(&self) -> nat {
        match self {
            Buffer::W32(v) => v@.len(),
            Buffer::W64(v) => v@.len(),
            Buffer::W128(v) => v@.len(),
        }
    }

    /// The width of the patterns.
    pub open spec fn spec_width(&self) -> BitWidth {
        match self {
            Buffer::W32(_) => BitWidth::W32,
            Buffer::W64(_) => BitWidth::W64,
            Buffer::W128(_) => BitWidth::W128,
        }
    }

    /// The numbers that the patterns spell.
    pub open spec fn bits(&self) -> Seq<int> {
        match self {
            Buffer::W32(v) => Seq::new(v@.len(), |i: int| v@[i] as int),
            Buffer::W64(v) => Seq::new(v@.len(), |i: int| v@[i] as int),
            Buffer::W128(v) => Seq::new(v@.len(), |i: int| v@[i] as int),
        }
    }

    pub fn len(&self) -> (n: usize)
        ensures
            n == self.spec_len(),
    {
        match self {
            Buffer::W32(v) => v.len(),
            Buffer::W64(v) => v.len(),
            Buffer::W128(v) => v.len(),
        }
    }

    pub fn width(&self) -> (w: BitWidth)
        ensures
            w == self.spec_width(),
    {
        match self {
            Buffer::W32(_) => BitWidth::W32,
            Buffer::W64(_) => BitWidth::W64,
            Buffer::W128(_) => BitWidth::W128,
        }
    }

    /// A buffer of the given width without patterns.
    pub fn new_empty(width: BitWidth) -> (b: Buffer)
        ensures
            b.spec_width() == width,
            b.spec_len() == 0,
    {
        match width {
            BitWidth::W32 => Buffer::W32(Vec::new()),
            BitWidth::W64 => Buffer::W64(Vec::new()),
            BitWidth::W128 => Buffer::W128(Vec::new()),
        }
    }

    /// A buffer of `length` patterns of the given width, every bit unset.
    pub fn new_zeroed(width: BitWidth, length: usize) -> (b: Buffer)
        ensures
            b.spec_width() == width,
            b.spec_len() == length,
            b.bits() == Seq::new(length as nat, |i: int| 0int),
    {
        let b = match width {
            BitWidth::W32 => Buffer::W32(vec![0u32; length]),
            BitWidth::W64 => Buffer::W64(vec![0u64; length]),
            BitWidth::W128 => Buffer::W128(vec![0u128; length]),
        };
        assert(b.bits() =~= Seq::new(length as nat, |i: int| 0int));
        b
    }

    /// The `length` patterns from `offset` on.
    pub fn sliced(&self, offset: usize, length: usize) -> (b: Buffer)
        requires
            offset + length <= self.spec_len(),
        ensures
            b.spec_width() == self.spec_width(),
            b.bits() == self.bits().subrange(offset as int, offset + length),
            match (*self, b) {
                (Buffer::W32(v), Buffer::W32(w)) => w@ == v@.subrange(
                    offset as int,
                    offset + length,
                ),
                (Buffer::W64(v), Buffer::W64(w)) => w@ == v@.subrange(
                    offset as int,
                    offset + length,
                ),
                (Buffer::W128(v), Buffer::W128(w)) => w@ == v@.subrange(
                    offset as int,
                    offset + length,
                ),
                _ => false,
            },
    {
        let total = self.len();
        assert(offset + length <= total);
        let b = match self {
            Buffer::W32(v) => Buffer::W32(
                slice_to_vec(slice_subrange(v.as_slice(), offset, offset + length)),
            ),
            Buffer::W64(v) => Buffer::W64(
                slice_to_vec(slice_subrange(v.as_slice(), offset, offset + length)),
            ),
            Buffer::W128(v) => Buffer::W128(
                slice_to_vec(slice_subrange(v.as_slice(), offset, offset + length)),
            ),
        };
        assert(b.bits() =~= self.bits().subrange(offset as int, offset + length));
        b
    }

    /// A copy of this buffer.
    pub fn duplicate(&self) -> (b: Buffer)
        ensures
            b.spec_width() == self.spec_width(),
            b.spec_len() == self.spec_len(),
            b.bits() == self.bits(),
    {
        match self {
            Buffer::W32(v) => {
                let w = slice_to_vec(v.as_slice());
                assert(w@ =~= v@);
                Buffer::W32(w)
            },
            Buffer::W64(v) => {
                let w = slice_to_vec(v.as_slice());
                assert(w@ =~= v@);
                Buffer::W64(w)
            },
            Buffer::W128(v) => {
                let w = slice_to_vec(v.as_slice());
                assert(w@ =~= v@);
                Buffer::W128(w)
            },
        }
    }
}

/// The slots of a fixed-width array with the given values and validity.
pub open spec fn primitive_slots(bits: Seq<int>, validity: Option<Seq<bool>>) -> Seq<
    Option<Scalar>,
> {
    Seq::new(
        bits.len(),
        |i: int|
            if slot_is_null(validity, i) {
                None
            } else {
                Some(Scalar::Bits(bits[i]))
            },
    )
}

/// An array of fixed-width values, each held as its bit pattern.
#[derive(Debug)]
pub struct PrimitiveArray {
    dtype: ArrowDataType,
    values: Buffer,
    validity: Option<Bitmap>,
}

impl PrimitiveArray {
    #[verifier::type_invariant]
    closed spec fn inv(&self) -> bool {
        &&& self.dtype.spec_width() == Some(self.values.spec_width())
        &&& self.validity matches Some(v) ==> v@.len() == self.values.spec_len()
    }

    /// The values, slot by slot, as the numbers that their bit patterns
    /// spell. The value of a null slot is arbitrary.
    pub closed spec fn bits(&self) -> Seq<int> {
        self.values.bits()
    }

    /// The width of the values.
    pub closed spec fn width(&self) -> BitWidth {
        self.values.spec_width()
    }

    /// What the array holds, slot by slot.
    pub closed spec fn slots(&self) -> Seq<Option<Scalar>> {
        primitive_slots(self.values.bits(), validity_view(self.validity))
    }

    /// The data type.
    pub closed spec fn data_type(&self) -> ArrowDataType {
        self.dtype
    }

    /// The validity bits.
    pub closed spec fn validity_bits(&self) -> Option<Seq<bool>> {
        validity_view(self.validity)
    }

    /// An array of the given values, if `dtype` has their width and the
    /// validity, where there is one, has one bit per value.
    pub fn try_new(dtype: ArrowDataType, values: Buffer, validity: Option<Bitmap>) -> (r: Option<
        Self,
    >)
        ensures
            r is Some <==> dtype.spec_width() == Some(values.spec_width()) && (
            validity matches Some(v) ==> v@.len() == values.spec_len()),
            r matches Some(a) ==> a.data_type() == dtype && a.bits() == values.bits()
                && a.width() == values.spec_width() && a.validity_bits() == validity_view(
                validity,
            ) && a.slots() == primitive_slots(values.bits(), validity_view(validity)),
    {
        let fits = match dtype.to_physical_type() {
            PhysicalType::Primitive(p) => p.width() == values.width(),
            _ => false,
        };
        if !fits {
            return None;
        }
        let aligned = match &validity {
            Some(v) => v.len() == values.len(),
            None => true,
        };
        if !aligned {
            return None;
        }
        Some(PrimitiveArray { dtype, values, validity })
    }

    /// An array without slots.
    pub fn new_empty(dtype: ArrowDataType) -> (a: Self)
        requires
            dtype.spec_width() is Some,
        ensures
            a.data_type() == dtype,
            a.slots() == Seq::<Option<Scalar>>::empty(),
            a.validity_bits() is None,
    {
        let width = match dtype.to_physical_type() {
            PhysicalType::Primitive(p) => p.width(),
            _ => BitWidth::W32,
        };
        let a = PrimitiveArray { dtype, values: Buffer::new_empty(width), validity: None };
        assert(a.slots() =~= Seq::<Option<Scalar>>::empty());
        a
    }

    /// An array of `length` null slots.
    pub fn new_null(dtype: ArrowDataType, length: usize) -> (a: Self)
        requires
            dtype.spec_width() is Some,
        ensures
            a.data_type() == dtype,
            a.slots() == Seq::new(length as nat, |i: int| None::<Scalar>),
            a.validity_bits() == Some(Seq::new(length as nat, |i: int| false)),
    {
        let width = match dtype.to_physical_type() {
            PhysicalType::Primitive(p) => p.width(),
            _ => BitWidth::W32,
        };
        let a = PrimitiveArray {
            dtype,
            values: Buffer::new_zeroed(width, length),
            validity: Some(Bitmap::new_zeroed(length)),
        };
        assert(a.slots() =~= Seq::new(length as nat, |i: int| None::<Scalar>));
        a
    }

    /// The array of the given row addresses, of which some may be absent.
    pub fn from_indices(ids: &Vec<Option<u32>>) -> (a: Self)
        ensures
            a.data_type() == ArrowDataType::UInt32,
            a.slots() == Seq::new(
                ids@.len(),
                |i: int|
                    match ids@[i] {
                        Some(r) => Some(Scalar::Bits(r as int)),
                        None => None,
                    },
            ),
    {
        let mut values: Vec<u32> = Vec::with_capacity(ids.len());
        let mut valid: Vec<bool> = Vec::with_capacity(ids.len());
        let mut i: usize = 0;
        while i < ids.len()
            invariant
                i <= ids@.len(),
                values@.len() == i,
                valid@.len() == i,
                forall|j: int| 0 <= j < i ==> #[trigger] valid@[j] == (ids@[j] is Some),
                forall|j: int|
                    0 <= j < i && ids@[j] is Some ==> #[trigger] values@[j] == ids@[j]->0,
            decreases ids.len() - i,
        {
            match ids[i] {
                Some(r) => {
                    values.push(r);
                    valid.push(true);
                },
                None => {
                    values.push(0);
                    valid.push(false);
                },
            }
            i += 1;
        }
        let a = PrimitiveArray {
            dtype: ArrowDataType::UInt32,
            values: Buffer::W32(values),
            validity: Some(Bitmap::from_vec(valid)),
        };
        assert(a.slots() =~= Seq::new(
            ids@.len(),
            |i: int|
                match ids@[i] {
                    Some(r) => Some(Scalar::Bits(r as int)),
                    None => None,
                },
        ));
        a
    }

    /// The values of the array.
    pub fn values(&self) -> (b: &Buffer)
        ensures
            b.bits() == self.bits(),
            b.spec_width() == self.width(),
            b.spec_len() == self.slots().len(),
            self.slots() == primitive_slots(b.bits(), self.validity_bits()),
            self.data_type().spec_width() == Some(b.spec_width()),
    {
        proof {
            use_type_invariant(self);
        }
        &self.values
    }

    /// A copy of this array.
    pub fn duplicate(&self) -> (a: Self)
        ensures
            a.data_type() == self.data_type(),
            a.bits() == self.bits(),
            a.width() == self.width(),
            a.validity_bits() == self.validity_bits(),
            a.slots() == self.slots(),
    {
        proof {
            use_type_invariant(self);
        }
        let validity = match &self.validity {
            Some(v) => Some(v.duplicate()),
            None => None,
        };
        PrimitiveArray { dtype: self.dtype, values: self.values.duplicate(), validity }
    }

    /// This array with another validity. The bitmap, where there is one,
    /// must have one bit per slot.
    pub fn with_validity(&self, validity: Option<Bitmap>) -> (a: Self)
        requires
            validity matches Some(v) ==> v@.len() == self.slots().len(),
        ensures
            a.data_type() == self.data_type(),
            a.bits() == self.bits(),
            a.width() == self.width(),
            a.validity_bits() == validity_view(validity),
            a.slots() == primitive_slots(self.bits(), validity_view(validity)),
    {
        proof {
            use_type_invariant(self);
        }
        PrimitiveArray { dtype: self.dtype, values: self.values.duplicate(), validity }
    }

    /// Narrows this array to the `length` slots from `offset` on.
    pub fn slice_in_place(&mut self, offset: usize, length: usize)
        requires
            offset + length <= old(self).slots().len(),
        ensures
            final(self).slots() == old(self).slots().subrange(offset as int, offset + length),
            final(self).data_type() == old(self).data_type(),
            final(self).validity_bits() == crate::array::sliced_validity(
                old(self).validity_bits(),
                offset as int,
                length as int,
            ),
            final(self).bits() == old(self).bits().subrange(offset as int, offset + length),
            final(self).width() == old(self).width(),
    {
        proof {
            use_type_invariant(&*self);
        }
        let values = self.values.sliced(offset, length);
        let validity = match &self.validity {
            Some(v) => Some(v.sliced(offset, length)),
            None => None,
        };
        let ghost before = self.slots();
        *self = PrimitiveArray { dtype: self.dtype, values, validity };
        assert(self.slots() =~= before.subrange(offset as int, offset + length));
    }
}

impl Array for PrimitiveArray {
    open spec fn spec_slots(&self) -> Seq<Option<Scalar>> {
        self.slots()
    }

    open spec fn spec_dtype(&self) -> ArrowDataType {
        self.data_type()
    }

    open spec fn spec_validity(&self) -> Option<Seq<bool>> {
        self.validity_bits()
    }

    fn len(&self) -> (n: usize) {
        self.values.len()
    }

    fn dtype(&self) -> (d: &ArrowDataType) {
        &self.dtype
    }

    fn validity(&self) -> (v: Option<&Bitmap>) {
        proof {
            use_type_invariant(self);
        }
        self.validity.as_ref()
    }

    fn slice(&mut self, offset: usize, length: usize) {
        self.slice_in_place(offset, length)
    }

    fn to_boxed(&self) -> (r: ArrayRef) {
        ArrayRef::Primitive(self.duplicate())
    }
}

impl Chunk for PrimitiveArray {
    fn sliced_chunk(&self, offset: usize, length: usize) -> (r: Self) {
        let mut r = self.duplicate();
        r.slice_in_place(offset, length);
        r
    }
}

} // verus!
