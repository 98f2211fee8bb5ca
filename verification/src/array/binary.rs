//! Arrays of byte strings.
use vstd::prelude::*;
use vstd::slice::slice_subrange;
use vstd::slice::slice_to_vec;
use crate::array::{Array, ArrayRef, Chunk, Scalar, slot_is_null, validity_view};
use crate::bitmap::Bitmap;
use crate::datatypes::ArrowDataType;

verus! {

/// Whether `offsets` delimit consecutive byte strings within `values_len`
/// bytes: there is at least one offset, none is negative, they do not
/// decrease, and the last is within the values.
pub open spec fn offsets_ok(offsets: Seq<i64>, values_len: nat) -> bool {
    &&& offsets.len() >= 1
    &&& forall|i: int| 0 <= i < offsets.len() ==> 0 <= #[trigger] offsets[i] <= values_len
    &&& forall|i: int, j: int| 0 <= i <= j < offsets.len() ==> offsets[i] <= offsets[j]
}

/// The byte string that the offsets `i` and `i + 1` delimit.
pub open spec fn bytes_at(offsets: Seq<i64>, values: Seq<u8>, i: int) -> Seq<u8> {
    values.subrange(offsets[i] as int, offsets[i + 1] as int)
}

/// The slots of a byte-string array with the given offsets, values and validity.
pub open spec fn binary_slots(
    offsets: Seq<i64>,
    values: Seq<u8>,
    validity: Option<Seq<bool>>,
) -> Seq<Option<Scalar>> {
    Seq::new(
        (offsets.len() - 1) as nat,
        |i: int|
            if slot_is_null(validity, i) {
                None
            } else {
                Some(Scalar::Bytes(bytes_at(offsets, values, i)))
            },
    )
}

/// An array of byte strings, laid out as one run of bytes and the offsets
/// at which each string begins.
#[derive(Debug)]
pub struct BinaryArray {
    dtype: ArrowDataType,
    offsets: Vec<i64>,
    values: Vec<u8>,
    validity: Option<Bitmap>,
}

impl BinaryArray {
    #[verifier::type_invariant]
    closed spec fn inv(&self) -> bool {
        &&& self.dtype.is_bytes()
        &&& offsets_ok(self.offsets@, self.values@.len())
        &&& self.validity matches Some(v) ==> v@.len() == self.offsets@.len() - 1
    }

    /// The offsets: one more than there are slots.
    pub closed spec fn spec_offsets(&self) -> Seq<i64> {
        self.offsets@
    }

    /// The bytes of all the strings, one after another.
    pub closed spec fn spec_values(&self) -> Seq<u8> {
        self.values@
    }

    /// What the array holds, slot by slot.
    pub closed spec fn slots(&self) -> Seq<Option<Scalar>> {
        binary_slots(self.offsets@, self.values@, validity_view(self.validity))
    }

    /// The data type.
    pub closed spec fn data_type(&self) -> ArrowDataType {
        self.dtype
    }

    /// The validity bits.
    pub closed spec fn validity_bits(&self) -> Option<Seq<bool>> {
        validity_view(self.validity)
    }

    /// The byte string of slot `i`. For a null slot it is arbitrary.
    pub open spec fn spec_value(&self, i: int) -> Seq<u8> {
        bytes_at(self.spec_offsets(), self.spec_values(), i)
    }

    /// The byte string of slot `i`, or `None` where the slot is null.
    pub open spec fn spec_get(&self, i: int) -> Option<Seq<u8>> {
        if slot_is_null(self.validity_bits(), i) {
            None
        } else {
            Some(self.spec_value(i))
        }
    }

    /// An array with the given layout, if the type is one of byte strings,
    /// the offsets delimit strings within the values, and the validity,
    /// where there is one, has one bit per string.
    pub fn try_new(
        dtype: ArrowDataType,
        offsets: Vec<i64>,
        values: Vec<u8>,
        validity: Option<Bitmap>,
    ) -> (r: Option<Self>)
        ensures
            r is Some <==> dtype.is_bytes() && offsets_ok(offsets@, values@.len()) && (
            validity matches Some(v) ==> v@.len() == offsets@.len() - 1),
            r matches Some(a) ==> a.data_type() == dtype && a.spec_offsets() == offsets@
                && a.spec_values() == values@ && a.validity_bits() == validity_view(validity)
                && a.slots() == binary_slots(offsets@, values@, validity_view(validity)),
    {
        let bytes = match dtype {
            ArrowDataType::LargeBinary | ArrowDataType::LargeUtf8 => true,
            _ => false,
        };
        if !bytes || offsets.len() == 0 {
            return None;
        }
        if offsets[0] < 0 {
            assert(!(0 <= offsets@[0]));
            return None;
        }
        let mut i: usize = 1;
        while i < offsets.len()
            invariant
                1 <= i <= offsets.len(),
                forall|k: int| 0 <= k < i ==> 0 <= #[trigger] offsets@[k],
                forall|k: int, l: int| 0 <= k <= l < i ==> offsets@[k] <= offsets@[l],
            decreases offsets.len() - i,
        {
            if offsets[i] < offsets[i - 1] {
                assert(!(offsets@[i - 1] <= offsets@[i as int]));
                return None;
            }
            i += 1;
        }
        let last = offsets[offsets.len() - 1];
        if last as u64 > values.len() as u64 {
            assert(!(offsets@[offsets@.len() - 1] <= values@.len()));
            return None;
        }
        let aligned = match &validity {
            Some(v) => v.len() == offsets.len() - 1,
            None => true,
        };
        if !aligned {
            return None;
        }
        Some(BinaryArray { dtype, offsets, values, validity })
    }

    /// An array without slots.
    pub fn new_empty(dtype: ArrowDataType) -> (a: Self)
        requires
            dtype.is_bytes(),
        ensures
            a.data_type() == dtype,
            a.slots().len() == 0,
            a.validity_bits() is None,
    {
        let mut offsets: Vec<i64> = Vec::new();
        offsets.push(0);
        BinaryArray { dtype, offsets, values: Vec::new(), validity: None }
    }

    /// An array of `length` null slots.
    pub fn new_null(dtype: ArrowDataType, length: usize) -> (a: Self)
        requires
            dtype.is_bytes(),
        ensures
            a.data_type() == dtype,
            a.slots() == Seq::new(length as nat, |i: int| None::<Scalar>),
            a.validity_bits() == Some(Seq::new(length as nat, |i: int| false)),
    {
        let mut offsets: Vec<i64> = Vec::new();
        offsets.push(0);
        let mut i: usize = 0;
        while i < length
            invariant
                i <= length,
                offsets@.len() == i + 1,
                forall|k: int| 0 <= k < offsets@.len() ==> offsets@[k] == 0,
            decreases length - i,
        {
            offsets.push(0);
            i += 1;
        }
        let a = BinaryArray {
            dtype,
            offsets,
            values: Vec::new(),
            validity: Some(Bitmap::new_zeroed(length)),
        };
        assert(a.slots() =~= Seq::new(length as nat, |i: int| None::<Scalar>));
        a
    }

    /// The bytes of all the strings, one after another.
    pub fn bytes(&self) -> (v: &[u8])
        ensures
            v@ == self.spec_values(),
    {
        self.values.as_slice()
    }

    /// The offsets: one more than there are slots. They do not decrease,
    /// and they lie within the bytes.
    pub fn offsets_slice(&self) -> (o: &[i64])
        ensures
            o@ == self.spec_offsets(),
            o@.len() == self.slots().len() + 1,
            offsets_ok(o@, self.spec_values().len()),
    {
        proof {
            use_type_invariant(self);
        }
        self.offsets.as_slice()
    }

    /// The byte string of slot `i`.
    pub fn value(&self, i: usize) -> (s: &[u8])
        requires
            i < self.slots().len(),
        ensures
            s@ == self.spec_value(i as int),
    {
        proof {
            use_type_invariant(self);
        }
        let slots = self.offsets.len() - 1;
        let bytes = self.values.len();
        assert(i < slots);
        let start = self.offsets[i];
        let end = self.offsets[i + 1];
        assert(0 <= start <= end <= bytes);
        slice_subrange(self.values.as_slice(), start as usize, end as usize)
    }

    /// The byte string of slot `i`, or `None` where the slot is null.
    pub fn get(&self, i: usize) -> (s: Option<&[u8]>)
        requires
            i < self.slots().len(),
        ensures
            s is Some == self.spec_get(i as int) is Some,
            s matches Some(b) ==> Some(b@) == self.spec_get(i as int),
    {
        proof {
            use_type_invariant(self);
        }
        let valid = match &self.validity {
            Some(b) => b.get_bit(i),
            None => true,
        };
        if valid {
            Some(self.value(i))
        } else {
            None
        }
    }

    /// A copy of this array.
    pub fn duplicate(&self) -> (a: Self)
        ensures
            a.data_type() == self.data_type(),
            a.spec_offsets() == self.spec_offsets(),
            a.spec_values() == self.spec_values(),
            a.validity_bits() == self.validity_bits(),
            a.slots() == self.slots(),
    {
        proof {
            use_type_invariant(self);
        }
        let validity = match &self.validity {
            Some(v) => Some(v.duplicate()),
            None => None,
        };
        BinaryArray {
            dtype: self.dtype,
            offsets: slice_to_vec(self.offsets.as_slice()),
            values: slice_to_vec(self.values.as_slice()),
            validity,
        }
    }

    /// This array with another validity. The bitmap, where there is one,
    /// must have one bit per slot.
    pub fn with_validity(&self, validity: Option<Bitmap>) -> (a: Self)
        requires
            validity matches Some(v) ==> v@.len() == self.slots().len(),
        ensures
            a.data_type() == self.data_type(),
            a.spec_offsets() == self.spec_offsets(),
            a.spec_values() == self.spec_values(),
            a.validity_bits() == validity_view(validity),
            a.slots() == binary_slots(
                self.spec_offsets(),
                self.spec_values(),
                validity_view(validity),
            ),
    {
        proof {
            use_type_invariant(self);
        }
        BinaryArray {
            dtype: self.dtype,
            offsets: slice_to_vec(self.offsets.as_slice()),
            values: slice_to_vec(self.values.as_slice()),
            validity,
        }
    }

    /// Narrows this array to the `length` slots from `offset` on.
    pub fn slice_in_place(&mut self, offset: usize, length: usize)
        requires
            offset + length <= old(self).slots().len(),
        ensures
            final(self).slots() == old(self).slots().subrange(offset as int, offset + length),
            final(self).data_type() == old(self).data_type(),
            final(self).validity_bits() == crate::array::sliced_validity(
                old(self).validity_bits(),
                offset as int,
                length as int,
            ),
            final(self).spec_values() == old(self).spec_values(),
            final(self).spec_offsets() == old(self).spec_offsets().subrange(
                offset as int,
                offset + length + 1,
            ),
    {
        proof {
            use_type_invariant(&*self);
        }
        let total = self.offsets.len();
        assert(offset + length + 1 <= total);
        let offsets = slice_to_vec(
            slice_subrange(self.offsets.as_slice(), offset, offset + length + 1),
        );
        let values = slice_to_vec(self.values.as_slice());
        let validity = match &self.validity {
            Some(v) => Some(v.sliced(offset, length)),
            None => None,
        };
        let ghost before = self.slots();
        *self = BinaryArray { dtype: self.dtype, offsets, values, validity };
        assert(self.slots() =~= before.subrange(offset as int, offset + length));
    }
}

impl Array for BinaryArray {
    open spec fn spec_slots(&self) -> Seq<Option<Scalar>> {
        self.slots()
    }

    open spec fn spec_dtype(&self) -> ArrowDataType {
        self.data_type()
    }

    open spec fn spec_validity(&self) -> Option<Seq<bool>> {
        self.validity_bits()
    }

    fn len(&self) -> (n: usize) {
        proof {
            use_type_invariant(self);
        }
        self.offsets.len() - 1
    }

    fn dtype(&self) -> (d: &ArrowDataType) {
        &self.dtype
    }

    fn validity(&self) -> (v: Option<&Bitmap>) {
        proof {
            use_type_invariant(self);
        }
        self.validity.as_ref()
    }

    fn slice(&mut self, offset: usize, length: usize) {
        self.slice_in_place(offset, length)
    }

    fn to_boxed(&self) -> (r: ArrayRef) {
        ArrayRef::Binary(self.duplicate())
    }
}

/// The slots of a byte-string array are those of its layout and validity.
pub proof fn lemma_binary_slots(a: &BinaryArray)
    ensures
        a.slots() == binary_slots(a.spec_offsets(), a.spec_values(), a.validity_bits()),
        a.slots().len() == (a.spec_offsets().len() - 1) as nat,
{
}

impl Chunk for BinaryArray {
    fn sliced_chunk(&self, offset: usize, length: usize) -> (r: Self) {
        let mut r = self.duplicate();
        r.slice_in_place(offset, length);
        r
    }
}

} // verus!
