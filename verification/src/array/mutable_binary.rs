//! Arrays of byte strings that can grow.
use vstd::prelude::*;
use crate::array::binary::{binary_slots, offsets_ok};
use crate::array::mutable::mutable_validity;
use crate::array::{
    ArrayRef, BinaryArray, MutableArray, Scalar, TryExtend, TryExtendFromSelf, TryPush,
};
use crate::bitmap::{shrink_vec, MutableBitmap};
use crate::datatypes::ArrowDataType;
use crate::error::ArrayError;

verus! {

/// The most bytes that the offsets of an array can address.
pub const MAX_BYTES: u64 = 0x7fff_ffff_ffff_ffff;

/// The number of bytes in the first `n` of the given items.
pub open spec fn total_bytes(items: Seq<Option<&[u8]>>, n: int) -> int
    decreases n,
{
    if n <= 0 {
        0
    } else {
        total_bytes(items, n - 1) + match items[n - 1] {
            Some(v) => v@.len() as int,
            None => 0,
        }
    }
}

/// The slot that holds an optional byte string.
pub open spec fn slot_of_bytes(item: Option<&[u8]>) -> Option<Scalar> {
    match item {
        Some(v) => Some(Scalar::Bytes(v@)),
        None => None,
    }
}

/// An array of byte strings that can grow, up to [`MAX_BYTES`] bytes. It has
/// no validity until a null is pushed.
#[derive(Debug)]
pub struct MutableBinaryArray {
    dtype: ArrowDataType,
    offsets: Vec<i64>,
    values: Vec<u8>,
    validity: Option<MutableBitmap>,
}

impl MutableBinaryArray {
    #[verifier::type_invariant]
    closed spec fn inv(&self) -> bool {
        &&& self.dtype.is_bytes()
        &&& offsets_ok(self.offsets@, self.values@.len())
        &&& self.offsets@[self.offsets@.len() - 1] == self.values@.len()
        &&& self.values@.len() <= MAX_BYTES
        &&& self.validity matches Some(v) ==> v@.len() == self.offsets@.len() - 1
    }

    /// What the array holds, slot by slot.
    pub closed spec fn slots(&self) -> Seq<Option<Scalar>> {
        binary_slots(self.offsets@, self.values@, mutable_validity(self.validity))
    }

    /// The data type.
    pub closed spec fn data_type(&self) -> ArrowDataType {
        self.dtype
    }

    /// The validity bits.
    pub closed spec fn validity_bits(&self) -> Option<Seq<bool>> {
        mutable_validity(self.validity)
    }

    /// The number of bytes that the array holds.
    pub closed spec fn byte_len(&self) -> nat {
        self.values@.len()
    }

    /// An array of type `dtype` without slots.
    pub fn new(dtype: ArrowDataType) -> (a: Self)
        requires
            dtype.is_bytes(),
        ensures
            a.slots() == Seq::<Option<Scalar>>::empty(),
            a.data_type() == dtype,
            a.validity_bits() is None,
            a.byte_len() == 0,
    {
        let mut offsets: Vec<i64> = Vec::new();
        offsets.push(0);
        let a = MutableBinaryArray { dtype, offsets, values: Vec::new(), validity: None };
        assert(a.slots() =~= Seq::<Option<Scalar>>::empty());
        a
    }

    /// The number of bytes that the array holds. There are no more than
    /// [`MAX_BYTES`].
    pub fn bytes(&self) -> (n: u64)
        ensures
            n == self.byte_len(),
            n <= MAX_BYTES,
    {
        proof {
            use_type_invariant(self);
        }
        self.values.len() as u64
    }

    /// Adds a null slot at the end.
    pub fn push_null_slot(&mut self)
        ensures
            final(self).slots() == old(self).slots().push(None),
            final(self).data_type() == old(self).data_type(),
            final(self).byte_len() == old(self).byte_len(),
    {
        proof {
            use_type_invariant(&*self);
        }
        let ghost before = self.slots();
        let dtype = self.dtype;
        let mut held = MutableBinaryArray::new(dtype);
        std::mem::swap(&mut held, self);
        let MutableBinaryArray { dtype: _, offsets, values, validity } = held;
        let mut offsets = offsets;
        let slots = offsets.len() - 1;
        let last = offsets[slots];
        offsets.push(last);
        let mut validity = match validity {
            Some(v) => v,
            None => MutableBitmap::from_len_value(slots, true),
        };
        validity.push(false);
        *self = MutableBinaryArray { dtype, offsets, values, validity: Some(validity) };
        assert(self.slots() =~= before.push(None));
    }

    /// Adds a byte string at the end. There must be room for its bytes.
    pub fn push_value(&mut self, value: &[u8])
        requires
            old(self).byte_len() + value@.len() <= MAX_BYTES,
        ensures
            final(self).slots() == old(self).slots().push(Some(Scalar::Bytes(value@))),
            final(self).data_type() == old(self).data_type(),
            final(self).byte_len() == old(self).byte_len() + value@.len(),
    {
        proof {
            use_type_invariant(&*self);
        }
        let ghost before = self.slots();
        let dtype = self.dtype;
        let mut held = MutableBinaryArray::new(dtype);
        std::mem::swap(&mut held, self);
        let MutableBinaryArray { dtype: _, offsets, values, validity } = held;
        let mut offsets = offsets;
        let mut values = values;
        let ghost bytes = values@;
        let mut i: usize = 0;
        while i < value.len()
            invariant
                i <= value@.len(),
                bytes.len() + value@.len() <= MAX_BYTES,
                values@ == bytes + value@.take(i as int),
            decreases value.len() - i,
        {
            values.push(value[i]);
            i += 1;
            assert(values@ =~= bytes + value@.take(i as int));
        }
        assert(value@.take(i as int) =~= value@);
        offsets.push(values.len() as i64);
        let validity = match validity {
            Some(mut v) => {
                v.push(true);
                Some(v)
            },
            None => None,
        };
        *self = MutableBinaryArray { dtype, offsets, values, validity };
        proof {
            let slot = Some(Scalar::Bytes(value@));
            assert(self.slots().len() == before.len() + 1);
            assert forall|j: int| 0 <= j < self.slots().len() implies self.slots()[j]
                == before.push(slot)[j] by {
                if j < before.len() {
                    assert(self.values@.subrange(
                        self.offsets@[j] as int,
                        self.offsets@[j + 1] as int,
                    ) =~= bytes.subrange(self.offsets@[j] as int, self.offsets@[j + 1] as int));
                } else {
                    assert(self.values@.subrange(
                        self.offsets@[j] as int,
                        self.offsets@[j + 1] as int,
                    ) =~= value@);
                }
            }
            assert(self.slots() =~= before.push(slot));
        }
    }

    /// The byte string of slot `i`, or `None` where the slot is null.
    pub fn get(&self, i: usize) -> (s: Option<&[u8]>)
        requires
            i < self.slots().len(),
        ensures
            slot_of_bytes(s) == self.slots()[i as int],
    {
        proof {
            use_type_invariant(self);
        }
        let valid = match &self.validity {
            Some(b) => b.get(i),
            None => true,
        };
        let slots = self.offsets.len() - 1;
        assert(i < slots);
        if valid {
            let start = self.offsets[i];
            let end = self.offsets[i + 1];
            let bytes = self.values.len();
            assert(0 <= start <= end <= bytes);
            Some(vstd::slice::slice_subrange(self.values.as_slice(), start as usize, end as usize))
        } else {
            None
        }
    }
}

impl MutableArray for MutableBinaryArray {
    open spec fn mut_slots(&self) -> Seq<Option<Scalar>> {
        self.slots()
    }

    open spec fn mut_dtype(&self) -> ArrowDataType {
        self.data_type()
    }

    open spec fn mut_validity(&self) -> Option<Seq<bool>> {
        self.validity_bits()
    }

    fn dtype(&self) -> (d: &ArrowDataType) {
        &self.dtype
    }

    fn len(&self) -> (n: usize) {
        proof {
            use_type_invariant(self);
        }
        self.offsets.len() - 1
    }

    fn validity(&self) -> (v: Option<&MutableBitmap>) {
        proof {
            use_type_invariant(self);
        }
        assert(self.mut_validity() == mutable_validity(self.validity));
        self.validity.as_ref()
    }

    fn as_box(&mut self) -> (r: ArrayRef) {
        proof {
            use_type_invariant(&*self);
        }
        let dtype = self.dtype;
        let mut held = MutableBinaryArray::new(dtype);
        std::mem::swap(&mut held, self);
        let MutableBinaryArray { dtype: _, offsets, values, validity } = held;
        let frozen = match validity {
            Some(mut v) => Some(v.freeze()),
            None => None,
        };
        match BinaryArray::try_new(dtype, offsets, values, frozen) {
            Some(a) => ArrayRef::Binary(a),
            None => vstd::pervasive::unreached(),
        }
    }

    fn push_null(&mut self) {
        self.push_null_slot();
    }

    fn reserve(&mut self, additional: usize)
        ensures
            final(self).byte_len() == old(self).byte_len(),
    {
        proof {
            use_type_invariant(&*self);
        }
        let ghost before = self.slots();
        let dtype = self.dtype;
        let mut held = MutableBinaryArray::new(dtype);
        std::mem::swap(&mut held, self);
        let MutableBinaryArray { dtype: _, offsets, values, validity } = held;
        let mut offsets = offsets;
        offsets.reserve(additional);
        *self = MutableBinaryArray { dtype, offsets, values, validity };
        assert(self.slots() =~= before);
    }

    fn shrink_to_fit(&mut self)
        ensures
            final(self).byte_len() == old(self).byte_len(),
    {
        proof {
            use_type_invariant(&*self);
        }
        let ghost before = self.slots();
        let dtype = self.dtype;
        let mut held = MutableBinaryArray::new(dtype);
        std::mem::swap(&mut held, self);
        let MutableBinaryArray { dtype: _, offsets, values, validity } = held;
        let mut offsets = offsets;
        let mut values = values;
        shrink_vec(&mut offsets);
        shrink_vec(&mut values);
        *self = MutableBinaryArray { dtype, offsets, values, validity };
        assert(self.slots() =~= before);
    }
}

impl<'a> TryPush<Option<&'a [u8]>> for MutableBinaryArray {
    open spec fn has_room(&self, item: Option<&'a [u8]>) -> bool {
        match item {
            Some(v) => self.byte_len() + v@.len() <= MAX_BYTES,
            None => true,
        }
    }

    open spec fn slot_of(item: Option<&'a [u8]>) -> Option<Scalar> {
        slot_of_bytes(item)
    }

    fn try_push(&mut self, item: Option<&'a [u8]>) -> (r: Result<(), ArrayError>) {
        match item {
            Some(v) => {
                if v.len() as u64 > MAX_BYTES - self.bytes() {
                    return Err(ArrayError::Overflow);
                }
                self.push_value(v);
            },
            None => {
                self.push_null_slot();
            },
        }
        Ok(())
    }
}

/// The bytes of the first items are no more than the bytes of them all.
pub proof fn lemma_total_bytes_grows(items: Seq<Option<&[u8]>>, n: int, m: int)
    requires
        0 <= n <= m,
    ensures
        0 <= total_bytes(items, n) <= total_bytes(items, m),
    decreases m - n,
{
    if n < m {
        lemma_total_bytes_grows(items, n, m - 1);
    } else {
        lemma_total_bytes_grows_from_zero(items, n);
    }
}

/// A run of items has no fewer bytes than none.
pub proof fn lemma_total_bytes_grows_from_zero(items: Seq<Option<&[u8]>>, n: int)
    requires
        0 <= n,
    ensures
        0 <= total_bytes(items, n),
    decreases n,
{
    if n > 0 {
        lemma_total_bytes_grows_from_zero(items, n - 1);
    }
}

impl<'a> TryExtend<Option<&'a [u8]>> for MutableBinaryArray {
    open spec fn has_room_for(&self, items: Seq<Option<&'a [u8]>>) -> bool {
        self.byte_len() + total_bytes(items, items.len() as int) <= MAX_BYTES
    }

    fn try_extend(&mut self, items: &[Option<&'a [u8]>]) -> (r: Result<(), ArrayError>) {
        let held = self.bytes();
        let mut more: u64 = 0;
        let mut i: usize = 0;
        while i < items.len()
            invariant
                i <= items@.len(),
                held == self.byte_len() <= MAX_BYTES,
                more == total_bytes(items@, i as int),
                held + more <= MAX_BYTES,
            decreases items.len() - i,
        {
            match items[i] {
                Some(v) => {
                    if v.len() as u64 > MAX_BYTES - held - more {
                        proof {
                            lemma_total_bytes_grows(items@, i + 1, items@.len() as int);
                        }
                        return Err(ArrayError::Overflow);
                    }
                    more = more + v.len() as u64;
                },
                None => {},
            }
            i += 1;
        }
        let ghost before = self.slots();
        let mut i: usize = 0;
        while i < items.len()
            invariant
                i <= items@.len(),
                held + total_bytes(items@, items@.len() as int) <= MAX_BYTES,
                self.byte_len() == held + total_bytes(items@, i as int),
                self.data_type() == old(self).data_type(),
                self.slots() == before + Seq::new(i as nat, |j: int| slot_of_bytes(items@[j])),
            decreases items.len() - i,
        {
            proof {
                lemma_total_bytes_grows(items@, i + 1, items@.len() as int);
            }
            match items[i] {
                Some(v) => self.push_value(v),
                None => self.push_null_slot(),
            }
            i += 1;
            assert(self.slots() =~= before + Seq::new(
                i as nat,
                |j: int| slot_of_bytes(items@[j]),
            ));
        }
        Ok(())
    }
}

impl TryExtendFromSelf for MutableBinaryArray {
    open spec fn has_room_for_slots(&self, other: &Self) -> bool {
        self.byte_len() + other.byte_len() <= MAX_BYTES
    }

    fn try_extend_from_self(&mut self, other: &Self) -> (r: Result<(), ArrayError>) {
        proof {
            use_type_invariant(other);
        }
        let held = self.bytes();
        if other.bytes() > MAX_BYTES - held {
            return Err(ArrayError::Overflow);
        }
        let ghost before = self.slots();
        let ghost added = other.slots();
        let n = MutableArray::len(other);
        let mut i: usize = 0;
        while i < n
            invariant
                i <= n == added.len(),
                added == other.slots(),
                n == other.offsets@.len() - 1,
                offsets_ok(other.offsets@, other.values@.len()),
                held + other.values@.len() <= MAX_BYTES,
                self.byte_len() <= held + other.offsets@[i as int],
                self.data_type() == old(self).data_type(),
                self.slots() == before + added.take(i as int),
            decreases n - i,
        {
            let item = other.get(i);
            match item {
                Some(v) => {
                    assert(v@.len() == other.offsets@[i + 1] - other.offsets@[i as int]);
                    self.push_value(v);
                },
                None => self.push_null_slot(),
            }
            i += 1;
            assert(self.slots() =~= before + added.take(i as int));
        }
        assert(added.take(n as int) =~= added);
        Ok(())
    }
}

} // verus!
