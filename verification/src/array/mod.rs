//! Arrays: fixed-length columns of optional values.
//!
//! An array has a length, a data type and an optional validity bitmap; a slot
//! whose validity bit is unset is null. The concrete arrays are
//! [`NullArray`], [`PrimitiveArray`] and [`BinaryArray`]; [`ArrayRef`] holds
//! any one of them.
pub mod binary;
pub mod mutable;
pub mod mutable_binary;
pub mod null;
pub mod primitive;

use vstd::prelude::*;
use crate::bitmap::{Bitmap, count_unset, MutableBitmap};
use crate::datatypes::{ArrowDataType, PhysicalType};
use crate::error::ArrayError;
pub use binary::BinaryArray;
pub use mutable::MutablePrimitiveArray;
pub use mutable_binary::MutableBinaryArray;
pub use null::NullArray;
pub use primitive::{Buffer, PrimitiveArray};

verus! {

/// What a valid slot holds.
pub ghost enum Scalar {
    /// A fixed-width value, as the number its bit pattern spells.
    Bits(int),
    /// A byte string.
    Bytes(Seq<u8>),
}

/// The validity of a slice of an array: the bits of the slice, where there are any.
pub open spec fn sliced_validity(validity: Option<Seq<bool>>, offset: int, length: int) -> Option<
    Seq<bool>,
> {
    match validity {
        Some(v) => Some(v.subrange(offset, offset + length)),
        None => None,
    }
}

/// Whether slot `i` is null under the given validity.
pub open spec fn slot_is_null(validity: Option<Seq<bool>>, i: int) -> bool {
    match validity {
        Some(v) => !v[i],
        None => false,
    }
}

/// The number of null slots of an array with the given type and validity.
pub open spec fn null_count_of(dtype: ArrowDataType, len: nat, validity: Option<Seq<bool>>) -> nat {
    if dtype == ArrowDataType::Null {
        len
    } else {
        match validity {
            Some(v) => count_unset(v, v.len() as int),
            None => 0,
        }
    }
}

/// The number of nulls among the first `n` of the given slots.
pub open spec fn count_nulls<T>(slots: Seq<Option<T>>, n: int) -> nat
    decreases n,
{
    if n <= 0 {
        0
    } else {
        count_nulls(slots, n - 1) + if slots[n - 1] is None {
            1nat
        } else {
            0nat
        }
    }
}

/// The number of the given slots that hold a value.
pub open spec fn count_valid<T>(slots: Seq<Option<T>>) -> int {
    slots.len() - count_nulls(slots, slots.len() as int)
}

/// Slots that are null at the same places have as many nulls.
pub proof fn lemma_count_nulls_same<A, B>(a: Seq<Option<A>>, b: Seq<Option<B>>, n: int)
    requires
        n <= a.len(),
        n <= b.len(),
        forall|i: int| 0 <= i < n ==> (#[trigger] a[i]) is None == b[i] is None,
    ensures
        count_nulls(a, n) == count_nulls(b, n),
    decreases n,
{
    if n > 0 {
        lemma_count_nulls_same(a, b, n - 1);
    }
}

/// The nulls of two runs of slots put together are those of the one and
/// those of the other.
pub proof fn lemma_count_nulls_add<T>(a: Seq<Option<T>>, b: Seq<Option<T>>, n: int)
    requires
        0 <= n <= b.len(),
    ensures
        count_nulls(a + b, a.len() + n) == count_nulls(a, a.len() as int) + count_nulls(b, n),
    decreases n,
{
    if n > 0 {
        lemma_count_nulls_add(a, b, n - 1);
        assert((a + b)[a.len() + n - 1] == b[n - 1]);
    } else {
        lemma_count_nulls_same(a + b, a, a.len() as int);
    }
}

/// The unset bits of a validity are the nulls of the slots that it belongs to.
pub proof fn lemma_count_unset_nulls<T>(bits: Seq<bool>, slots: Seq<Option<T>>, n: int)
    requires
        n <= bits.len(),
        n <= slots.len(),
        forall|i: int| 0 <= i < n ==> (#[trigger] slots[i]) is None == !bits[i],
    ensures
        count_unset(bits, n) == count_nulls(slots, n),
    decreases n,
{
    if n > 0 {
        lemma_count_unset_nulls(bits, slots, n - 1);
    }
}

/// Slots of which none is null have no nulls.
pub proof fn lemma_count_nulls_none<T>(slots: Seq<Option<T>>, n: int)
    requires
        n <= slots.len(),
        forall|i: int| 0 <= i < n ==> (#[trigger] slots[i]) is Some,
    ensures
        count_nulls(slots, n) == 0,
    decreases n,
{
    if n > 0 {
        lemma_count_nulls_none(slots, n - 1);
    }
}

/// The view of an optional bitmap.
pub open spec fn validity_view(validity: Option<Bitmap>) -> Option<Seq<bool>> {
    match validity {
        Some(v) => Some(v@),
        None => None,
    }
}

/// An immutable array.
pub trait Array {
    /// What the array holds, slot by slot; `None` for a null slot.
    spec fn spec_slots(&self) -> Seq<Option<Scalar>>;

    /// The data type.
    spec fn spec_dtype(&self) -> ArrowDataType;

    /// The validity bits; `None` where every slot is valid.
    spec fn spec_validity(&self) -> Option<Seq<bool>>;

    /// The length of the array.
    fn len(&self) -> (n: usize)
        ensures
            n == self.spec_slots().len(),
    ;

    /// Whether the array has no slots.
    fn is_empty(&self) -> (b: bool)
        ensures
            b == (self.spec_slots().len() == 0),
    {
        self.len() == 0
    }

    /// The data type of the array.
    fn dtype(&self) -> (d: &ArrowDataType)
        ensures
            *d == self.spec_dtype(),
    ;

    /// The validity of the array. A bitmap, where there is one, has one bit
    /// per slot, unset exactly where the slot is null; without a bitmap no
    /// slot is null.
    fn validity(&self) -> (v: Option<&Bitmap>)
        ensures
            v is Some == self.spec_validity() is Some,
            v is Some ==> v->0@ == self.spec_validity()->0,
            v is Some ==> v->0@.len() == self.spec_slots().len(),
            forall|i: int|
                0 <= i < self.spec_slots().len() ==> (#[trigger] self.spec_slots()[i] is None)
                    == slot_is_null(self.spec_validity(), i),
    ;

    /// The number of null slots: the unset bits of the validity, or for
    /// the null type the number of slots. For every other type these are
    /// the slots that hold no value.
    fn null_count(&self) -> (n: usize)
        ensures
            n == null_count_of(self.spec_dtype(), self.spec_slots().len(), self.spec_validity()),
            self.spec_dtype() != ArrowDataType::Null ==> n == count_nulls(
                self.spec_slots(),
                self.spec_slots().len() as int,
            ),
    {
        if *self.dtype() == ArrowDataType::Null {
            return self.len();
        }
        match self.validity() {
            Some(v) => {
                proof {
                    lemma_count_unset_nulls(v@, self.spec_slots(), v@.len() as int);
                }
                v.unset_bits()
            },
            None => {
                proof {
                    lemma_count_nulls_none(self.spec_slots(), self.spec_slots().len() as int);
                }
                0
            },
        }
    }

    /// Whether any slot is null.
    fn has_nulls(&self) -> (b: bool)
        ensures
            b == (null_count_of(
                self.spec_dtype(),
                self.spec_slots().len(),
                self.spec_validity(),
            ) > 0),
    {
        self.null_count() > 0
    }

    /// Whether slot `i` is null.
    fn is_null(&self, i: usize) -> (b: bool)
        requires
            i < self.spec_slots().len(),
        ensures
            b == (self.spec_slots()[i as int] is None),
    {
        self.is_null_unchecked(i)
    }

    /// Whether slot `i` is null, for a caller that knows `i` to be in bounds.
    fn is_null_unchecked(&self, i: usize) -> (b: bool)
        requires
            i < self.spec_slots().len(),
        ensures
            b == (self.spec_slots()[i as int] is None),
    {
        match self.validity() {
            Some(v) => !v.get_bit(i),
            None => false,
        }
    }

    /// Whether slot `i` holds a value.
    fn is_valid(&self, i: usize) -> (b: bool)
        requires
            i < self.spec_slots().len(),
        ensures
            b == (self.spec_slots()[i as int] is Some),
    {
        !self.is_null(i)
    }

    /// Narrows this array to the `length` slots from `offset` on.
    fn slice(&mut self, offset: usize, length: usize)
        requires
            offset + length <= old(self).spec_slots().len(),
        ensures
            final(self).spec_slots() == old(self).spec_slots().subrange(
                offset as int,
                offset + length,
            ),
            final(self).spec_dtype() == old(self).spec_dtype(),
            final(self).spec_validity() == sliced_validity(
                old(self).spec_validity(),
                offset as int,
                length as int,
            ),
    ;

    /// A copy of this array, as an [`ArrayRef`].
    fn to_boxed(&self) -> (r: ArrayRef)
        ensures
            r.slots() == self.spec_slots(),
            r.data_type() == self.spec_dtype(),
            r.validity_bits() == self.spec_validity(),
    ;

    /// The `length` slots of this array from `offset` on. Of a slice
    /// without slots only the type is kept.
    fn sliced(&self, offset: usize, length: usize) -> (r: ArrayRef)
        requires
            offset + length <= self.spec_slots().len(),
        ensures
            r.slots() == self.spec_slots().subrange(offset as int, offset + length),
            r.data_type() == self.spec_dtype(),
            r.validity_bits() == if length == 0 {
                empty_validity(self.spec_dtype())
            } else {
                sliced_validity(self.spec_validity(), offset as int, length as int)
            },
    {
        if length == 0 {
            let r = new_empty_array(*self.dtype());
            assert(r.slots() =~= self.spec_slots().subrange(offset as int, offset + length));
            return r;
        }
        let mut new = self.to_boxed();
        new.slice_in_place(offset, length);
        new
    }

    /// The `length` slots of this array from `offset` on, for a caller that
    /// knows the range to be in bounds.
    fn sliced_unchecked(&self, offset: usize, length: usize) -> (r: ArrayRef)
        requires
            offset + length <= self.spec_slots().len(),
        ensures
            r.slots() == self.spec_slots().subrange(offset as int, offset + length),
            r.data_type() == self.spec_dtype(),
            r.validity_bits() == sliced_validity(
                self.spec_validity(),
                offset as int,
                length as int,
            ),
    {
        let mut new = self.to_boxed();
        new.slice_in_place(offset, length);
        new
    }

    /// The two arrays that `offset` divides this one into.
    fn split_at_boxed(&self, offset: usize) -> (r: (ArrayRef, ArrayRef))
        requires
            offset <= self.spec_slots().len(),
        ensures
            r.0.slots() == self.spec_slots().subrange(0, offset as int),
            r.1.slots() == self.spec_slots().subrange(
                offset as int,
                self.spec_slots().len() as int,
            ),
            r.0.data_type() == self.spec_dtype(),
            r.1.data_type() == self.spec_dtype(),
            r.0.validity_bits() == sliced_validity(self.spec_validity(), 0, offset as int),
            r.1.validity_bits() == sliced_validity(
                self.spec_validity(),
                offset as int,
                self.spec_slots().len() - offset,
            ),
    {
        let n = self.len();
        (self.sliced_unchecked(0, offset), self.sliced_unchecked(offset, n - offset))
    }
}

/// An array that can stand as a chunk of a column: one that can give a
/// part of itself as an array of its own kind.
pub trait Chunk: Array + Sized {
    /// The `length` slots of this array from `offset` on.
    fn sliced_chunk(&self, offset: usize, length: usize) -> (r: Self)
        requires
            offset + length <= self.spec_slots().len(),
        ensures
            r.spec_slots() == self.spec_slots().subrange(offset as int, offset + length),
            r.spec_dtype() == self.spec_dtype(),
    ;
}

/// Something that can be divided in two at an offset.
pub trait Splitable: Sized {
    /// Whether `offset` lies within what is to be divided.
    spec fn spec_check_bound(&self, offset: usize) -> bool;

    /// Whether `lhs` and `rhs` are the two parts that `offset` divides this
    /// value into.
    spec fn splits_into(&self, offset: usize, lhs: &Self, rhs: &Self) -> bool;

    /// Whether `offset` lies within what is to be divided.
    fn check_bound(&self, offset: usize) -> (b: bool)
        ensures
            b == self.spec_check_bound(offset),
    ;

    /// Divides this value at `offset`, which must lie within it.
    fn split_at(&self, offset: usize) -> (r: (Self, Self))
        requires
            self.spec_check_bound(offset),
        ensures
            self.splits_into(offset, &r.0, &r.1),
    {
        self._split_at_unchecked(offset)
    }

    /// Divides this value at `offset`, for a caller that knows the offset
    /// to lie within it.
    fn split_at_unchecked(&self, offset: usize) -> (r: (Self, Self))
        requires
            self.spec_check_bound(offset),
        ensures
            self.splits_into(offset, &r.0, &r.1),
    {
        self._split_at_unchecked(offset)
    }

    /// How a type divides its values. Callers use `split_at` or
    /// `split_at_unchecked`.
    fn _split_at_unchecked(&self, offset: usize) -> (r: (Self, Self))
        requires
            self.spec_check_bound(offset),
        ensures
            self.splits_into(offset, &r.0, &r.1),
    ;
}

/// The part of a validity that is kept after a split: the bits, if any of
/// them is unset, and else none.
pub open spec fn kept_validity(bits: Seq<bool>) -> Option<Seq<bool>> {
    if count_unset(bits, bits.len() as int) > 0 {
        Some(bits)
    } else {
        None
    }
}

impl Splitable for Option<Bitmap> {
    open spec fn spec_check_bound(&self, offset: usize) -> bool {
        match self {
            Some(v) => offset <= v@.len(),
            None => true,
        }
    }

    open spec fn splits_into(&self, offset: usize, lhs: &Self, rhs: &Self) -> bool {
        match self {
            Some(v) => validity_view(*lhs) == kept_validity(v@.subrange(0, offset as int))
                && validity_view(*rhs) == kept_validity(
                v@.subrange(offset as int, v@.len() as int),
            ),
            None => *lhs is None && *rhs is None,
        }
    }

    fn check_bound(&self, offset: usize) -> (b: bool) {
        match self {
            Some(v) => offset <= v.len(),
            None => true,
        }
    }

    fn _split_at_unchecked(&self, offset: usize) -> (r: (Self, Self)) {
        match self {
            None => (None, None),
            Some(bm) => {
                let (lhs, rhs) = bm.split_at(offset);
                let lhs = if lhs.unset_bits() > 0 {
                    Some(lhs)
                } else {
                    None
                };
                let rhs = if rhs.unset_bits() > 0 {
                    Some(rhs)
                } else {
                    None
                };
                (lhs, rhs)
            },
        }
    }
}

/// Something that can be made an [`ArrayRef`].
pub trait IntoBoxedArray: Array + Sized {
    /// This array as an [`ArrayRef`].
    fn into_boxed(self) -> (r: ArrayRef)
        ensures
            r.slots() == self.spec_slots(),
            r.data_type() == self.spec_dtype(),
            r.validity_bits() == self.spec_validity(),
    ;
}

impl IntoBoxedArray for NullArray {
    fn into_boxed(self) -> (r: ArrayRef) {
        ArrayRef::Null(self)
    }
}

impl IntoBoxedArray for PrimitiveArray {
    fn into_boxed(self) -> (r: ArrayRef) {
        ArrayRef::Primitive(self)
    }
}

impl IntoBoxedArray for BinaryArray {
    fn into_boxed(self) -> (r: ArrayRef) {
        ArrayRef::Binary(self)
    }
}

impl IntoBoxedArray for ArrayRef {
    fn into_boxed(self) -> (r: ArrayRef) {
        self
    }
}

/// An array that can grow.
pub trait MutableArray {
    /// What the array holds, slot by slot; `None` for a null slot.
    spec fn mut_slots(&self) -> Seq<Option<Scalar>>;

    /// The data type.
    spec fn mut_dtype(&self) -> ArrowDataType;

    /// The validity bits; `None` where every slot is valid.
    spec fn mut_validity(&self) -> Option<Seq<bool>>;

    /// The data type of the array.
    fn dtype(&self) -> (d: &ArrowDataType)
        ensures
            *d == self.mut_dtype(),
    ;

    /// The length of the array.
    fn len(&self) -> (n: usize)
        ensures
            n == self.mut_slots().len(),
    ;

    /// Whether the array has no slots.
    fn is_empty(&self) -> (b: bool)
        ensures
            b == (self.mut_slots().len() == 0),
    {
        self.len() == 0
    }

    /// The validity of the array. A bitmap, where there is one, has one bit
    /// per slot, unset exactly where the slot is null; without a bitmap no
    /// slot is null.
    fn validity(&self) -> (v: Option<&MutableBitmap>)
        ensures
            v is Some == self.mut_validity() is Some,
            v is Some ==> v->0@ == self.mut_validity()->0,
            v is Some ==> v->0@.len() == self.mut_slots().len(),
            forall|i: int|
                0 <= i < self.mut_slots().len() ==> (#[trigger] self.mut_slots()[i] is None)
                    == slot_is_null(self.mut_validity(), i),
    ;

    /// This array as one that no longer grows. This array is left without
    /// slots.
    fn as_box(&mut self) -> (r: ArrayRef)
        ensures
            r.slots() == old(self).mut_slots(),
            r.data_type() == old(self).mut_dtype(),
            final(self).mut_slots() == Seq::<Option<Scalar>>::empty(),
            final(self).mut_dtype() == old(self).mut_dtype(),
    ;

    /// This array as a shared one that no longer grows. This array is left
    /// without slots.
    fn as_arc(&mut self) -> (r: std::sync::Arc<ArrayRef>)
        ensures
            r.slots() == old(self).mut_slots(),
            r.data_type() == old(self).mut_dtype(),
            final(self).mut_slots() == Seq::<Option<Scalar>>::empty(),
            final(self).mut_dtype() == old(self).mut_dtype(),
    {
        std::sync::Arc::new(self.as_box())
    }

    /// Adds a null slot at the end.
    fn push_null(&mut self)
        ensures
            final(self).mut_slots() == old(self).mut_slots().push(None),
            final(self).mut_dtype() == old(self).mut_dtype(),
    ;

    /// Whether slot `index` holds a value.
    fn is_valid(&self, index: usize) -> (b: bool)
        requires
            index < self.mut_slots().len(),
        ensures
            b == (self.mut_slots()[index as int] is Some),
    {
        match self.validity() {
            Some(v) => v.get(index),
            None => true,
        }
    }

    /// Makes room for `additional` more slots.
    fn reserve(&mut self, additional: usize)
        ensures
            final(self).mut_slots() == old(self).mut_slots(),
            final(self).mut_dtype() == old(self).mut_dtype(),
            final(self).mut_validity() == old(self).mut_validity(),
    ;

    /// Gives back the room that no slot takes.
    fn shrink_to_fit(&mut self)
        ensures
            final(self).mut_slots() == old(self).mut_slots(),
            final(self).mut_dtype() == old(self).mut_dtype(),
            final(self).mut_validity() == old(self).mut_validity(),
    ;
}

/// An array that takes an item at its end if it has room for it.
pub trait TryPush<A>: MutableArray {
    /// Whether the array has room for `item`.
    spec fn has_room(&self, item: A) -> bool;

    /// The slot that holds `item`.
    spec fn slot_of(item: A) -> Option<Scalar>;

    /// Adds `item` at the end, if there is room for it, and else leaves the
    /// array as it is.
    fn try_push(&mut self, item: A) -> (r: Result<(), ArrayError>)
        ensures
            r is Ok <==> old(self).has_room(item),
            r is Ok ==> final(self).mut_slots() == old(self).mut_slots().push(
                Self::slot_of(item),
            ),
            r is Err ==> final(self).mut_slots() == old(self).mut_slots(),
            final(self).mut_dtype() == old(self).mut_dtype(),
    ;
}

/// An array that takes a run of items at its end if it has room for them all.
pub trait TryExtend<A>: TryPush<A> {
    /// Whether the array has room for all of `items`.
    spec fn has_room_for(&self, items: Seq<A>) -> bool;

    /// Adds `items` at the end, if there is room for them all, and else
    /// leaves the array as it is.
    fn try_extend(&mut self, items: &[A]) -> (r: Result<(), ArrayError>)
        ensures
            r is Ok <==> old(self).has_room_for(items@),
            r is Ok ==> final(self).mut_slots() == old(self).mut_slots() + Seq::new(
                items@.len(),
                |i: int| Self::slot_of(items@[i]),
            ),
            r is Err ==> final(self).mut_slots() == old(self).mut_slots(),
            final(self).mut_dtype() == old(self).mut_dtype(),
    ;
}

/// An array that takes the slots of another array of its kind at its end,
/// if it has room for them.
pub trait TryExtendFromSelf: MutableArray {
    /// Whether the array has room for the slots of `other`.
    spec fn has_room_for_slots(&self, other: &Self) -> bool;

    /// Adds the slots of `other` at the end, if there is room for them, and
    /// else leaves the array as it is.
    fn try_extend_from_self(&mut self, other: &Self) -> (r: Result<(), ArrayError>)
        ensures
            r is Ok <==> old(self).has_room_for_slots(other),
            r is Ok ==> final(self).mut_slots() == old(self).mut_slots() + other.mut_slots(),
            r is Err ==> final(self).mut_slots() == old(self).mut_slots(),
            final(self).mut_dtype() == old(self).mut_dtype(),
    ;
}

/// Something that takes items at its end from a caller who answers for them.
pub trait PushUnchecked<A> {
    /// What was pushed so far.
    spec fn pushed(&self) -> Seq<A>;

    /// Whether `item` may be pushed: whether it keeps what the type
    /// requires of its values.
    spec fn admits(&self, item: A) -> bool;

    /// Adds `item` at the end. The caller answers for the item: it must be
    /// one that this value admits.
    fn push_unchecked(&mut self, item: A)
        requires
            old(self).admits(item),
        ensures
            final(self).pushed() == old(self).pushed().push(item),
    ;
}

impl PushUnchecked<bool> for MutableBitmap {
    open spec fn pushed(&self) -> Seq<bool> {
        self@
    }

    open spec fn admits(&self, item: bool) -> bool {
        true
    }

    fn push_unchecked(&mut self, item: bool) {
        self.push(item);
    }
}

/// The width of the offsets of a byte-string array.
pub trait Offset: Copy {
    /// The offset as a number.
    spec fn to_int(self) -> int;
}

impl Offset for i64 {
    open spec fn to_int(self) -> int {
        self as int
    }
}

/// What arrays of byte strings have in common: one run of bytes, and the
/// offsets at which the strings begin and end.
pub trait GenericBinaryArray<O: Offset>: Array {
    /// The bytes of all the strings.
    spec fn all_bytes(&self) -> Seq<u8>;

    /// The offsets.
    spec fn all_offsets(&self) -> Seq<O>;

    /// The values of the array: the bytes of all its strings.
    fn values(&self) -> (v: &[u8])
        ensures
            v@ == self.all_bytes(),
    ;

    /// The offsets of the array. There is one more than there are slots,
    /// they do not decrease, and they lie within the values.
    fn offsets(&self) -> (o: &[O])
        ensures
            o@ == self.all_offsets(),
            o@.len() == self.spec_slots().len() + 1,
            forall|i: int, j: int| 0 <= i <= j < o@.len() ==> o@[i].to_int() <= o@[j].to_int(),
            forall|i: int|
                0 <= i < o@.len() ==> 0 <= (#[trigger] o@[i]).to_int() <= self.all_bytes().len(),
    ;
}

impl GenericBinaryArray<i64> for BinaryArray {
    open spec fn all_bytes(&self) -> Seq<u8> {
        self.spec_values()
    }

    open spec fn all_offsets(&self) -> Seq<i64> {
        self.spec_offsets()
    }

    fn values(&self) -> (v: &[u8]) {
        self.bytes()
    }

    fn offsets(&self) -> (o: &[i64]) {
        self.offsets_slice()
    }
}

/// The validity of an array without slots: none, except for the null type.
pub open spec fn empty_validity(dtype: ArrowDataType) -> Option<Seq<bool>> {
    if dtype == ArrowDataType::Null {
        Some(Seq::empty())
    } else {
        None
    }
}

/// An array of any of the layouts.
#[derive(Debug)]
pub enum ArrayRef {
    Null(NullArray),
    Primitive(PrimitiveArray),
    Binary(BinaryArray),
}

impl ArrayRef {
    /// What the array holds, slot by slot; `None` for a null slot.
    pub open spec fn slots(&self) -> Seq<Option<Scalar>> {
        match self {
            ArrayRef::Null(a) => a.slots(),
            ArrayRef::Primitive(a) => a.slots(),
            ArrayRef::Binary(a) => a.slots(),
        }
    }

    /// The data type.
    pub open spec fn data_type(&self) -> ArrowDataType {
        match self {
            ArrayRef::Null(a) => a.data_type(),
            ArrayRef::Primitive(a) => a.data_type(),
            ArrayRef::Binary(a) => a.data_type(),
        }
    }

    /// The validity bits; `None` where every slot is valid.
    pub open spec fn validity_bits(&self) -> Option<Seq<bool>> {
        match self {
            ArrayRef::Null(a) => a.validity_bits(),
            ArrayRef::Primitive(a) => a.validity_bits(),
            ArrayRef::Binary(a) => a.validity_bits(),
        }
    }

    /// Narrows this array to the `length` slots from `offset` on.
    pub fn slice_in_place(&mut self, offset: usize, length: usize)
        requires
            offset + length <= old(self).slots().len(),
        ensures
            final(self).slots() == old(self).slots().subrange(offset as int, offset + length),
            final(self).data_type() == old(self).data_type(),
            final(self).validity_bits() == sliced_validity(
                old(self).validity_bits(),
                offset as int,
                length as int,
            ),
    {
        match self {
            ArrayRef::Null(a) => a.slice_in_place(offset, length),
            ArrayRef::Primitive(a) => a.slice_in_place(offset, length),
            ArrayRef::Binary(a) => a.slice_in_place(offset, length),
        }
    }
}

impl Array for ArrayRef {
    open spec fn spec_slots(&self) -> Seq<Option<Scalar>> {
        self.slots()
    }

    open spec fn spec_dtype(&self) -> ArrowDataType {
        self.data_type()
    }

    open spec fn spec_validity(&self) -> Option<Seq<bool>> {
        self.validity_bits()
    }

    fn len(&self) -> (n: usize) {
        match self {
            ArrayRef::Null(a) => a.len(),
            ArrayRef::Primitive(a) => a.len(),
            ArrayRef::Binary(a) => a.len(),
        }
    }

    fn dtype(&self) -> (d: &ArrowDataType) {
        match self {
            ArrayRef::Null(a) => a.dtype(),
            ArrayRef::Primitive(a) => a.dtype(),
            ArrayRef::Binary(a) => a.dtype(),
        }
    }

    fn validity(&self) -> (v: Option<&Bitmap>) {
        match self {
            ArrayRef::Null(a) => a.validity(),
            ArrayRef::Primitive(a) => a.validity(),
            ArrayRef::Binary(a) => a.validity(),
        }
    }

    fn slice(&mut self, offset: usize, length: usize) {
        self.slice_in_place(offset, length)
    }

    fn to_boxed(&self) -> (r: ArrayRef) {
        clone(self)
    }
}

/// Creates an array of type `dtype` without slots.
pub fn new_empty_array(dtype: ArrowDataType) -> (r: ArrayRef)
    ensures
        r.slots() == Seq::<Option<Scalar>>::empty(),
        r.data_type() == dtype,
        r.validity_bits() == empty_validity(dtype),
{
    let r = match dtype.to_physical_type() {
        PhysicalType::Null => ArrayRef::Null(NullArray::new_empty()),
        PhysicalType::Primitive(_) => ArrayRef::Primitive(PrimitiveArray::new_empty(dtype)),
        PhysicalType::LargeBinary => ArrayRef::Binary(BinaryArray::new_empty(dtype)),
        PhysicalType::LargeUtf8 => ArrayRef::Binary(BinaryArray::new_empty(dtype)),
    };
    assert(r.slots() =~= Seq::<Option<Scalar>>::empty());
    r
}

/// Creates an array of type `dtype` with `length` slots, all of them null.
pub fn new_null_array(dtype: ArrowDataType, length: usize) -> (r: ArrayRef)
    ensures
        r.slots() == Seq::new(length as nat, |i: int| None::<Scalar>),
        r.data_type() == dtype,
        r.validity_bits() == Some(Seq::new(length as nat, |i: int| false)),
{
    match dtype.to_physical_type() {
        PhysicalType::Null => ArrayRef::Null(NullArray::new_null(length)),
        PhysicalType::Primitive(_) => ArrayRef::Primitive(PrimitiveArray::new_null(dtype, length)),
        PhysicalType::LargeBinary => ArrayRef::Binary(BinaryArray::new_null(dtype, length)),
        PhysicalType::LargeUtf8 => ArrayRef::Binary(BinaryArray::new_null(dtype, length)),
    }
}

/// Clones an array of any layout.
pub fn clone(array: &ArrayRef) -> (r: ArrayRef)
    ensures
        r.slots() == array.slots(),
        r.data_type() == array.data_type(),
        r.validity_bits() == array.validity_bits(),
{
    match array {
        ArrayRef::Null(a) => ArrayRef::Null(a.duplicate()),
        ArrayRef::Primitive(a) => ArrayRef::Primitive(a.duplicate()),
        ArrayRef::Binary(a) => ArrayRef::Binary(a.duplicate()),
    }
}

} // verus!
