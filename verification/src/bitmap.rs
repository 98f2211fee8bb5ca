//! Validity bitmaps: one bit per slot, set where the slot holds a value.
use vstd::prelude::*;

verus! {

/// The number of unset entries among the first `n` of `bits`.
pub open spec fn count_unset(bits: Seq<bool>, n: int) -> nat
    decreases n,
{
    if n <= 0 {
        0
    } else {
        count_unset(bits, n - 1) + if bits[n - 1] { 0nat } else { 1nat }
    }
}

/// An unset bit makes the count positive, and only that does.
pub proof fn lemma_count_unset_positive(bits: Seq<bool>, n: int)
    requires
        0 <= n <= bits.len(),
    ensures
        count_unset(bits, n) <= n,
        count_unset(bits, n) > 0 <==> exists|i: int| 0 <= i < n && !bits[i],
    decreases n,
{
    if n > 0 {
        lemma_count_unset_positive(bits, n - 1);
        if count_unset(bits, n) > 0 {
            if !bits[n - 1] {
                assert(0 <= n - 1 < n && !bits[n - 1]);
            } else {
                let i = choose|i: int| 0 <= i < n - 1 && !bits[i];
                assert(0 <= i < n && !bits[i]);
            }
        }
    }
}

/// An immutable sequence of bits.
#[derive(Debug)]
pub struct Bitmap {
    bits: Vec<bool>,
}

impl View for Bitmap {
    type V = Seq<bool>;

    closed spec fn view(&self) -> Seq<bool> {
        self.bits@
    }
}

impl Bitmap {
    /// A bitmap that holds the given bits.
    pub fn from_vec(bits: Vec<bool>) -> (b: Bitmap)
        ensures
            b@ == bits@,
    {
        Bitmap { bits }
    }

    /// A bitmap of `length` bits, all equal to `value`.
    pub fn new_with_value(value: bool, length: usize) -> (b: Bitmap)
        ensures
            b@ == Seq::new(length as nat, |i: int| value),
    {
        let mut bits: Vec<bool> = Vec::new();
        let mut i: usize = 0;
        while i < length
            invariant
                i <= length,
                bits@ == Seq::new(i as nat, |j: int| value),
            decreases length - i,
        {
            bits.push(value);
            i += 1;
            assert(bits@ =~= Seq::new(i as nat, |j: int| value));
        }
        Bitmap { bits }
    }

    /// A bitmap of `length` unset bits.
    pub fn new_zeroed(length: usize) -> (b: Bitmap)
        ensures
            b@ == Seq::new(length as nat, |i: int| false),
    {
        Bitmap::new_with_value(false, length)
    }

    pub fn len(&self) -> (n: usize)
        ensures
            n == self@.len(),
    {
        self.bits.len()
    }

    pub fn is_empty(&self) -> (b: bool)
        ensures
            b == (self@.len() == 0),
    {
        self.bits.len() == 0
    }

    /// The bit at position `i`.
    pub fn get_bit(&self, i: usize) -> (b: bool)
        requires
            i < self@.len(),
        ensures
            b == self@[i as int],
    {
        self.bits[i]
    }

    /// The bit at position `i`, or `None` past the end.
    pub fn get(&self, i: usize) -> (b: Option<bool>)
        ensures
            b == if i < self@.len() { Some(self@[i as int]) } else { None },
    {
        if i < self.bits.len() {
            Some(self.bits[i])
        } else {
            None
        }
    }

    /// The number of unset bits.
    pub fn unset_bits(&self) -> (n: usize)
        ensures
            n == count_unset(self@, self@.len() as int),
    {
        let mut n: usize = 0;
        let mut i: usize = 0;
        while i < self.bits.len()
            invariant
                i <= self.bits.len(),
                n == count_unset(self.bits@, i as int),
                n <= i,
            decreases self.bits.len() - i,
        {
            if !self.bits[i] {
                n += 1;
            }
            i += 1;
        }
        n
    }

    /// The bits from `offset` on, `length` of them.
    pub fn sliced(&self, offset: usize, length: usize) -> (b: Bitmap)
        requires
            offset + length <= self@.len(),
        ensures
            b@ == self@.subrange(offset as int, offset + length),
    {
        let mut bits: Vec<bool> = Vec::new();
        let mut i: usize = 0;
        while i < length
            invariant
                i <= length,
                offset + length <= self.bits.len(),
                bits@ == self.bits@.subrange(offset as int, offset + i),
            decreases length - i,
        {
            bits.push(self.bits[offset + i]);
            i += 1;
            assert(bits@ =~= self.bits@.subrange(offset as int, offset + i));
        }
        Bitmap { bits }
    }

    /// A copy of this bitmap.
    pub fn duplicate(&self) -> (b: Bitmap)
        ensures
            b@ == self@,
    {
        let b = self.sliced(0, self.bits.len());
        assert(b@ =~= self@);
        b
    }

    /// The two bitmaps that `offset` divides this one into.
    pub fn split_at(&self, offset: usize) -> (r: (Bitmap, Bitmap))
        requires
            offset <= self@.len(),
        ensures
            r.0@ == self@.subrange(0, offset as int),
            r.1@ == self@.subrange(offset as int, self@.len() as int),
    {
        (self.sliced(0, offset), self.sliced(offset, self.bits.len() - offset))
    }
}

/// Gives back the capacity that the entries of `v` do not take, with
/// `Vec::shrink_to_fit`. The entries stay as they are.
#[verifier::external_body]
pub(crate) fn shrink_vec<T>(v: &mut Vec<T>)
    ensures
        final(v)@ == old(v)@,
{
    v.shrink_to_fit();
}

/// A sequence of bits that can grow.
#[derive(Debug)]
pub struct MutableBitmap {
    bits: Vec<bool>,
}

impl View for MutableBitmap {
    type V = Seq<bool>;

    closed spec fn view(&self) -> Seq<bool> {
        self.bits@
    }
}

impl MutableBitmap {
    /// A bitmap without bits.
    pub fn new() -> (b: MutableBitmap)
        ensures
            b@ == Seq::<bool>::empty(),
    {
        MutableBitmap { bits: Vec::new() }
    }

    /// A bitmap of `length` bits, all equal to `value`.
    pub fn from_len_value(length: usize, value: bool) -> (b: MutableBitmap)
        ensures
            b@ == Seq::new(length as nat, |i: int| value),
    {
        let b = Bitmap::new_with_value(value, length);
        MutableBitmap { bits: b.bits }
    }

    pub fn len(&self) -> (n: usize)
        ensures
            n == self@.len(),
    {
        self.bits.len()
    }

    pub fn is_empty(&self) -> (b: bool)
        ensures
            b == (self@.len() == 0),
    {
        self.bits.len() == 0
    }

    /// The bit at position `i`.
    pub fn get(&self, i: usize) -> (b: bool)
        requires
            i < self@.len(),
        ensures
            b == self@[i as int],
    {
        self.bits[i]
    }

    /// Adds a bit at the end.
    pub fn push(&mut self, value: bool)
        ensures
            final(self)@ == old(self)@.push(value),
    {
        self.bits.push(value);
    }

    /// Makes room for `additional` more bits.
    pub fn reserve(&mut self, additional: usize)
        ensures
            final(self)@ == old(self)@,
    {
        self.bits.reserve(additional);
    }

    /// Gives back the room that no bit takes.
    pub fn shrink_to_fit(&mut self)
        ensures
            final(self)@ == old(self)@,
    {
        shrink_vec(&mut self.bits);
    }

    /// The bits as a bitmap that no longer grows. This bitmap is left
    /// without bits.
    pub fn freeze(&mut self) -> (b: Bitmap)
        ensures
            b@ == old(self)@,
            final(self)@ == Seq::<bool>::empty(),
    {
        let mut bits: Vec<bool> = Vec::new();
        std::mem::swap(&mut bits, &mut self.bits);
        Bitmap { bits }
    }
}

} // verus!
