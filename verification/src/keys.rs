//! Normalized join keys.
//!
//! Whatever the type of a key column, the engine sees its keys through
//! [`JoinKey`]: a canonical value by which two keys are compared, a null
//! marker, and a fast hash that agrees on equal keys.
use vstd::prelude::*;

verus! {

/// The multiplier of the hash of fixed-width keys: an odd number, so that
/// the hash spreads all the bits of a key.
pub const HASH_MULTIPLIER: u64 = 0x55fb_fd6b_fc54_58e9;

/// A key that rows can be joined on.
pub trait JoinKey: Sized + Sync {
    /// The values that non-null keys are compared by.
    type Canon;

    /// The canonical value of this key; `None` for a null. Two keys are
    /// equal where their canonical values are.
    spec fn canon(&self) -> Option<Self::Canon>;

    /// The hash of a key with the given canonical value.
    spec fn hash_of(c: Option<Self::Canon>) -> u64;

    /// A fast hash of this key. Equal keys have equal hashes.
    fn dirty_hash(&self) -> (h: u64)
        ensures
            h == Self::hash_of(self.canon()),
    ;

    /// Whether this key and `other` are equal. The comparison is total:
    /// a key equals itself, and two nulls are equal.
    fn tot_eq(&self, other: &Self) -> (b: bool)
        ensures
            b == (self.canon() == other.canon()),
    ;

    /// Whether this key is a null.
    fn is_null(&self) -> (b: bool)
        ensures
            b == (self.canon() is None),
    ;

    /// The hash of the null.
    fn null_hash() -> (h: u64)
        ensures
            h == Self::hash_of(None),
    ;
}

impl JoinKey for u32 {
    type Canon = u32;

    open spec fn canon(&self) -> Option<u32> {
        Some(*self)
    }

    open spec fn hash_of(c: Option<u32>) -> u64 {
        match c {
            Some(x) => (x as u64).wrapping_mul(HASH_MULTIPLIER),
            None => 0,
        }
    }

    fn dirty_hash(&self) -> (h: u64) {
        (*self as u64).wrapping_mul(HASH_MULTIPLIER)
    }

    fn tot_eq(&self, other: &u32) -> (b: bool) {
        *self == *other
    }

    fn is_null(&self) -> (b: bool) {
        false
    }

    fn null_hash() -> (h: u64) {
        0
    }
}

impl JoinKey for u64 {
    type Canon = u64;

    open spec fn canon(&self) -> Option<u64> {
        Some(*self)
    }

    open spec fn hash_of(c: Option<u64>) -> u64 {
        match c {
            Some(x) => x.wrapping_mul(HASH_MULTIPLIER),
            None => 0,
        }
    }

    fn dirty_hash(&self) -> (h: u64) {
        (*self).wrapping_mul(HASH_MULTIPLIER)
    }

    fn tot_eq(&self, other: &u64) -> (b: bool) {
        *self == *other
    }

    fn is_null(&self) -> (b: bool) {
        false
    }

    fn null_hash() -> (h: u64) {
        0
    }
}

/// The low 64 bits of `x`, folded with its high 64 bits.
pub open spec fn fold_u128(x: u128) -> u64 {
    ((x & 0xffff_ffff_ffff_ffff) as u64) ^ ((x >> 64) as u64)
}

impl JoinKey for u128 {
    type Canon = u128;

    open spec fn canon(&self) -> Option<u128> {
        Some(*self)
    }

    open spec fn hash_of(c: Option<u128>) -> u64 {
        match c {
            Some(x) => fold_u128(x).wrapping_mul(HASH_MULTIPLIER),
            None => 0,
        }
    }

    fn dirty_hash(&self) -> (h: u64) {
        let x = *self;
        assert((x & 0xffff_ffff_ffff_ffff) <= 0xffff_ffff_ffff_ffff) by (bit_vector);
        assert((x >> 64) <= 0xffff_ffff_ffff_ffff) by (bit_vector);
        let folded = ((x & 0xffff_ffff_ffff_ffff) as u64) ^ ((x >> 64) as u64);
        folded.wrapping_mul(HASH_MULTIPLIER)
    }

    fn tot_eq(&self, other: &u128) -> (b: bool) {
        *self == *other
    }

    fn is_null(&self) -> (b: bool) {
        false
    }

    fn null_hash() -> (h: u64) {
        0
    }
}

/// An optional key: `None` is the null.
impl<T: JoinKey> JoinKey for Option<T> {
    type Canon = T::Canon;

    open spec fn canon(&self) -> Option<T::Canon> {
        match self {
            Some(k) => k.canon(),
            None => None,
        }
    }

    open spec fn hash_of(c: Option<T::Canon>) -> u64 {
        T::hash_of(c)
    }

    fn dirty_hash(&self) -> (h: u64) {
        match self {
            Some(k) => k.dirty_hash(),
            None => T::null_hash(),
        }
    }

    fn tot_eq(&self, other: &Option<T>) -> (b: bool) {
        match (self, other) {
            (Some(a), Some(b)) => a.tot_eq(b),
            (Some(a), None) => a.is_null(),
            (None, Some(b)) => b.is_null(),
            (None, None) => true,
        }
    }

    fn is_null(&self) -> (b: bool) {
        match self {
            Some(k) => k.is_null(),
            None => true,
        }
    }

    fn null_hash() -> (h: u64) {
        T::null_hash()
    }
}

/// The hash of the empty byte string.
pub const BYTES_HASH_SEED: u64 = 0xcbf2_9ce4_8422_2325;

/// The multiplier of the hash of byte strings.
pub const BYTES_HASH_PRIME: u64 = 0x0000_0100_0000_01b3;

/// The hash of a byte string: each byte in turn is mixed into the hash of
/// those before it.
pub open spec fn hash_bytes(bytes: Seq<u8>) -> u64
    decreases bytes.len(),
{
    if bytes.len() == 0 {
        BYTES_HASH_SEED
    } else {
        (hash_bytes(bytes.drop_last()) ^ (bytes.last() as u64)).wrapping_mul(BYTES_HASH_PRIME)
    }
}

/// The hash of an optional byte string.
pub open spec fn hash_opt_bytes(bytes: Option<Seq<u8>>) -> u64 {
    match bytes {
        Some(b) => hash_bytes(b),
        None => 0,
    }
}

/// Computes the hash of a byte string.
pub fn compute_hash_bytes(bytes: &[u8]) -> (h: u64)
    ensures
        h == hash_bytes(bytes@),
{
    let mut h: u64 = BYTES_HASH_SEED;
    let mut i: usize = 0;
    while i < bytes.len()
        invariant
            i <= bytes@.len(),
            h == hash_bytes(bytes@.take(i as int)),
        decreases bytes.len() - i,
    {
        assert(bytes@.take(i + 1).drop_last() =~= bytes@.take(i as int));
        h = (h ^ (bytes[i] as u64)).wrapping_mul(BYTES_HASH_PRIME);
        i += 1;
    }
    assert(bytes@.take(i as int) =~= bytes@);
    h
}

/// Whether two byte strings are equal.
pub fn bytes_equal(a: &[u8], b: &[u8]) -> (r: bool)
    ensures
        r == (a@ == b@),
{
    if a.len() != b.len() {
        return false;
    }
    let mut i: usize = 0;
    while i < a.len()
        invariant
            i <= a@.len(),
            a@.len() == b@.len(),
            forall|j: int| 0 <= j < i ==> a@[j] == b@[j],
        decreases a.len() - i,
    {
        if a[i] != b[i] {
            return false;
        }
        i += 1;
    }
    assert(a@ =~= b@);
    true
}

/// An optional byte string together with its hash.
#[derive(Debug)]
pub struct BytesHash<'a> {
    payload: Option<&'a [u8]>,
    hash: u64,
}

impl<'a> BytesHash<'a> {
    #[verifier::type_invariant]
    closed spec fn inv(&self) -> bool {
        self.hash == hash_opt_bytes(self.bytes())
    }

    /// The byte string; `None` for a null.
    pub closed spec fn bytes(&self) -> Option<Seq<u8>> {
        match self.payload {
            Some(b) => Some(b@),
            None => None,
        }
    }

    /// Hashes an optional byte string.
    pub fn new(payload: Option<&'a [u8]>) -> (k: BytesHash<'a>)
        ensures
            k.bytes() == (match payload {
                Some(b) => Some(b@),
                None => None,
            }),
    {
        let hash = match payload {
            Some(b) => compute_hash_bytes(b),
            None => 0,
        };
        BytesHash { payload, hash }
    }
}

impl<'a> JoinKey for BytesHash<'a> {
    type Canon = Seq<u8>;

    open spec fn canon(&self) -> Option<Seq<u8>> {
        self.bytes()
    }

    open spec fn hash_of(c: Option<Seq<u8>>) -> u64 {
        hash_opt_bytes(c)
    }

    fn dirty_hash(&self) -> (h: u64) {
        proof {
            use_type_invariant(self);
        }
        self.hash
    }

    fn tot_eq(&self, other: &BytesHash<'a>) -> (b: bool) {
        proof {
            use_type_invariant(self);
            use_type_invariant(other);
        }
        if self.hash != other.hash {
            return false;
        }
        match (self.payload, other.payload) {
            (Some(a), Some(b)) => bytes_equal(a, b),
            (None, None) => true,
            _ => false,
        }
    }

    fn is_null(&self) -> (b: bool) {
        self.payload.is_none()
    }

    fn null_hash() -> (h: u64) {
        0
    }
}

} // verus!
