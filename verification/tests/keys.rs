use hash_join::keys::{
    bytes_equal, compute_hash_bytes, BytesHash, JoinKey, BYTES_HASH_PRIME, BYTES_HASH_SEED,
    HASH_MULTIPLIER,
};
use hash_join::normalize::{canonical_f32, canonical_f64};

#[test]
fn fixed_width_keys_hash_by_multiplication() {
    assert_eq!(1u32.dirty_hash(), HASH_MULTIPLIER);
    assert_eq!(1u64.dirty_hash(), 0x55fb_fd6b_fc54_58e9);
    assert_eq!(3u64.dirty_hash(), 0x55fb_fd6b_fc54_58e9u64.wrapping_mul(3));
    assert_eq!(0u64.dirty_hash(), 0);
    // The two halves of a wide key are folded together.
    assert_eq!(((1u128 << 64) | 1).dirty_hash(), 0);
    assert_eq!((5u128 << 64).dirty_hash(), 5u64.dirty_hash());
    assert_eq!(u32::null_hash(), 0);
}

#[test]
fn fixed_width_keys_are_never_null() {
    assert!(!0u32.is_null());
    assert!(!u64::MAX.is_null());
    assert!(7u64.tot_eq(&7));
    assert!(!7u64.tot_eq(&8));
    assert!(7u128.tot_eq(&7));
}

#[test]
fn optional_keys_hold_the_null() {
    let null: Option<u64> = None;
    assert!(null.is_null());
    assert!(!Some(0u64).is_null());
    assert!(null.tot_eq(&None));
    assert!(!null.tot_eq(&Some(0)));
    assert!(!Some(0u64).tot_eq(&None));
    assert!(Some(3u64).tot_eq(&Some(3)));
    assert_eq!(Some(3u64).dirty_hash(), 3u64.dirty_hash());
    assert_eq!(null.dirty_hash(), 0);
}

#[test]
fn byte_strings_hash_byte_by_byte() {
    assert_eq!(compute_hash_bytes(b""), BYTES_HASH_SEED);
    assert_eq!(
        compute_hash_bytes(b"a"),
        (BYTES_HASH_SEED ^ 0x61).wrapping_mul(BYTES_HASH_PRIME)
    );
    assert_eq!(compute_hash_bytes(b"a"), 0xaf63_dc4c_8601_ec8c);
    assert_eq!(compute_hash_bytes(b"foobar"), 0x8594_4171_f739_67e8);
    assert_ne!(compute_hash_bytes(b"ab"), compute_hash_bytes(b"ba"));
}

#[test]
fn byte_strings_are_compared_byte_by_byte() {
    assert!(bytes_equal(b"", b""));
    assert!(bytes_equal(b"abc", b"abc"));
    assert!(!bytes_equal(b"abc", b"abd"));
    assert!(!bytes_equal(b"abc", b"ab"));
    assert!(!bytes_equal(b"", b"a"));
}

#[test]
fn byte_string_keys() {
    let ab = BytesHash::new(Some(b"ab"));
    let same = BytesHash::new(Some(b"ab"));
    let other = BytesHash::new(Some(b"ba"));
    let empty = BytesHash::new(Some(b""));
    let null = BytesHash::new(None);
    assert_eq!(ab.dirty_hash(), compute_hash_bytes(b"ab"));
    assert_eq!(null.dirty_hash(), 0);
    assert_eq!(BytesHash::null_hash(), 0);
    assert!(ab.tot_eq(&same));
    assert!(!ab.tot_eq(&other));
    assert!(!ab.tot_eq(&null));
    assert!(!null.tot_eq(&empty));
    assert!(null.tot_eq(&BytesHash::new(None)));
    assert!(null.is_null());
    assert!(!empty.is_null());
}

#[test]
fn floating_point_patterns_are_made_canonical() {
    let nan = 0x7ff8_0000_0000_0000u64;
    assert_eq!(canonical_f64(f64::NAN.to_bits()), nan);
    assert_eq!(canonical_f64(0x7ff0_0000_0000_0001), nan);
    assert_eq!(canonical_f64(0xfff8_0000_0000_0000), nan);
    assert_eq!(canonical_f64((-0.0f64).to_bits()), 0);
    assert_eq!(canonical_f64(0.0f64.to_bits()), 0);
    assert_eq!(canonical_f64(f64::INFINITY.to_bits()), f64::INFINITY.to_bits());
    assert_eq!(canonical_f64(f64::NEG_INFINITY.to_bits()), f64::NEG_INFINITY.to_bits());
    assert_eq!(canonical_f64((-1.5f64).to_bits()), (-1.5f64).to_bits());
    assert_eq!(canonical_f32(f32::NAN.to_bits()), 0x7fc0_0000);
    assert_eq!(canonical_f32(0xffc0_0001), 0x7fc0_0000);
    assert_eq!(canonical_f32((-0.0f32).to_bits()), 0);
    assert_eq!(canonical_f32(f32::INFINITY.to_bits()), 0x7f80_0000);
    assert_eq!(canonical_f32(2.5f32.to_bits()), 2.5f32.to_bits());
}
