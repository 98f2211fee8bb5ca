//! The key normalizer: from the chunks of a column to the keys that the
//! engine joins on.
//!
//! Fixed-width values are joined on as their bit patterns, floating-point
//! values as the canonical pattern of their value: every NaN is one value,
//! and negative zero is zero. Byte strings are joined on as they are,
//! together with their hash.
use vstd::prelude::*;
use vstd::slice::slice_subrange;
use crate::array::{Array, Chunk, count_valid, lemma_count_nulls_same, Scalar};
use crate::array::binary::BinaryArray;
use crate::array::primitive::{Buffer, primitive_slots, PrimitiveArray};
use crate::chunked::{ChunkedArray, PrimitiveChunked};
use crate::datatypes::BitWidth;
use crate::join::assemble::lemma_concat_same;
use crate::join::model::{
    canon_keys, concat, concat_upto, flat_upto, inner_error, inner_tuples, key_match, left_error,
    left_join_tuples, lemma_flat_same, outer_error, outer_rows, precheck, semi_anti_rows,
    side_keys,
};
use crate::join::pattern::{lemma_same_join, same_pattern};
use crate::join::validate::JoinValidation;
use crate::keys::{BytesHash, JoinKey};
use crate::partition::{
    _split_offsets, joined, lemma_joined, lemma_joined_part, lemma_joined_same, lemma_part_bounds,
    lemma_splits_cover, part_bound, prefix_len, slot_seqs,
};

verus! {

/// A key whose canonical value is a value that a slot of an array can hold.
pub trait ScalarKey: JoinKey {
    /// The slot value that a canonical value stands for.
    spec fn scalar(c: Self::Canon) -> Scalar;

    /// Distinct canonical values stand for distinct slot values.
    proof fn lemma_scalar_injective(a: Self::Canon, b: Self::Canon)
        ensures
            Self::scalar(a) == Self::scalar(b) ==> a == b,
    ;
}

/// The slot that a key stands for: a null for a null.
pub open spec fn scalar_of<K: ScalarKey>(k: Option<K::Canon>) -> Option<Scalar> {
    match k {
        Some(c) => Some(K::scalar(c)),
        None => None,
    }
}

/// The slots that a sequence of keys stands for.
pub open spec fn scalar_keys<K: ScalarKey>(keys: Seq<Option<K::Canon>>) -> Seq<Option<Scalar>> {
    Seq::new(keys.len(), |i: int| scalar_of::<K>(keys[i]))
}

impl ScalarKey for u32 {
    open spec fn scalar(c: u32) -> Scalar {
        Scalar::Bits(c as int)
    }

    proof fn lemma_scalar_injective(a: u32, b: u32) {
    }
}

impl ScalarKey for u64 {
    open spec fn scalar(c: u64) -> Scalar {
        Scalar::Bits(c as int)
    }

    proof fn lemma_scalar_injective(a: u64, b: u64) {
    }
}

impl ScalarKey for u128 {
    open spec fn scalar(c: u128) -> Scalar {
        Scalar::Bits(c as int)
    }

    proof fn lemma_scalar_injective(a: u128, b: u128) {
    }
}

impl<T: ScalarKey> ScalarKey for Option<T> {
    open spec fn scalar(c: T::Canon) -> Scalar {
        T::scalar(c)
    }

    proof fn lemma_scalar_injective(a: T::Canon, b: T::Canon) {
        T::lemma_scalar_injective(a, b);
    }
}

impl<'a> ScalarKey for BytesHash<'a> {
    open spec fn scalar(c: Seq<u8>) -> Scalar {
        Scalar::Bytes(c)
    }

    proof fn lemma_scalar_injective(a: Seq<u8>, b: Seq<u8>) {
    }
}

/// The slots that keys stand for correspond as the keys do.
pub proof fn lemma_scalar_pattern<K: ScalarKey>(
    probe: Seq<Option<K::Canon>>,
    build: Seq<Option<K::Canon>>,
    nulls_equal: bool,
)
    ensures
        same_pattern(
            probe,
            build,
            scalar_keys::<K>(probe),
            scalar_keys::<K>(build),
            nulls_equal,
        ),
{
    assert forall|i: int, j: int| 0 <= i < probe.len() && 0 <= j < build.len() implies key_match(
        #[trigger] probe[i],
        #[trigger] build[j],
        nulls_equal,
    ) == key_match(scalar_keys::<K>(probe)[i], scalar_keys::<K>(build)[j], nulls_equal) by {
        match (probe[i], build[j]) {
            (Some(a), Some(b)) => {
                K::lemma_scalar_injective(a, b);
            },
            _ => {},
        }
    }
}

/// A join on keys is the join on the slots that the keys stand for.
pub proof fn lemma_scalar_join<K: ScalarKey>(
    probe: Seq<Option<K::Canon>>,
    build: Seq<Option<K::Canon>>,
    nulls_equal: bool,
    swapped: bool,
    validate: JoinValidation,
)
    ensures
        scalar_keys::<K>(probe).len() == probe.len(),
        scalar_keys::<K>(build).len() == build.len(),
        inner_tuples(probe, build, swapped, nulls_equal) == inner_tuples(
            scalar_keys::<K>(probe),
            scalar_keys::<K>(build),
            swapped,
            nulls_equal,
        ),
        inner_error(probe, build, swapped, validate, nulls_equal) == inner_error(
            scalar_keys::<K>(probe),
            scalar_keys::<K>(build),
            swapped,
            validate,
            nulls_equal,
        ),
        left_join_tuples(probe, build, nulls_equal) == left_join_tuples(
            scalar_keys::<K>(probe),
            scalar_keys::<K>(build),
            nulls_equal,
        ),
        left_error(probe, build, validate, nulls_equal) == left_error(
            scalar_keys::<K>(probe),
            scalar_keys::<K>(build),
            validate,
            nulls_equal,
        ),
        outer_rows(probe, build, nulls_equal, swapped) == outer_rows(
            scalar_keys::<K>(probe),
            scalar_keys::<K>(build),
            nulls_equal,
            swapped,
        ),
        outer_error(probe, build, swapped, validate, nulls_equal) == outer_error(
            scalar_keys::<K>(probe),
            scalar_keys::<K>(build),
            swapped,
            validate,
            nulls_equal,
        ),
        semi_anti_rows(probe, build, nulls_equal, false, 0, probe.len() as int)
            == semi_anti_rows(
            scalar_keys::<K>(probe),
            scalar_keys::<K>(build),
            nulls_equal,
            false,
            0,
            probe.len() as int,
        ),
        semi_anti_rows(probe, build, nulls_equal, true, 0, probe.len() as int) == semi_anti_rows(
            scalar_keys::<K>(probe),
            scalar_keys::<K>(build),
            nulls_equal,
            true,
            0,
            probe.len() as int,
        ),
{
    lemma_scalar_pattern::<K>(probe, build, nulls_equal);
    lemma_scalar_pattern::<K>(probe, probe, nulls_equal);
    lemma_scalar_pattern::<K>(build, build, nulls_equal);
    lemma_same_join(
        probe,
        build,
        scalar_keys::<K>(probe),
        scalar_keys::<K>(build),
        nulls_equal,
        swapped,
        validate,
    );
}

/// Keys are held to a declared cardinality as the slots that they stand for.
pub proof fn lemma_scalar_precheck<K: ScalarKey>(
    probe: Seq<Option<K::Canon>>,
    build: Seq<Option<K::Canon>>,
    nulls_equal: bool,
    swapped: bool,
    validate: JoinValidation,
)
    ensures
        precheck(probe, build, swapped, validate, nulls_equal) == precheck(
            scalar_keys::<K>(probe),
            scalar_keys::<K>(build),
            swapped,
            validate,
            nulls_equal,
        ),
{
    lemma_scalar_pattern::<K>(probe, build, nulls_equal);
    lemma_scalar_pattern::<K>(probe, probe, nulls_equal);
    lemma_scalar_pattern::<K>(build, build, nulls_equal);
    lemma_same_join(
        probe,
        build,
        scalar_keys::<K>(probe),
        scalar_keys::<K>(build),
        nulls_equal,
        swapped,
        validate,
    );
}

/// The canonical bit pattern of a 32-bit floating-point value: one pattern
/// for every NaN, and zero for negative zero.
pub open spec fn spec_canonical_f32(bits: u32) -> u32 {
    if (bits & 0x7fff_ffff) > 0x7f80_0000 {
        0x7fc0_0000
    } else if bits == 0x8000_0000 {
        0
    } else {
        bits
    }
}

/// The canonical bit pattern of a 32-bit floating-point value.
#[verifier::when_used_as_spec(spec_canonical_f32)]
pub fn canonical_f32(bits: u32) -> (c: u32)
    ensures
        c == spec_canonical_f32(bits),
{
    if (bits & 0x7fff_ffff) > 0x7f80_0000 {
        0x7fc0_0000
    } else if bits == 0x8000_0000 {
        0
    } else {
        bits
    }
}

/// The canonical bit pattern of a 64-bit floating-point value: one pattern
/// for every NaN, and zero for negative zero.
pub open spec fn spec_canonical_f64(bits: u64) -> u64 {
    if (bits & 0x7fff_ffff_ffff_ffff) > 0x7ff0_0000_0000_0000 {
        0x7ff8_0000_0000_0000
    } else if bits == 0x8000_0000_0000_0000 {
        0
    } else {
        bits
    }
}

/// The canonical bit pattern of a 64-bit floating-point value.
#[verifier::when_used_as_spec(spec_canonical_f64)]
pub fn canonical_f64(bits: u64) -> (c: u64)
    ensures
        c == spec_canonical_f64(bits),
{
    if (bits & 0x7fff_ffff_ffff_ffff) > 0x7ff0_0000_0000_0000 {
        0x7ff8_0000_0000_0000
    } else if bits == 0x8000_0000_0000_0000 {
        0
    } else {
        bits
    }
}

/// The canonical bit pattern of a floating-point value of the given width,
/// as a number. There are no floating-point values of 128 bits.
pub open spec fn canonical_bits(width: BitWidth, bits: int) -> int {
    match width {
        BitWidth::W32 => spec_canonical_f32(bits as u32) as int,
        BitWidth::W64 => spec_canonical_f64(bits as u64) as int,
        BitWidth::W128 => bits,
    }
}

/// The slot that a slot of floating-point values is joined on.
pub open spec fn canonical_slot(width: BitWidth, slot: Option<Scalar>) -> Option<Scalar> {
    match slot {
        Some(Scalar::Bits(bits)) => Some(Scalar::Bits(canonical_bits(width, bits))),
        other => other,
    }
}

/// The slots that a column is joined on: its own, or for a column of
/// floating-point values the canonical ones.
pub open spec fn normalized(slots: Seq<Option<Scalar>>, float: Option<BitWidth>) -> Seq<
    Option<Scalar>,
> {
    match float {
        Some(width) => Seq::new(slots.len(), |i: int| canonical_slot(width, slots[i])),
        None => slots,
    }
}

/// A column is joined on as many rows that are not null as it holds.
pub proof fn lemma_normalized_valid(slots: Seq<Option<Scalar>>, float: Option<BitWidth>)
    ensures
        normalized(slots, float).len() == slots.len(),
        count_valid(normalized(slots, float)) == count_valid(slots),
{
    lemma_count_nulls_same(normalized(slots, float), slots, slots.len() as int);
}

/// A fixed-width bit pattern that can be a key.
pub trait NativeType: ScalarKey + Copy {
    /// The width of the pattern.
    spec fn spec_width() -> BitWidth;

    /// The number that the pattern spells.
    spec fn to_int(self) -> int;

    /// The pattern is its own canonical value, and stands for the slot of
    /// the number it spells.
    proof fn lemma_native(x: Self)
        ensures
            scalar_of::<Self>(x.canon()) == Some(Scalar::Bits(x.to_int())),
    ;

    /// The patterns of `buffer`, if they have the width of `Self`.
    fn slice_of(buffer: &Buffer) -> (s: Option<&[Self]>)
        ensures
            s is Some <==> buffer.spec_width() == Self::spec_width(),
            s matches Some(v) ==> v@.len() == buffer.spec_len() && forall|i: int|
                0 <= i < v@.len() ==> (#[trigger] v@[i]).to_int() == buffer.bits()[i],
    ;

    /// The canonical pattern of the floating-point value that this pattern
    /// holds.
    fn canonical_float(self) -> (c: Self)
        ensures
            c.to_int() == canonical_bits(Self::spec_width(), self.to_int()),
    ;
}

impl NativeType for u32 {
    open spec fn spec_width() -> BitWidth {
        BitWidth::W32
    }

    open spec fn to_int(self) -> int {
        self as int
    }

    proof fn lemma_native(x: u32) {
    }

    fn slice_of(buffer: &Buffer) -> (s: Option<&[u32]>) {
        match buffer {
            Buffer::W32(v) => Some(v.as_slice()),
            _ => None,
        }
    }

    fn canonical_float(self) -> (c: u32) {
        canonical_f32(self)
    }
}

impl NativeType for u64 {
    open spec fn spec_width() -> BitWidth {
        BitWidth::W64
    }

    open spec fn to_int(self) -> int {
        self as int
    }

    proof fn lemma_native(x: u64) {
    }

    fn slice_of(buffer: &Buffer) -> (s: Option<&[u64]>) {
        match buffer {
            Buffer::W64(v) => Some(v.as_slice()),
            _ => None,
        }
    }

    fn canonical_float(self) -> (c: u64) {
        canonical_f64(self)
    }
}

impl NativeType for u128 {
    open spec fn spec_width() -> BitWidth {
        BitWidth::W128
    }

    open spec fn to_int(self) -> int {
        self as int
    }

    proof fn lemma_native(x: u128) {
    }

    fn slice_of(buffer: &Buffer) -> (s: Option<&[u128]>) {
        match buffer {
            Buffer::W128(v) => Some(v.as_slice()),
            _ => None,
        }
    }

    fn canonical_float(self) -> (c: u128) {
        self
    }
}

/// What each of the given columns holds, column by column.
pub open spec fn column_slots<A: Chunk>(cas: Seq<ChunkedArray<A>>) -> Seq<Seq<Option<Scalar>>> {
    Seq::new(cas.len(), |p: int| cas[p].slots())
}

/// What each of the given arrays holds, array by array.
pub open spec fn ref_slots<A: Array>(arrays: Seq<&A>) -> Seq<Seq<Option<Scalar>>> {
    Seq::new(arrays.len(), |c: int| arrays[c].spec_slots())
}

/// What the given arrays hold, one array after the other.
pub open spec fn arrays_slots<A: Array>(arrays: Seq<&A>) -> Seq<Option<Scalar>> {
    joined(ref_slots(arrays), arrays.len() as int)
}

/// Splits a column into `n` partitions of near-equal size, or into one
/// where `n` is zero. The partitions do not overlap, and together they are
/// the column: every one but the last has the `n`-th part of the rows, and
/// the last takes what remains.
pub fn split<A: Chunk>(ca: &ChunkedArray<A>, n: usize) -> (parts: Vec<ChunkedArray<A>>)
    ensures
        parts@.len() == if n == 0 {
            1
        } else {
            n as int
        },
        forall|p: int|
            0 <= p < parts@.len() ==> (#[trigger] parts@[p]).data_type() == ca.data_type(),
        forall|p: int|
            0 <= p < parts@.len() ==> (#[trigger] parts@[p]).slots() == ca.slots().subrange(
                part_bound(ca.slots().len() as int, parts@.len() as int, p),
                part_bound(ca.slots().len() as int, parts@.len() as int, p + 1),
            ),
        joined(column_slots(parts@), parts@.len() as int) == ca.slots(),
{
    let total = ca.len();
    let count = if n == 0 {
        1
    } else {
        n
    };
    let ghost all = ca.slots();
    let offsets = _split_offsets(total, count);
    proof {
        lemma_splits_cover(offsets@, total as int, count as int);
        lemma_part_bounds(offsets@, total as int, count as int);
    }
    let mut parts: Vec<ChunkedArray<A>> = Vec::with_capacity(count);
    let mut p: usize = 0;
    while p < count
        invariant
            p <= count == offsets@.len(),
            total == all.len(),
            all == ca.slots(),
            forall|q: int|
                0 <= q < count ==> (#[trigger] offsets@[q]).0 == part_bound(
                    total as int,
                    count as int,
                    q,
                ) && offsets@[q].0 + offsets@[q].1 == part_bound(
                    total as int,
                    count as int,
                    q + 1,
                ) && offsets@[q].0 + offsets@[q].1 <= total,
            part_bound(total as int, count as int, 0) == 0,
            parts@.len() == p,
            forall|q: int| 0 <= q < p ==> (#[trigger] parts@[q]).data_type() == ca.data_type(),
            forall|q: int|
                0 <= q < p ==> (#[trigger] parts@[q]).slots() == all.subrange(
                    part_bound(total as int, count as int, q),
                    part_bound(total as int, count as int, q + 1),
                ),
            joined(column_slots(parts@), p as int) == all.subrange(
                0,
                part_bound(total as int, count as int, p as int),
            ),
        decreases count - p,
    {
        let (offset, len) = offsets[p];
        let part = ca.slice(offset, len);
        let ghost before = parts@;
        parts.push(part);
        proof {
            lemma_joined_same(column_slots(before), column_slots(parts@), p as int);
            assert(joined(column_slots(parts@), p + 1) =~= all.subrange(0, offset + len));
        }
        p += 1;
    }
    assert(all.subrange(0, total as int) =~= all);
    parts
}

/// The chunks of the given columns, one column after the other.
pub fn get_arrays<A: Chunk>(cas: &Vec<ChunkedArray<A>>) -> (arrays: Vec<&A>)
    ensures
        arrays_slots(arrays@) == joined(column_slots(cas@), cas@.len() as int),
        forall|c: int|
            0 <= c < arrays@.len() ==> exists|p: int|
                0 <= p < cas@.len() && (#[trigger] arrays@[c]).spec_dtype() == cas@[p].data_type(),
{
    let mut arrays: Vec<&A> = Vec::new();
    let ghost columns = column_slots(cas@);
    let mut p: usize = 0;
    while p < cas.len()
        invariant
            p <= cas@.len(),
            columns == column_slots(cas@),
            arrays_slots(arrays@) == joined(columns, p as int),
            forall|c: int|
                0 <= c < arrays@.len() ==> exists|q: int|
                    0 <= q < cas@.len() && (#[trigger] arrays@[c]).spec_dtype()
                        == cas@[q].data_type(),
        decreases cas.len() - p,
    {
        let chunks = cas[p].chunks();
        let ghost seqs = slot_seqs(chunks@);
        let ghost before = arrays_slots(arrays@);
        let mut c: usize = 0;
        while c < chunks.len()
            invariant
                c <= chunks@.len(),
                p < cas@.len(),
                seqs == slot_seqs(chunks@),
                arrays_slots(arrays@) == before + joined(seqs, c as int),
                forall|d: int|
                    0 <= d < chunks@.len() ==> (#[trigger] chunks@[d]).spec_dtype()
                        == cas@[p as int].data_type(),
                forall|d: int|
                    0 <= d < arrays@.len() ==> exists|q: int|
                        0 <= q < cas@.len() && (#[trigger] arrays@[d]).spec_dtype()
                            == cas@[q].data_type(),
            decreases chunks.len() - c,
        {
            let ghost held = arrays@;
            arrays.push(&chunks[c]);
            proof {
                lemma_joined_same(ref_slots(held), ref_slots(arrays@), held.len() as int);
                assert(arrays_slots(arrays@) =~= before + joined(seqs, c + 1));
                assert forall|d: int| 0 <= d < arrays@.len() implies exists|q: int|
                    0 <= q < cas@.len() && (#[trigger] arrays@[d]).spec_dtype()
                        == cas@[q].data_type() by {
                    if d == held.len() {
                        assert(arrays@[d].spec_dtype() == cas@[p as int].data_type());
                    } else {
                        assert(arrays@[d] == held[d]);
                    }
                }
            }
            c += 1;
        }
        p += 1;
    }
    arrays
}

/// The keys of all the given buffers, one buffer after the other.
pub open spec fn owned_keys<K: JoinKey>(buffers: Seq<Vec<K>>) -> Seq<Option<K::Canon>> {
    canon_keys(concat(buffers))
}

/// The given buffers as slices, which is how the engine takes the
/// partitions of a side.
pub fn key_slices<K: JoinKey>(buffers: &Vec<Vec<K>>) -> (parts: Vec<&[K]>)
    ensures
        parts@.len() == buffers@.len(),
        forall|p: int| 0 <= p < parts@.len() ==> (#[trigger] parts@[p])@ == buffers@[p]@,
        side_keys(parts@) == owned_keys(buffers@),
{
    let mut parts: Vec<&[K]> = Vec::with_capacity(buffers.len());
    let mut p: usize = 0;
    while p < buffers.len()
        invariant
            p <= buffers@.len(),
            parts@.len() == p,
            forall|q: int| 0 <= q < p ==> (#[trigger] parts@[q])@ == buffers@[q]@,
            flat_upto(parts@, p as int) == concat_upto(buffers@, p as int),
        decreases buffers.len() - p,
    {
        let ghost before = parts@;
        parts.push(buffers[p].as_slice());
        proof {
            lemma_flat_same(before, parts@, p as int);
        }
        p += 1;
    }
    parts
}

/// Divides every one of the given partitions into `n` partitions of
/// near-equal size, or leaves it whole where `n` is zero. The keys stay in
/// their order, and nothing is copied.
pub fn split_slices<'a, K: JoinKey>(parts: &Vec<&'a [K]>, n: usize) -> (out: Vec<&'a [K]>)
    ensures
        side_keys(out@) == side_keys(parts@),
        out@.len() == parts@.len() * if n == 0 {
            1
        } else {
            n as int
        },
{
    let count = if n == 0 {
        1
    } else {
        n
    };
    let mut out: Vec<&'a [K]> = Vec::new();
    let mut p: usize = 0;
    while p < parts.len()
        invariant
            p <= parts@.len(),
            count >= 1,
            out@.len() == p * count,
            flat_upto(out@, out@.len() as int) == flat_upto(parts@, p as int),
        decreases parts.len() - p,
    {
        let part: &'a [K] = parts[p];
        let total = part.len();
        let offsets = _split_offsets(total, count);
        proof {
            lemma_splits_cover(offsets@, total as int, count as int);
            lemma_part_bounds(offsets@, total as int, count as int);
        }
        let ghost before = flat_upto(out@, out@.len() as int);
        let mut q: usize = 0;
        while q < count
            invariant
                q <= count == offsets@.len(),
                total == part@.len(),
                forall|r: int|
                    0 <= r < count ==> (#[trigger] offsets@[r]).0 == part_bound(
                        total as int,
                        count as int,
                        r,
                    ) && offsets@[r].0 + offsets@[r].1 == part_bound(
                        total as int,
                        count as int,
                        r + 1,
                    ) && offsets@[r].0 + offsets@[r].1 <= total,
                part_bound(total as int, count as int, 0) == 0,
                out@.len() == p * count + q,
                flat_upto(out@, out@.len() as int) == before + part@.subrange(
                    0,
                    part_bound(total as int, count as int, q as int),
                ),
            decreases count - q,
        {
            let (offset, len) = offsets[q];
            let piece = slice_subrange(part, offset, offset + len);
            let ghost held = out@;
            out.push(piece);
            proof {
                lemma_flat_same(held, out@, held.len() as int);
                assert(flat_upto(out@, out@.len() as int) =~= before + part@.subrange(
                    0,
                    offset + len,
                ));
            }
            q += 1;
        }
        proof {
            assert(part@.subrange(0, total as int) =~= part@);
            assert(p * count + count == (p + 1) * count) by (nonlinear_arith);
        }
        p += 1;
    }
    out
}

/// The keys of fixed-width arrays without nulls, as the values of the
/// arrays themselves. Nothing is copied.
pub fn arrays_as_slices<'a, T: NativeType>(arrays: &Vec<&'a PrimitiveArray>) -> (parts: Vec<
    &'a [T],
>)
    requires
        forall|c: int|
            0 <= c < arrays@.len() ==> (#[trigger] arrays@[c]).data_type().spec_width() == Some(
                T::spec_width(),
            ),
        forall|i: int| 0 <= i < arrays_slots(arrays@).len() ==> arrays_slots(arrays@)[i] is Some,
    ensures
        parts@.len() == arrays@.len(),
        forall|c: int|
            0 <= c < parts@.len() ==> (#[trigger] parts@[c])@.len() == arrays@[c].slots().len(),
        scalar_keys::<T>(side_keys(parts@)) == arrays_slots(arrays@),
{
    let ghost seqs = ref_slots(arrays@);
    let ghost all = arrays_slots(arrays@);
    let mut parts: Vec<&'a [T]> = Vec::with_capacity(arrays.len());
    let mut c: usize = 0;
    while c < arrays.len()
        invariant
            c <= arrays@.len(),
            seqs == ref_slots(arrays@),
            all == arrays_slots(arrays@),
            forall|d: int|
                0 <= d < arrays@.len() ==> (#[trigger] arrays@[d]).data_type().spec_width()
                    == Some(T::spec_width()),
            forall|i: int| 0 <= i < all.len() ==> all[i] is Some,
            parts@.len() == c,
            forall|d: int|
                0 <= d < c ==> (#[trigger] parts@[d])@.len() == arrays@[d].slots().len(),
            scalar_keys::<T>(canon_keys(flat_upto(parts@, c as int))) == joined(seqs, c as int),
        decreases arrays.len() - c,
    {
        let array: &'a PrimitiveArray = arrays[c];
        let buffer = array.values();
        let values: &'a [T] = match T::slice_of(buffer) {
            Some(v) => v,
            None => vstd::pervasive::unreached(),
        };
        let ghost before = parts@;
        parts.push(values);
        proof {
            lemma_flat_same(before, parts@, c as int);
            lemma_joined_part(seqs, c as int);
            let slots = array.slots();
            assert(all.subrange(prefix_len(seqs, c as int), prefix_len(seqs, c + 1)) == slots);
            assert forall|i: int| 0 <= i < values@.len() implies scalar_of::<T>(
                #[trigger] values@[i].canon(),
            ) == slots[i] by {
                T::lemma_native(values@[i]);
                assert(slots[i] == all.subrange(
                    prefix_len(seqs, c as int),
                    prefix_len(seqs, c + 1),
                )[i]);
                assert(slots[i] is Some);
            }
            assert(scalar_keys::<T>(canon_keys(flat_upto(parts@, c + 1))) =~= joined(seqs, c + 1));
        }
        c += 1;
    }
    parts
}

/// The keys of fixed-width arrays, one buffer for each array: `None` for a
/// null, and for a valid slot its value, or the canonical pattern of its
/// value if `float` is set.
pub fn optional_keys<T: NativeType>(arrays: &Vec<&PrimitiveArray>, float: bool) -> (buffers: Vec<
    Vec<Option<T>>,
>)
    requires
        forall|c: int|
            0 <= c < arrays@.len() ==> (#[trigger] arrays@[c]).data_type().spec_width() == Some(
                T::spec_width(),
            ),
    ensures
        buffers@.len() == arrays@.len(),
        forall|c: int|
            0 <= c < buffers@.len() ==> (#[trigger] buffers@[c])@.len()
                == arrays@[c].slots().len(),
        scalar_keys::<Option<T>>(owned_keys(buffers@)) == normalized(
            arrays_slots(arrays@),
            if float {
                Some(T::spec_width())
            } else {
                None
            },
        ),
{
    let ghost seqs = ref_slots(arrays@);
    let ghost width = if float {
        Some(T::spec_width())
    } else {
        None
    };
    let mut buffers: Vec<Vec<Option<T>>> = Vec::with_capacity(arrays.len());
    let mut c: usize = 0;
    while c < arrays.len()
        invariant
            c <= arrays@.len(),
            seqs == ref_slots(arrays@),
            width == if float {
                Some(T::spec_width())
            } else {
                None::<BitWidth>
            },
            forall|d: int|
                0 <= d < arrays@.len() ==> (#[trigger] arrays@[d]).data_type().spec_width()
                    == Some(T::spec_width()),
            buffers@.len() == c,
            forall|d: int|
                0 <= d < c ==> (#[trigger] buffers@[d])@.len() == arrays@[d].slots().len(),
            scalar_keys::<Option<T>>(canon_keys(concat_upto(buffers@, c as int))) == normalized(
                joined(seqs, c as int),
                width,
            ),
        decreases arrays.len() - c,
    {
        let array: &PrimitiveArray = arrays[c];
        let buffer = array.values();
        let values: &[T] = match T::slice_of(buffer) {
            Some(v) => v,
            None => vstd::pervasive::unreached(),
        };
        let ghost slots = array.slots();
        let mut keys: Vec<Option<T>> = Vec::with_capacity(values.len());
        let mut i: usize = 0;
        while i < values.len()
            invariant
                i <= values@.len(),
                values@.len() == slots.len(),
                slots == array.spec_slots(),
                slots == primitive_slots(buffer.bits(), array.validity_bits()),
                forall|j: int|
                    0 <= j < values@.len() ==> (#[trigger] values@[j]).to_int()
                        == buffer.bits()[j],
                width == if float {
                    Some(T::spec_width())
                } else {
                    None::<BitWidth>
                },
                keys@.len() == i,
                forall|j: int|
                    0 <= j < i ==> scalar_of::<Option<T>>(#[trigger] keys@[j].canon())
                        == normalized(slots, width)[j],
            decreases values.len() - i,
        {
            let key = if array.is_null(i) {
                None
            } else if float {
                Some(values[i].canonical_float())
            } else {
                Some(values[i])
            };
            proof {
                match key {
                    Some(k) => {
                        T::lemma_native(k);
                    },
                    None => {},
                }
            }
            keys.push(key);
            i += 1;
        }
        let ghost before = buffers@;
        buffers.push(keys);
        proof {
            lemma_concat_same(before, buffers@, c as int);
            lemma_joined_part(seqs, c as int);
            lemma_joined(seqs, c as int);
            assert(seqs[c as int] == slots);
            let held = scalar_keys::<Option<T>>(canon_keys(concat_upto(buffers@, c as int)));
            let more = scalar_keys::<Option<T>>(canon_keys(concat_upto(buffers@, c + 1)));
            let target = normalized(joined(seqs, c + 1), width);
            assert(concat_upto(buffers@, c + 1) == concat_upto(buffers@, c as int) + keys@);
            assert(joined(seqs, c + 1) == joined(seqs, c as int) + slots);
            assert(held.len() == joined(seqs, c as int).len());
            assert(target.len() == joined(seqs, c + 1).len());
            assert(more.len() == target.len());
            assert forall|i: int| 0 <= i < more.len() implies more[i] == target[i] by {
                if i < held.len() {
                    assert(more[i] == held[i]);
                    assert(joined(seqs, c + 1)[i] == joined(seqs, c as int)[i]);
                    assert(held[i] == normalized(joined(seqs, c as int), width)[i]);
                } else {
                    let j = i - held.len();
                    assert(concat_upto(buffers@, c + 1)[i] == keys@[j]);
                    assert(joined(seqs, c + 1)[i] == slots[j]);
                    assert(scalar_of::<Option<T>>(keys@[j].canon()) == normalized(slots, width)[j]);
                }
            }
            assert(more =~= target);
        }
        c += 1;
    }
    buffers
}

/// The keys of byte-string arrays, one buffer for each array: every byte
/// string with its hash, and `None` for a null. The bytes are not copied.
pub fn to_bytes_hashes<'a>(arrays: &Vec<&'a BinaryArray>) -> (buffers: Vec<Vec<BytesHash<'a>>>)
    ensures
        buffers@.len() == arrays@.len(),
        forall|c: int|
            0 <= c < buffers@.len() ==> (#[trigger] buffers@[c])@.len()
                == arrays@[c].slots().len(),
        scalar_keys::<BytesHash<'a>>(owned_keys(buffers@)) == arrays_slots(arrays@),
{
    let ghost seqs = ref_slots(arrays@);
    let mut buffers: Vec<Vec<BytesHash<'a>>> = Vec::with_capacity(arrays.len());
    let mut c: usize = 0;
    while c < arrays.len()
        invariant
            c <= arrays@.len(),
            seqs == ref_slots(arrays@),
            buffers@.len() == c,
            forall|d: int|
                0 <= d < c ==> (#[trigger] buffers@[d])@.len() == arrays@[d].slots().len(),
            scalar_keys::<BytesHash<'a>>(canon_keys(concat_upto(buffers@, c as int))) == joined(
                seqs,
                c as int,
            ),
        decreases arrays.len() - c,
    {
        let array: &'a BinaryArray = arrays[c];
        let ghost slots = array.slots();
        let len = array.len();
        proof {
            crate::array::binary::lemma_binary_slots(array);
        }
        let mut keys: Vec<BytesHash<'a>> = Vec::with_capacity(len);
        let mut i: usize = 0;
        while i < len
            invariant
                i <= len == slots.len(),
                slots == array.spec_slots(),
                slots == crate::array::binary::binary_slots(
                    array.spec_offsets(),
                    array.spec_values(),
                    array.validity_bits(),
                ),
                keys@.len() == i,
                forall|j: int|
                    0 <= j < i ==> scalar_of::<BytesHash<'a>>(#[trigger] keys@[j].canon())
                        == slots[j],
            decreases len - i,
        {
            let key = BytesHash::new(array.get(i));
            keys.push(key);
            i += 1;
        }
        let ghost before = buffers@;
        buffers.push(keys);
        proof {
            lemma_concat_same(before, buffers@, c as int);
            lemma_joined_part(seqs, c as int);
            lemma_joined(seqs, c as int);
            assert(scalar_keys::<BytesHash<'a>>(canon_keys(concat_upto(buffers@,
                c + 1))) =~= joined(
                seqs,
                c + 1,
            ));
        }
        c += 1;
    }
    buffers
}

/// The chunks of a column, by reference.
pub fn chunk_refs<'a, A: Chunk>(ca: &'a ChunkedArray<A>) -> (arrays: Vec<&'a A>)
    ensures
        arrays_slots(arrays@) == ca.slots(),
        arrays@.len() == ca.spec_chunks().len(),
        forall|c: int| 0 <= c < arrays@.len() ==> *(#[trigger] arrays@[c]) == ca.spec_chunks()[c],
        forall|c: int|
            0 <= c < arrays@.len() ==> (#[trigger] arrays@[c]).spec_dtype() == ca.data_type(),
{
    let chunks = ca.chunks();
    let mut arrays: Vec<&'a A> = Vec::with_capacity(chunks.len());
    let mut c: usize = 0;
    while c < chunks.len()
        invariant
            c <= chunks@.len(),
            arrays@.len() == c,
            forall|d: int| 0 <= d < c ==> *(#[trigger] arrays@[d]) == chunks@[d],
            forall|d: int|
                0 <= d < chunks@.len() ==> (#[trigger] chunks@[d]).spec_dtype() == ca.data_type(),
            forall|d: int| 0 <= d < c ==> (#[trigger] arrays@[d]).spec_dtype() == ca.data_type(),
        decreases chunks.len() - c,
    {
        arrays.push(&chunks[c]);
        c += 1;
    }
    proof {
        assert(ref_slots(arrays@) =~= slot_seqs(chunks@));
    }
    arrays
}

/// The keys of a fixed-width column without nulls, as partitions of the
/// values of its chunks: every chunk is divided into `n` partitions, or
/// left whole where `n` is zero. Nothing is copied: the partitions are
/// slices of the values as they are stored.
pub fn contiguous_slices<'a, T: NativeType>(ca: &'a PrimitiveChunked, n: usize) -> (parts: Vec<
    &'a [T],
>)
    requires
        ca.data_type().spec_width() == Some(T::spec_width()),
        forall|i: int| 0 <= i < ca.slots().len() ==> ca.slots()[i] is Some,
    ensures
        parts@.len() == ca.spec_chunks().len() * if n == 0 {
            1
        } else {
            n as int
        },
        scalar_keys::<T>(side_keys(parts@)) == ca.slots(),
{
    let arrays = chunk_refs(ca);
    let whole = arrays_as_slices::<T>(&arrays);
    split_slices(&whole, n)
}

/// The keys of fixed-width columns without nulls, as the values of their
/// chunks. Nothing is copied.
pub fn chunks_as_slices<'a, T: NativeType>(splitted: &'a Vec<PrimitiveChunked>) -> (parts: Vec<
    &'a [T],
>)
    requires
        forall|p: int|
            0 <= p < splitted@.len() ==> (#[trigger] splitted@[p]).data_type().spec_width()
                == Some(T::spec_width()),
        forall|i: int|
            0 <= i < joined(column_slots(splitted@), splitted@.len() as int).len() ==> joined(
                column_slots(splitted@),
                splitted@.len() as int,
            )[i] is Some,
    ensures
        scalar_keys::<T>(side_keys(parts@)) == joined(
            column_slots(splitted@),
            splitted@.len() as int,
        ),
{
    let arrays = get_arrays(splitted);
    arrays_as_slices::<T>(&arrays)
}

} // verus!
