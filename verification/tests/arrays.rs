use hash_join::array::{
    clone, new_empty_array, new_null_array, Array, ArrayRef, BinaryArray, Buffer, Chunk,
    GenericBinaryArray, IntoBoxedArray, MutableArray, MutableBinaryArray,
    MutablePrimitiveArray, NullArray, PrimitiveArray, PushUnchecked, Splitable, TryExtend,
    TryExtendFromSelf, TryPush,
};
use hash_join::bitmap::{Bitmap, MutableBitmap};
use hash_join::datatypes::{ArrowDataType, BitWidth, PhysicalType, PrimitiveType};

fn bits(values: &[bool]) -> Bitmap {
    Bitmap::from_vec(values.to_vec())
}

fn bitmap_bits(bitmap: &Bitmap) -> Vec<bool> {
    (0..bitmap.len()).map(|i| bitmap.get_bit(i)).collect()
}

fn validity_bits(array: &dyn Array) -> Option<Vec<bool>> {
    array.validity().map(bitmap_bits)
}

fn nulls(array: &dyn Array) -> Vec<bool> {
    (0..array.len()).map(|i| array.is_null(i)).collect()
}

fn words(values: &[Option<&str>]) -> BinaryArray {
    let mut offsets: Vec<i64> = vec![0];
    let mut bytes: Vec<u8> = Vec::new();
    for v in values {
        if let Some(s) = v {
            bytes.extend_from_slice(s.as_bytes());
        }
        offsets.push(bytes.len() as i64);
    }
    let validity = Bitmap::from_vec(values.iter().map(|v| v.is_some()).collect());
    BinaryArray::try_new(ArrowDataType::LargeUtf8, offsets, bytes, Some(validity)).unwrap()
}

fn strings(array: &BinaryArray) -> Vec<Option<String>> {
    (0..array.len())
        .map(|i| array.get(i).map(|b| String::from_utf8(b.to_vec()).unwrap()))
        .collect()
}

fn values64(array: &PrimitiveArray) -> Vec<u64> {
    match array.values() {
        Buffer::W64(v) => v.clone(),
        _ => panic!("64-bit values expected"),
    }
}

const ALL_TYPES: [ArrowDataType; 10] = [
    ArrowDataType::Null,
    ArrowDataType::Int32,
    ArrowDataType::Int64,
    ArrowDataType::Int128,
    ArrowDataType::UInt32,
    ArrowDataType::UInt64,
    ArrowDataType::Float32,
    ArrowDataType::Float64,
    ArrowDataType::LargeBinary,
    ArrowDataType::LargeUtf8,
];

#[test]
fn physical_types() {
    assert_eq!(ArrowDataType::Null.to_physical_type(), PhysicalType::Null);
    assert_eq!(
        ArrowDataType::Float32.to_physical_type(),
        PhysicalType::Primitive(PrimitiveType::Float32)
    );
    assert_eq!(ArrowDataType::LargeUtf8.to_physical_type(), PhysicalType::LargeUtf8);
    assert_eq!(PrimitiveType::Int32.width(), BitWidth::W32);
    assert_eq!(PrimitiveType::Float64.width(), BitWidth::W64);
    assert_eq!(PrimitiveType::Int128.width(), BitWidth::W128);
    assert!(PrimitiveType::Float32.is_float());
    assert!(!PrimitiveType::UInt32.is_float());
}

#[test]
fn bitmap_counts_its_unset_bits() {
    let bitmap = bits(&[true, false, false, true, false]);
    assert_eq!(bitmap.len(), 5);
    assert_eq!(bitmap.unset_bits(), 3);
    assert_eq!(bitmap.get(1), Some(false));
    assert_eq!(bitmap.get(5), None);
    assert_eq!(Bitmap::new_zeroed(4).unset_bits(), 4);
    assert_eq!(Bitmap::new_with_value(true, 4).unset_bits(), 0);
    assert!(Bitmap::new_zeroed(0).is_empty());
}

#[test]
fn bitmap_slices_and_splits() {
    let bitmap = bits(&[true, false, false, true, false]);
    assert_eq!(bitmap_bits(&bitmap.sliced(1, 3)), vec![false, false, true]);
    assert_eq!(bitmap_bits(&bitmap.sliced(5, 0)), Vec::<bool>::new());
    let (lhs, rhs) = bitmap.split_at(2);
    assert_eq!(bitmap_bits(&lhs), vec![true, false]);
    assert_eq!(bitmap_bits(&rhs), vec![false, true, false]);
    assert_eq!(bitmap_bits(&bitmap.duplicate()), bitmap_bits(&bitmap));
}

#[test]
fn empty_arrays_of_every_type() {
    for dtype in ALL_TYPES {
        let array = new_empty_array(dtype);
        assert_eq!(array.len(), 0);
        assert!(array.is_empty());
        assert_eq!(*array.dtype(), dtype);
        assert_eq!(array.null_count(), 0);
        assert!(!array.has_nulls());
        assert_eq!(array.validity().is_some(), dtype == ArrowDataType::Null);
    }
    assert!(matches!(new_empty_array(ArrowDataType::Null), ArrayRef::Null(_)));
    assert!(matches!(new_empty_array(ArrowDataType::Float32), ArrayRef::Primitive(_)));
    assert!(matches!(new_empty_array(ArrowDataType::LargeBinary), ArrayRef::Binary(_)));
}

#[test]
fn null_arrays_of_every_type() {
    for dtype in ALL_TYPES {
        let array = new_null_array(dtype, 3);
        assert_eq!(array.len(), 3);
        assert_eq!(*array.dtype(), dtype);
        assert_eq!(array.null_count(), 3);
        assert!(array.has_nulls());
        assert_eq!(nulls(&array), vec![true, true, true]);
        assert_eq!(validity_bits(&array), Some(vec![false, false, false]));
        assert!(!array.is_valid(1));
    }
    assert_eq!(new_null_array(ArrowDataType::Int64, 0).len(), 0);
}

#[test]
fn primitive_array_holds_values_and_nulls() {
    let array = PrimitiveArray::try_new(
        ArrowDataType::Int64,
        Buffer::W64(vec![7, 8, 9]),
        Some(bits(&[true, false, true])),
    )
    .unwrap();
    assert_eq!(array.len(), 3);
    assert_eq!(array.null_count(), 1);
    assert_eq!(nulls(&array), vec![false, true, false]);
    assert!(array.is_valid(0));
    assert!(array.is_null_unchecked(1));
    assert_eq!(values64(&array), vec![7, 8, 9]);
    let plain =
        PrimitiveArray::try_new(ArrowDataType::UInt64, Buffer::W64(vec![7]), None).unwrap();
    assert_eq!(plain.null_count(), 0);
    assert!(!plain.has_nulls());
    assert!(plain.validity().is_none());
}

#[test]
fn primitive_array_is_refused_where_its_parts_do_not_fit() {
    let values = || Buffer::W64(vec![7, 8, 9]);
    assert!(PrimitiveArray::try_new(ArrowDataType::Int32, values(), None).is_none());
    assert!(PrimitiveArray::try_new(ArrowDataType::LargeUtf8, values(), None).is_none());
    assert!(PrimitiveArray::try_new(ArrowDataType::Null, values(), None).is_none());
    assert!(
        PrimitiveArray::try_new(ArrowDataType::Int64, values(), Some(bits(&[true]))).is_none()
    );
    assert!(PrimitiveArray::try_new(ArrowDataType::Float64, values(), None).is_some());
    assert!(
        PrimitiveArray::try_new(ArrowDataType::Int128, Buffer::W128(vec![1]), None).is_some()
    );
}

#[test]
fn binary_array_holds_its_strings() {
    let array = words(&[Some("ab"), None, Some(""), Some("cde")]);
    assert_eq!(array.len(), 4);
    assert_eq!(array.null_count(), 1);
    assert_eq!(
        strings(&array),
        vec![Some("ab".to_string()), None, Some(String::new()), Some("cde".to_string())]
    );
    assert_eq!(array.value(3), b"cde");
    assert_eq!(GenericBinaryArray::<i64>::values(&array), b"abcde");
    assert_eq!(GenericBinaryArray::<i64>::offsets(&array), [0, 2, 2, 2, 5]);
}

#[test]
fn binary_array_is_refused_where_its_parts_do_not_fit() {
    let ok = |offsets: Vec<i64>, validity: Option<Bitmap>| {
        BinaryArray::try_new(ArrowDataType::LargeBinary, offsets, vec![1, 2, 3], validity)
            .is_some()
    };
    assert!(ok(vec![0, 1, 3], None));
    assert!(ok(vec![1, 1], None));
    assert!(ok(vec![0], None));
    assert!(!ok(vec![], None));
    assert!(!ok(vec![-1, 2], None));
    assert!(!ok(vec![0, 2, 1], None));
    assert!(!ok(vec![0, 4], None));
    assert!(!ok(vec![0, 1], Some(bits(&[true, true]))));
    assert!(ok(vec![0, 1], Some(bits(&[false]))));
    assert!(BinaryArray::try_new(ArrowDataType::Int64, vec![0], vec![], None).is_none());
}

#[test]
fn arrays_are_sliced() {
    let array = words(&[Some("ab"), None, Some(""), Some("cde")]);
    let sliced = array.sliced(1, 3);
    assert_eq!(sliced.len(), 3);
    assert_eq!(*sliced.dtype(), ArrowDataType::LargeUtf8);
    assert_eq!(nulls(&sliced), vec![true, false, false]);
    match &sliced {
        ArrayRef::Binary(a) => {
            assert_eq!(strings(a), vec![None, Some(String::new()), Some("cde".to_string())])
        },
        _ => panic!("a slice has the layout of its array"),
    }
    // A slice without slots keeps only the type.
    let empty = array.sliced(2, 0);
    assert_eq!(empty.len(), 0);
    assert!(empty.validity().is_none());
    assert_eq!(array.sliced_unchecked(2, 0).validity().map(|v| v.len()), Some(0));
    let mut numbers = PrimitiveArray::try_new(
        ArrowDataType::Int64,
        Buffer::W64(vec![7, 8, 9, 10]),
        Some(bits(&[true, false, true, true])),
    )
    .unwrap();
    numbers.slice(1, 2);
    assert_eq!(values64(&numbers), vec![8, 9]);
    assert_eq!(validity_bits(&numbers), Some(vec![false, true]));
    let part = numbers.sliced_chunk(1, 1);
    assert_eq!(values64(&part), vec![9]);
    let mut none = NullArray::new_null(5);
    none.slice(2, 2);
    assert_eq!(none.len(), 2);
    assert_eq!(none.null_count(), 2);
}

#[test]
fn arrays_are_split() {
    let array = PrimitiveArray::try_new(
        ArrowDataType::Int64,
        Buffer::W64(vec![7, 8, 9]),
        Some(bits(&[true, false, true])),
    )
    .unwrap();
    let (lhs, rhs) = array.split_at_boxed(1);
    assert_eq!((lhs.len(), rhs.len()), (1, 2));
    assert_eq!(nulls(&rhs), vec![true, false]);
    let (lhs, rhs) = array.split_at_boxed(3);
    assert_eq!((lhs.len(), rhs.len()), (3, 0));
}

#[test]
fn arrays_are_cloned() {
    let array = ArrayRef::Binary(words(&[Some("ab"), None]));
    let copy = clone(&array);
    assert_eq!(copy.len(), 2);
    assert_eq!(nulls(&copy), vec![false, true]);
    match (&array, &copy) {
        (ArrayRef::Binary(a), ArrayRef::Binary(b)) => assert_eq!(strings(a), strings(b)),
        _ => panic!("a clone has the layout of its array"),
    }
    let numbers = PrimitiveArray::try_new(
        ArrowDataType::Float64,
        Buffer::W64(vec![7, 8]),
        Some(bits(&[false, true])),
    )
    .unwrap();
    match numbers.to_boxed() {
        ArrayRef::Primitive(copy) => {
            assert_eq!(values64(&copy), vec![7, 8]);
            assert_eq!(validity_bits(&copy), Some(vec![false, true]));
            assert_eq!(*copy.dtype(), ArrowDataType::Float64);
        },
        _ => panic!("a clone has the layout of its array"),
    }
    assert!(matches!(clone(&ArrayRef::Null(NullArray::new_null(2))), ArrayRef::Null(_)));
    assert_eq!(NullArray::new_null(2).into_boxed().len(), 2);
    assert_eq!(array.into_boxed().len(), 2);
}

#[test]
fn validity_is_replaced() {
    let array =
        PrimitiveArray::try_new(ArrowDataType::Int64, Buffer::W64(vec![7, 8]), None).unwrap();
    let masked = array.with_validity(Some(bits(&[false, true])));
    assert_eq!(nulls(&masked), vec![true, false]);
    assert_eq!(values64(&masked), vec![7, 8]);
    let bare = words(&[None, Some("a")]).with_validity(None);
    assert_eq!(bare.null_count(), 0);
}

#[test]
fn optional_bitmap_is_split() {
    let validity = Some(bits(&[true, true, false, true]));
    assert!(validity.check_bound(4));
    assert!(!validity.check_bound(5));
    let (lhs, rhs) = validity.split_at(2);
    // A part without an unset bit needs no bitmap.
    assert!(lhs.is_none());
    assert_eq!(rhs.as_ref().map(bitmap_bits), Some(vec![false, true]));
    let (lhs, rhs) = validity.split_at_unchecked(3);
    assert_eq!(lhs.as_ref().map(bitmap_bits), Some(vec![true, true, false]));
    assert!(rhs.is_none());
    let none: Option<Bitmap> = None;
    assert!(none.check_bound(100));
    let (lhs, rhs) = none.split_at(100);
    assert!(lhs.is_none() && rhs.is_none());
}

#[test]
fn mutable_array_grows() {
    let mut array = MutablePrimitiveArray::new();
    assert!(array.is_empty());
    assert!(array.validity().is_none());
    array.push(Some(4));
    array.push(Some(5));
    assert!(array.validity().is_none());
    array.push_null();
    array.push_unchecked(Some(6));
    assert_eq!(MutableArray::len(&array), 4);
    assert_eq!(*MutableArray::dtype(&array), ArrowDataType::UInt32);
    assert!(array.is_valid(1));
    assert!(!array.is_valid(2));
    assert!(array.is_valid(3));
    array.reserve(100);
    array.shrink_to_fit();
    assert_eq!(MutableArray::len(&array), 4);
    assert!(!array.is_valid(2));
    let frozen = array.as_box();
    assert!(array.is_empty());
    assert_eq!(nulls(&frozen), vec![false, false, true, false]);
    match frozen {
        ArrayRef::Primitive(a) => match a.values() {
            Buffer::W32(v) => assert_eq!((v[0], v[1], v[3]), (4, 5, 6)),
            _ => panic!("row addresses are 32 bits wide"),
        },
        _ => panic!("a primitive array expected"),
    }
    array.push(None);
    assert_eq!(array.as_arc().null_count(), 1);
}

#[test]
fn mutable_bitmap_grows() {
    let mut bitmap = MutableBitmap::new();
    assert!(bitmap.is_empty());
    bitmap.push(true);
    bitmap.push_unchecked(false);
    bitmap.reserve(10);
    bitmap.shrink_to_fit();
    assert_eq!(bitmap.len(), 2);
    assert!(bitmap.get(0));
    assert!(!bitmap.get(1));
    let frozen = bitmap.freeze();
    assert_eq!(bitmap_bits(&frozen), vec![true, false]);
    assert!(bitmap.is_empty());
    assert_eq!(MutableBitmap::from_len_value(3, true).len(), 3);
}

#[test]
fn index_arrays() {
    let array = PrimitiveArray::from_indices(&vec![Some(3), None, Some(0)]);
    assert_eq!(*array.dtype(), ArrowDataType::UInt32);
    assert_eq!(nulls(&array), vec![false, true, false]);
    match array.values() {
        Buffer::W32(v) => assert_eq!((v[0], v[2]), (3, 0)),
        _ => panic!("row addresses are 32 bits wide"),
    }
}

fn held(array: &MutableBinaryArray) -> Vec<Option<Vec<u8>>> {
    (0..MutableArray::len(array)).map(|i| array.get(i).map(|b| b.to_vec())).collect()
}

#[test]
fn mutable_binary_array_grows() {
    let mut array = MutableBinaryArray::new(ArrowDataType::LargeUtf8);
    assert!(array.is_empty());
    assert_eq!(array.try_push(Some(&b"ab"[..])), Ok(()));
    assert_eq!(array.try_push(Some(&b""[..])), Ok(()));
    assert!(array.validity().is_none());
    assert_eq!(array.try_push(None), Ok(()));
    array.push_value(b"cde");
    array.push_null();
    assert_eq!(MutableArray::len(&array), 5);
    assert_eq!(array.bytes(), 5);
    assert_eq!(
        held(&array),
        vec![Some(b"ab".to_vec()), Some(vec![]), None, Some(b"cde".to_vec()), None]
    );
    assert!(array.is_valid(3));
    assert!(!array.is_valid(4));
    array.reserve(10);
    array.shrink_to_fit();
    assert_eq!(held(&array).len(), 5);
    let frozen = array.as_box();
    assert!(array.is_empty());
    assert_eq!(*frozen.dtype(), ArrowDataType::LargeUtf8);
    assert_eq!(nulls(&frozen), vec![false, false, true, false, true]);
    match frozen {
        ArrayRef::Binary(a) => {
            assert_eq!(
                strings(&a),
                vec![
                    Some("ab".to_string()),
                    Some(String::new()),
                    None,
                    Some("cde".to_string()),
                    None
                ]
            )
        },
        _ => panic!("a binary array expected"),
    }
}

#[test]
fn mutable_binary_array_is_extended() {
    let mut array = MutableBinaryArray::new(ArrowDataType::LargeBinary);
    let items: Vec<Option<&[u8]>> = vec![Some(b"x"), None, Some(b"yz")];
    assert_eq!(array.try_extend(&items), Ok(()));
    assert_eq!(array.try_extend(&[]), Ok(()));
    assert_eq!(held(&array), vec![Some(b"x".to_vec()), None, Some(b"yz".to_vec())]);
    let mut other = MutableBinaryArray::new(ArrowDataType::LargeBinary);
    other.push_value(b"q");
    assert_eq!(other.try_extend_from_self(&array), Ok(()));
    assert_eq!(
        held(&other),
        vec![Some(b"q".to_vec()), Some(b"x".to_vec()), None, Some(b"yz".to_vec())]
    );
    assert_eq!(other.bytes(), 4);
    assert_eq!(held(&array).len(), 3);
}
