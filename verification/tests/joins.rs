use hash_join::array::{Array, BinaryArray, Buffer, PrimitiveArray};
use hash_join::bitmap::Bitmap;
use hash_join::chunked::ChunkedArray;
use hash_join::datatypes::ArrowDataType;
use hash_join::error::{JoinError, JoinSide};
use hash_join::index::{ChunkId, ChunkJoinIds, ChunkJoinOptIds};
use hash_join::join::dispatch::SeriesJoin;
use hash_join::join::validate::JoinValidation;
use hash_join::join::variants::{join, JoinTuples, JoinType};
use hash_join::series::{Column, DataType, Series};

fn int_array(values: &[Option<u64>]) -> PrimitiveArray {
    let bits: Vec<u64> = values.iter().map(|v| v.unwrap_or(0)).collect();
    let validity = if values.iter().any(|v| v.is_none()) {
        Some(Bitmap::from_vec(values.iter().map(|v| v.is_some()).collect()))
    } else {
        None
    };
    PrimitiveArray::try_new(ArrowDataType::Int64, Buffer::W64(bits), validity).unwrap()
}

fn int_series(chunks: &[&[Option<u64>]]) -> Series {
    let arrays: Vec<PrimitiveArray> = chunks.iter().map(|c| int_array(c)).collect();
    let ca = ChunkedArray::from_chunks(ArrowDataType::Int64, arrays).unwrap();
    Series::try_new(DataType::Int64, Column::Primitive(ca)).unwrap()
}

fn keys(values: &[u64]) -> Series {
    let row: Vec<Option<u64>> = values.iter().map(|v| Some(*v)).collect();
    int_series(&[&row])
}

fn opt_keys(values: &[Option<u64>]) -> Series {
    int_series(&[values])
}

fn float_keys(values: &[f64]) -> Series {
    let bits: Vec<u64> = values.iter().map(|v| v.to_bits()).collect();
    let array = PrimitiveArray::try_new(ArrowDataType::Float64, Buffer::W64(bits), None).unwrap();
    let ca = ChunkedArray::from_chunks(ArrowDataType::Float64, vec![array]).unwrap();
    Series::try_new(DataType::Float64, Column::Primitive(ca)).unwrap()
}

fn bytes_series(dtype: DataType, values: &[Option<&str>]) -> Series {
    let mut offsets: Vec<i64> = vec![0];
    let mut bytes: Vec<u8> = Vec::new();
    for v in values {
        if let Some(s) = v {
            bytes.extend_from_slice(s.as_bytes());
        }
        offsets.push(bytes.len() as i64);
    }
    let validity = if values.iter().any(|v| v.is_none()) {
        Some(Bitmap::from_vec(values.iter().map(|v| v.is_some()).collect()))
    } else {
        None
    };
    let arrow = dtype.to_arrow();
    let array = BinaryArray::try_new(arrow, offsets, bytes, validity).unwrap();
    let ca = ChunkedArray::from_chunks(arrow, vec![array]).unwrap();
    Series::try_new(dtype, Column::Binary(ca)).unwrap()
}

fn pairs(left: &[u32], right: &[u32]) -> Vec<(u32, u32)> {
    let mut pairs: Vec<(u32, u32)> = left.iter().copied().zip(right.iter().copied()).collect();
    pairs.sort();
    pairs
}

fn inner(left: &Series, right: &Series, nulls_equal: bool) -> Vec<(u32, u32)> {
    let ((l, r), _) = left
        .hash_join_inner(right, JoinValidation::ManyToMany, nulls_equal)
        .unwrap();
    assert_eq!(l.len(), r.len());
    pairs(&l, &r)
}

fn rows(ids: ChunkJoinIds) -> Vec<u32> {
    match ids {
        ChunkJoinIds::Left(rows) => rows,
        ChunkJoinIds::Right(_) => panic!("rows expected, not places"),
    }
}

fn opt_rows(ids: ChunkJoinOptIds) -> Vec<Option<u32>> {
    match ids {
        ChunkJoinOptIds::Left(rows) => rows,
        ChunkJoinOptIds::Right(_) => panic!("rows expected, not places"),
    }
}

fn index_column(array: &PrimitiveArray) -> Vec<Option<u32>> {
    let values = match array.values() {
        Buffer::W32(v) => v.clone(),
        _ => panic!("row addresses are 32 bits wide"),
    };
    (0..array.len())
        .map(|i| if array.is_null(i) { None } else { Some(values[i]) })
        .collect()
}

#[test]
fn inner_join_pairs_the_rows_with_equal_keys() {
    let left = keys(&[1, 2, 2, 3]);
    let right = keys(&[2, 2, 4]);
    let ((l, r), sorted) = left
        .hash_join_inner(&right, JoinValidation::ManyToMany, false)
        .unwrap();
    assert_eq!(pairs(&l, &r), vec![(1, 0), (1, 1), (2, 0), (2, 1)]);
    assert_eq!(l, vec![1, 1, 2, 2]);
    assert_eq!(r, vec![0, 1, 0, 1]);
    assert!(sorted);
}

#[test]
fn inner_join_builds_on_the_shorter_side() {
    let left = keys(&[2, 2, 4]);
    let right = keys(&[1, 2, 2, 3]);
    let ((l, r), sorted) = left
        .hash_join_inner(&right, JoinValidation::ManyToMany, false)
        .unwrap();
    // The right side probes: the tuples follow its rows.
    assert_eq!(l, vec![0, 1, 0, 1]);
    assert_eq!(r, vec![1, 1, 2, 2]);
    assert!(!sorted);
    // Of two sides of one length the left one is built on.
    let ((l, r), sorted) = keys(&[7, 8])
        .hash_join_inner(&keys(&[8, 7]), JoinValidation::ManyToMany, false)
        .unwrap();
    assert_eq!((l, r), (vec![1, 0], vec![0, 1]));
    assert!(!sorted);
}

#[test]
fn the_side_with_fewer_rows_that_are_not_null_is_built_on() {
    let left = opt_keys(&[None, None, None, Some(1)]);
    let right = keys(&[1, 1]);
    let ((l, r), sorted) = left
        .hash_join_inner(&right, JoinValidation::ManyToMany, false)
        .unwrap();
    assert_eq!((l, r), (vec![3, 3], vec![0, 1]));
    assert!(!sorted);
    let ((l, r), sorted) = right
        .hash_join_inner(&left, JoinValidation::ManyToMany, false)
        .unwrap();
    assert_eq!((l, r), (vec![0, 1], vec![3, 3]));
    assert!(sorted);
    let (l, r) = left
        .hash_join_outer(&right, JoinValidation::ManyToMany, false)
        .unwrap();
    assert_eq!(index_column(&l), vec![Some(3), Some(3), Some(0), Some(1), Some(2)]);
    assert_eq!(index_column(&r), vec![Some(0), Some(1), None, None, None]);
}

#[test]
fn inner_join_is_the_same_with_the_sides_exchanged() {
    let a = opt_keys(&[Some(1), None, Some(2), Some(2), Some(9), None]);
    let b = opt_keys(&[Some(2), None, Some(1), Some(2)]);
    for nulls_equal in [false, true] {
        let direct = inner(&a, &b, nulls_equal);
        let mut back: Vec<(u32, u32)> =
            inner(&b, &a, nulls_equal).into_iter().map(|(l, r)| (r, l)).collect();
        back.sort();
        assert_eq!(direct, back);
    }
    assert_eq!(inner(&a, &b, false), vec![(0, 2), (2, 0), (2, 3), (3, 0), (3, 3)]);
}

#[test]
fn left_join_keeps_every_left_row() {
    let left = keys(&[1, 2, 2, 3]);
    let right = keys(&[2, 2, 4]);
    let (l, r) = left
        .hash_join_left(&right, JoinValidation::ManyToMany, false)
        .unwrap();
    assert_eq!(rows(l), vec![0, 1, 1, 2, 2, 3]);
    assert_eq!(opt_rows(r), vec![None, Some(0), Some(1), Some(0), Some(1), None]);
}

#[test]
fn left_join_of_a_longer_right_side_keeps_every_left_row() {
    let left = opt_keys(&[Some(5), None, Some(6)]);
    let right = opt_keys(&[Some(6), Some(6), None, Some(7), Some(5), Some(6)]);
    let (l, r) = left
        .hash_join_left(&right, JoinValidation::ManyToMany, false)
        .unwrap();
    let l = rows(l);
    for row in 0..3 {
        assert!(l.contains(&row));
    }
    assert_eq!(l, vec![0, 1, 2, 2, 2]);
    assert_eq!(opt_rows(r), vec![Some(4), None, Some(0), Some(1), Some(5)]);
}

#[test]
fn left_join_addresses_chunked_columns_by_place() {
    let left = int_series(&[&[Some(1), Some(2)], &[Some(3)]]);
    let right = int_series(&[&[Some(3)], &[], &[Some(1), Some(1)]]);
    let (l, r) = left
        .hash_join_left(&right, JoinValidation::ManyToMany, false)
        .unwrap();
    let place = |chunk_idx, array_idx| ChunkId { chunk_idx, array_idx };
    match l {
        ChunkJoinIds::Right(places) => {
            assert_eq!(places, vec![place(0, 0), place(0, 0), place(0, 1), place(1, 0)]);
        },
        ChunkJoinIds::Left(_) => panic!("places expected"),
    }
    match r {
        ChunkJoinOptIds::Right(places) => {
            assert_eq!(
                places,
                vec![Some(place(2, 0)), Some(place(2, 1)), None, Some(place(0, 0))]
            );
        },
        ChunkJoinOptIds::Left(_) => panic!("places expected"),
    }
}

#[test]
fn left_join_addresses_only_the_chunked_side_by_place() {
    let left = keys(&[1, 3]);
    let right = int_series(&[&[Some(3)], &[Some(1)]]);
    let (l, r) = left
        .hash_join_left(&right, JoinValidation::ManyToMany, false)
        .unwrap();
    assert_eq!(rows(l), vec![0, 1]);
    match r {
        ChunkJoinOptIds::Right(places) => {
            assert_eq!(
                places,
                vec![
                    Some(ChunkId { chunk_idx: 1, array_idx: 0 }),
                    Some(ChunkId { chunk_idx: 0, array_idx: 0 })
                ]
            );
        },
        ChunkJoinOptIds::Left(_) => panic!("places expected"),
    }
}

#[test]
fn outer_join_holds_every_row_of_both_sides() {
    let left = keys(&[1, 2, 2, 3]);
    let right = keys(&[2, 2, 4]);
    let (l, r) = left
        .hash_join_outer(&right, JoinValidation::ManyToMany, false)
        .unwrap();
    let l = index_column(&l);
    let r = index_column(&r);
    assert_eq!(
        l,
        vec![Some(0), Some(1), Some(1), Some(2), Some(2), Some(3), None]
    );
    assert_eq!(
        r,
        vec![None, Some(0), Some(1), Some(0), Some(1), None, Some(2)]
    );
    for row in 0..4 {
        assert!(l.contains(&Some(row)));
    }
    for row in 0..3 {
        assert!(r.contains(&Some(row)));
    }
    assert!(l.iter().zip(r.iter()).all(|(l, r)| l.is_some() || r.is_some()));
}

#[test]
fn outer_join_with_the_left_side_built_on() {
    let left = opt_keys(&[Some(4), None]);
    let right = opt_keys(&[None, Some(5), Some(4)]);
    let (l, r) = left
        .hash_join_outer(&right, JoinValidation::ManyToMany, true)
        .unwrap();
    // The right side probes; with nulls held equal the two nulls are a tuple.
    assert_eq!(index_column(&l), vec![Some(1), None, Some(0)]);
    assert_eq!(index_column(&r), vec![Some(0), Some(1), Some(2)]);
    let (l, r) = left
        .hash_join_outer(&right, JoinValidation::ManyToMany, false)
        .unwrap();
    assert_eq!(index_column(&l), vec![None, None, Some(0), Some(1)]);
    assert_eq!(index_column(&r), vec![Some(0), Some(1), Some(2), None]);
}

#[test]
fn anti_join_keeps_the_rows_without_a_match() {
    let left = keys(&[1, 2, 2, 3]);
    let right = keys(&[2, 4]);
    assert_eq!(left.hash_join_semi_anti(&right, true, false).unwrap(), vec![0, 3]);
}

#[test]
fn semi_join_keeps_each_row_with_a_match_once() {
    let left = keys(&[1, 2, 2, 3]);
    let right = keys(&[2, 2, 2, 4]);
    assert_eq!(left.hash_join_semi_anti(&right, false, false).unwrap(), vec![1, 2]);
}

#[test]
fn semi_and_anti_join_divide_the_left_rows() {
    let left = opt_keys(&[Some(1), None, Some(2), Some(3), None]);
    let right = opt_keys(&[Some(3), None, Some(1)]);
    for nulls_equal in [false, true] {
        let semi = left.hash_join_semi_anti(&right, false, nulls_equal).unwrap();
        let anti = left.hash_join_semi_anti(&right, true, nulls_equal).unwrap();
        let mut all: Vec<u32> = semi.iter().chain(anti.iter()).copied().collect();
        all.sort();
        assert_eq!(all, vec![0, 1, 2, 3, 4]);
        assert!(semi.iter().all(|row| !anti.contains(row)));
    }
    assert_eq!(left.hash_join_semi_anti(&right, false, false).unwrap(), vec![0, 3]);
    assert_eq!(left.hash_join_semi_anti(&right, false, true).unwrap(), vec![0, 1, 3, 4]);
}

#[test]
fn nulls_correspond_only_where_they_are_held_equal() {
    let left = opt_keys(&[None, Some(1), None]);
    let right = opt_keys(&[None, Some(1)]);
    assert_eq!(inner(&left, &right, false), vec![(1, 1)]);
    assert_eq!(inner(&left, &right, true), vec![(0, 0), (1, 1), (2, 0)]);
    let (l, r) = left
        .hash_join_left(&right, JoinValidation::ManyToMany, false)
        .unwrap();
    assert_eq!(rows(l), vec![0, 1, 2]);
    assert_eq!(opt_rows(r), vec![None, Some(1), None]);
    let (l, r) = left
        .hash_join_left(&right, JoinValidation::ManyToMany, true)
        .unwrap();
    assert_eq!(rows(l), vec![0, 1, 2]);
    assert_eq!(opt_rows(r), vec![Some(0), Some(1), Some(0)]);
}

#[test]
fn validation_holds_the_declared_side_to_unique_keys() {
    // The keys [1, 1, 2] stand on the right, which a left join builds its
    // tables of; the keys [1, 2] stand on the left, which probes.
    let left = keys(&[1, 2]);
    let right = keys(&[1, 1, 2]);
    // One-to-many: every key once on the left. The left keys are unique.
    assert!(left.hash_join_left(&right, JoinValidation::OneToMany, false).is_ok());
    // Many-to-one: every key once on the right. Key 1 stands twice there.
    let expected = JoinError::ValidationError {
        validation: JoinValidation::ManyToOne,
        side: JoinSide::Right,
        first: 0,
        second: 1,
    };
    assert_eq!(
        left.hash_join_left(&right, JoinValidation::ManyToOne, false).err(),
        Some(expected)
    );
    // Seen from the other side, the same keys break a one-to-many join.
    let expected = JoinError::ValidationError {
        validation: JoinValidation::OneToMany,
        side: JoinSide::Left,
        first: 0,
        second: 1,
    };
    assert_eq!(
        right.hash_join_left(&left, JoinValidation::OneToMany, false).err(),
        Some(expected)
    );
    assert!(right.hash_join_left(&left, JoinValidation::ManyToOne, false).is_ok());
}

#[test]
fn validation_does_not_depend_on_the_build_side() {
    let short = keys(&[1, 2]);
    let long = keys(&[1, 1, 2]);
    // The inner join builds on the shorter side, wherever it stands.
    let expected = |validation, side| JoinError::ValidationError {
        validation,
        side,
        first: 0,
        second: 1,
    };
    assert_eq!(
        long.hash_join_inner(&short, JoinValidation::OneToMany, false).err(),
        Some(expected(JoinValidation::OneToMany, JoinSide::Left))
    );
    assert_eq!(
        short.hash_join_inner(&long, JoinValidation::ManyToOne, false).err(),
        Some(expected(JoinValidation::ManyToOne, JoinSide::Right))
    );
    assert_eq!(
        short.hash_join_inner(&long, JoinValidation::OneToOne, false).err(),
        Some(expected(JoinValidation::OneToOne, JoinSide::Right))
    );
    assert!(short.hash_join_inner(&long, JoinValidation::OneToMany, false).is_ok());
    assert!(long.hash_join_inner(&short, JoinValidation::ManyToOne, false).is_ok());
    assert_eq!(
        long.hash_join_outer(&short, JoinValidation::OneToOne, false).err(),
        Some(expected(JoinValidation::OneToOne, JoinSide::Left))
    );
}

#[test]
fn validation_reports_the_first_row_that_repeats_a_key() {
    let left = keys(&[7, 8, 9, 8, 7, 7]);
    let right = keys(&[1]);
    let expected = JoinError::ValidationError {
        validation: JoinValidation::OneToOne,
        side: JoinSide::Left,
        first: 1,
        second: 3,
    };
    assert_eq!(
        left.hash_join_left(&right, JoinValidation::OneToOne, false).err(),
        Some(expected)
    );
}

#[test]
fn validation_counts_nulls_as_keys_only_where_they_are_held_equal() {
    let left = opt_keys(&[None, Some(1), None]);
    let right = keys(&[1]);
    assert!(left.hash_join_left(&right, JoinValidation::OneToOne, false).is_ok());
    let expected = JoinError::ValidationError {
        validation: JoinValidation::OneToOne,
        side: JoinSide::Left,
        first: 0,
        second: 2,
    };
    assert_eq!(
        left.hash_join_left(&right, JoinValidation::OneToOne, true).err(),
        Some(expected)
    );
}

#[test]
fn columns_without_a_common_representation_are_not_joined() {
    let ints = keys(&[1, 2]);
    let words = bytes_series(DataType::String, &[Some("a")]);
    let narrow = Series::try_new(
        DataType::UInt32,
        Column::Primitive(
            ChunkedArray::from_chunks(
                ArrowDataType::UInt32,
                vec![PrimitiveArray::try_new(ArrowDataType::UInt32, Buffer::W32(vec![1]), None)
                    .unwrap()],
            )
            .unwrap(),
        ),
    )
    .unwrap();
    let nulls = Series::try_new(DataType::Null, Column::Null(2)).unwrap();
    let floats = float_keys(&[1.0]);
    let rows = bytes_series(DataType::List, &[Some("a")]);
    let unsupported = Some(JoinError::UnsupportedJoinType);
    assert_eq!(
        ints.hash_join_inner(&words, JoinValidation::ManyToMany, false).err(),
        unsupported
    );
    assert_eq!(
        ints.hash_join_left(&narrow, JoinValidation::ManyToMany, false).err(),
        unsupported
    );
    assert_eq!(
        nulls.hash_join_outer(&nulls, JoinValidation::ManyToMany, true).err(),
        unsupported
    );
    assert_eq!(ints.hash_join_semi_anti(&floats, false, false).err(), unsupported);
    assert_eq!(words.hash_join_semi_anti(&rows, true, false).err(), unsupported);
    // An unsupported join is refused before the keys are looked at.
    assert_eq!(
        keys(&[1, 1]).hash_join_inner(&words, JoinValidation::OneToOne, false).err(),
        unsupported
    );
}

#[test]
fn integers_of_one_width_are_joined_whatever_their_sign() {
    let signed = keys(&[1, u64::MAX]);
    let bits = vec![u64::MAX, 3];
    let array = PrimitiveArray::try_new(ArrowDataType::UInt64, Buffer::W64(bits), None).unwrap();
    let ca = ChunkedArray::from_chunks(ArrowDataType::UInt64, vec![array]).unwrap();
    let unsigned = Series::try_new(DataType::UInt64, Column::Primitive(ca)).unwrap();
    assert_eq!(inner(&signed, &unsigned, false), vec![(1, 0)]);
}

#[test]
fn floating_point_keys_are_joined_by_their_value() {
    let quiet = f64::from_bits(0x7ff8_0000_0000_0001);
    let left = float_keys(&[f64::NAN, 0.0, 1.5, -0.0]);
    let right = float_keys(&[-0.0, quiet, 2.5]);
    assert_eq!(inner(&left, &right, false), vec![(0, 1), (1, 0), (3, 0)]);
    assert_eq!(left.hash_join_semi_anti(&right, true, false).unwrap(), vec![2]);
}

#[test]
fn byte_strings_are_joined_as_they_are() {
    let left = bytes_series(DataType::String, &[Some("ab"), Some(""), None, Some("abc")]);
    let right = bytes_series(DataType::Binary, &[Some("abc"), Some(""), Some("a"), None]);
    assert_eq!(inner(&left, &right, false), vec![(1, 1), (3, 0)]);
    assert_eq!(inner(&left, &right, true), vec![(1, 1), (2, 3), (3, 0)]);
    let (l, r) = left
        .hash_join_left(&right, JoinValidation::ManyToMany, false)
        .unwrap();
    assert_eq!(rows(l), vec![0, 1, 2, 3]);
    assert_eq!(opt_rows(r), vec![None, Some(1), None, Some(0)]);
    assert_eq!(left.hash_join_semi_anti(&right, false, false).unwrap(), vec![1, 3]);
    let (l, r) = left
        .hash_join_outer(&right, JoinValidation::ManyToMany, false)
        .unwrap();
    // Of two sides of one length the left one is built on.
    assert_eq!(
        index_column(&l),
        vec![Some(3), Some(1), None, None, Some(0), Some(2)]
    );
    assert_eq!(
        index_column(&r),
        vec![Some(0), Some(1), Some(2), Some(3), None, None]
    );
}

#[test]
fn nested_keys_are_joined_by_their_encoded_rows() {
    let left = bytes_series(DataType::List, &[Some("\u{1}a"), Some("\u{2}ab"), None]);
    let right = bytes_series(DataType::Struct, &[Some("\u{2}ab"), Some("\u{2}ab")]);
    assert_eq!(inner(&left, &right, true), vec![(1, 0), (1, 1)]);
}

#[test]
fn joins_of_empty_sides() {
    let none = keys(&[]);
    let some = keys(&[1, 2]);
    assert_eq!(inner(&none, &some, false), vec![]);
    assert_eq!(inner(&some, &none, true), vec![]);
    let (l, r) = some
        .hash_join_left(&none, JoinValidation::OneToOne, false)
        .unwrap();
    assert_eq!(rows(l), vec![0, 1]);
    assert_eq!(opt_rows(r), vec![None, None]);
    let (l, r) = none
        .hash_join_outer(&some, JoinValidation::ManyToMany, false)
        .unwrap();
    assert_eq!(index_column(&l), vec![None, None]);
    assert_eq!(index_column(&r), vec![Some(0), Some(1)]);
    assert_eq!(none.hash_join_semi_anti(&some, true, false).unwrap(), Vec::<u32>::new());
    assert_eq!(some.hash_join_semi_anti(&none, true, false).unwrap(), vec![0, 1]);
}

#[test]
fn the_result_does_not_depend_on_the_chunks() {
    let whole = opt_keys(&[Some(1), None, Some(2), Some(2), Some(9), None]);
    let parts = int_series(&[&[Some(1)], &[], &[None, Some(2), Some(2)], &[Some(9), None]]);
    let other = opt_keys(&[Some(2), None, Some(1), Some(2)]);
    for nulls_equal in [false, true] {
        assert_eq!(inner(&whole, &other, nulls_equal), inner(&parts, &other, nulls_equal));
        assert_eq!(inner(&other, &whole, nulls_equal), inner(&other, &parts, nulls_equal));
        assert_eq!(
            whole.hash_join_semi_anti(&other, true, nulls_equal).unwrap(),
            parts.hash_join_semi_anti(&other, true, nulls_equal).unwrap()
        );
    }
}

#[test]
fn join_by_the_name_of_the_variant() {
    let left = keys(&[1, 2, 2, 3]);
    let right = keys(&[2, 2, 4]);
    let many = JoinValidation::ManyToMany;
    match join(&left, &right, JoinType::Inner, many, false).unwrap() {
        JoinTuples::Inner(l, r) => {
            assert_eq!(pairs(&l, &r), vec![(1, 0), (1, 1), (2, 0), (2, 1)])
        },
        _ => panic!("the tuples of an inner join expected"),
    }
    match join(&left, &right, JoinType::Left, many, false).unwrap() {
        JoinTuples::Left(l, r) => {
            assert_eq!(rows(l), vec![0, 1, 1, 2, 2, 3]);
            assert_eq!(opt_rows(r), vec![None, Some(0), Some(1), Some(0), Some(1), None]);
        },
        _ => panic!("the tuples of a left join expected"),
    }
    match join(&left, &right, JoinType::Outer, many, false).unwrap() {
        JoinTuples::Outer(l, r) => {
            assert_eq!(index_column(&l).len(), 7);
            assert_eq!(index_column(&r)[6], Some(2));
        },
        _ => panic!("the tuples of an outer join expected"),
    }
    match join(&left, &right, JoinType::Semi, many, false).unwrap() {
        JoinTuples::Semi(rows) => assert_eq!(rows, vec![1, 2]),
        _ => panic!("the rows of a semi join expected"),
    }
    match join(&left, &keys(&[2, 4]), JoinType::Anti, many, false).unwrap() {
        JoinTuples::Anti(rows) => assert_eq!(rows, vec![0, 3]),
        _ => panic!("the rows of an anti join expected"),
    }
}

#[test]
fn every_variant_holds_the_keys_to_the_declared_cardinality() {
    let left = keys(&[1, 2]);
    let right = keys(&[1, 1, 2]);
    let broken = |validation| {
        Some(JoinError::ValidationError { validation, side: JoinSide::Right, first: 0, second: 1 })
    };
    for variant in
        [JoinType::Inner, JoinType::Left, JoinType::Outer, JoinType::Semi, JoinType::Anti]
    {
        assert!(join(&left, &right, variant, JoinValidation::ManyToMany, false).is_ok());
        assert!(join(&left, &right, variant, JoinValidation::OneToMany, false).is_ok());
        assert_eq!(
            join(&left, &right, variant, JoinValidation::ManyToOne, false).err(),
            broken(JoinValidation::ManyToOne)
        );
        assert_eq!(
            join(&left, &right, variant, JoinValidation::OneToOne, false).err(),
            broken(JoinValidation::OneToOne)
        );
        assert_eq!(
            join(&left, &bytes_series(DataType::Binary, &[]), variant, JoinValidation::OneToOne, false)
                .err(),
            Some(JoinError::UnsupportedJoinType)
        );
    }
}

#[test]
fn temporal_and_categorical_keys_are_joined_as_integers() {
    let column = |dtype: DataType, values: Vec<u64>| {
        let arrow = dtype.to_arrow();
        let buffer = if arrow == ArrowDataType::Int64 {
            Buffer::W64(values)
        } else {
            Buffer::W32(values.into_iter().map(|v| v as u32).collect())
        };
        let array = PrimitiveArray::try_new(arrow, buffer, None).unwrap();
        let ca = ChunkedArray::from_chunks(arrow, vec![array]).unwrap();
        Series::try_new(dtype, Column::Primitive(ca)).unwrap()
    };
    let dates = column(DataType::Date, vec![10, 11, 12]);
    let codes = column(DataType::Categorical, vec![12, 10]);
    assert_eq!(inner(&dates, &codes, false), vec![(0, 1), (2, 0)]);
    let instants = column(DataType::Datetime, vec![5, 6]);
    let spans = column(DataType::Duration, vec![6, 6]);
    assert_eq!(inner(&instants, &spans, false), vec![(1, 0), (1, 1)]);
    assert_eq!(inner(&instants, &keys(&[5]), false), vec![(0, 0)]);
    assert_eq!(
        dates.hash_join_inner(&instants, JoinValidation::ManyToMany, false).err(),
        Some(JoinError::UnsupportedJoinType)
    );
}

#[test]
fn a_column_counts_its_rows_and_nulls() {
    let column = int_series(&[&[Some(1), None], &[], &[None, Some(2), None]]);
    assert_eq!(column.len(), 5);
    assert_eq!(column.null_count(), 3);
    assert!(column.has_nulls());
    assert!(!column.is_empty());
    assert_eq!(column.n_chunks(), 3);
    assert_eq!(column.dtype(), DataType::Int64);
    let nulls = Series::try_new(DataType::Null, Column::Null(4)).unwrap();
    assert_eq!((nulls.len(), nulls.null_count(), nulls.n_chunks()), (4, 4, 1));
    let words = bytes_series(DataType::String, &[Some("a"), None]);
    assert_eq!((words.len(), words.null_count()), (2, 1));
    assert!(!keys(&[1]).has_nulls());
    assert!(keys(&[]).is_empty());
}

#[test]
fn a_column_is_refused_where_its_chunks_do_not_hold_its_type() {
    let ints = || ChunkedArray::from_chunks(ArrowDataType::Int64, vec![int_array(&[Some(1)])]).unwrap();
    assert!(Series::try_new(DataType::Int64, Column::Primitive(ints())).is_some());
    assert!(Series::try_new(DataType::Datetime, Column::Primitive(ints())).is_some());
    assert!(Series::try_new(DataType::UInt64, Column::Primitive(ints())).is_none());
    assert!(Series::try_new(DataType::String, Column::Primitive(ints())).is_none());
    assert!(Series::try_new(DataType::Null, Column::Primitive(ints())).is_none());
    assert!(Series::try_new(DataType::Int64, Column::Null(1)).is_none());
    let none: Vec<BinaryArray> = vec![];
    let bytes = || ChunkedArray::from_chunks(ArrowDataType::LargeBinary, vec![]).unwrap();
    let _ = none;
    assert!(Series::try_new(DataType::Binary, Column::Binary(bytes())).is_some());
    assert!(Series::try_new(DataType::Struct, Column::Binary(bytes())).is_some());
    assert!(Series::try_new(DataType::String, Column::Binary(bytes())).is_none());
}
