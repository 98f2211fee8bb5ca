use hash_join::array::{Array, Buffer, PrimitiveArray};
use hash_join::chunked::ChunkedArray;
use hash_join::datatypes::ArrowDataType;
use hash_join::index::ChunkId;
use hash_join::join::dispatch::create_mappings;
use hash_join::normalize::{
    chunk_refs, chunks_as_slices, contiguous_slices, get_arrays, optional_keys, split,
    split_slices,
};
use hash_join::partition::{
    _set_partition_size, _split_offsets, create_chunked_index_mapping, mapping_for,
};

fn array(values: &[u64]) -> PrimitiveArray {
    PrimitiveArray::try_new(ArrowDataType::UInt64, Buffer::W64(values.to_vec()), None).unwrap()
}

fn column(chunks: &[&[u64]]) -> ChunkedArray<PrimitiveArray> {
    let arrays = chunks.iter().map(|c| array(c)).collect();
    ChunkedArray::from_chunks(ArrowDataType::UInt64, arrays).unwrap()
}

fn place(chunk_idx: u32, array_idx: u32) -> ChunkId {
    ChunkId { chunk_idx, array_idx }
}

#[test]
fn rows_are_divided_into_near_equal_partitions() {
    assert_eq!(_split_offsets(10, 1), vec![(0, 10)]);
    assert_eq!(_split_offsets(10, 3), vec![(0, 3), (3, 3), (6, 4)]);
    assert_eq!(_split_offsets(9, 3), vec![(0, 3), (3, 3), (6, 3)]);
    assert_eq!(_split_offsets(2, 4), vec![(0, 0), (0, 0), (0, 0), (0, 2)]);
    assert_eq!(_split_offsets(0, 2), vec![(0, 0), (0, 0)]);
}

#[test]
fn partitions_cover_the_rows_once() {
    for len in 0..40 {
        for n in 1..9 {
            let offsets = _split_offsets(len, n);
            assert_eq!(offsets.len(), n);
            let mut next = 0;
            for (offset, part) in offsets {
                assert_eq!(offset, next);
                next = offset + part;
            }
            assert_eq!(next, len);
        }
    }
}

#[test]
fn the_partitions_of_an_outer_join_are_a_power_of_two() {
    assert_eq!(_set_partition_size(0), 1);
    assert_eq!(_set_partition_size(1), 1);
    assert_eq!(_set_partition_size(2), 2);
    assert_eq!(_set_partition_size(3), 4);
    assert_eq!(_set_partition_size(8), 8);
    assert_eq!(_set_partition_size(9), 16);
    assert_eq!(_set_partition_size(0x4000_0000), 0x4000_0000);
    assert_eq!(_set_partition_size(0x4000_0001), 0x4000_0001);
}

#[test]
fn every_row_of_a_chunked_column_has_its_place() {
    let chunks = vec![array(&[1, 2]), array(&[]), array(&[3])];
    assert_eq!(
        create_chunked_index_mapping(&chunks, 3),
        vec![place(0, 0), place(0, 1), place(2, 0)]
    );
    assert_eq!(create_chunked_index_mapping::<PrimitiveArray>(&[], 0), vec![]);
}

#[test]
fn a_column_of_one_chunk_needs_no_mapping() {
    let one = vec![array(&[1, 2])];
    let two = vec![array(&[1]), array(&[2])];
    assert_eq!(mapping_for(&one, 2), None);
    assert_eq!(mapping_for::<PrimitiveArray>(&[], 0), None);
    assert_eq!(mapping_for(&two, 2), Some(vec![place(0, 0), place(1, 0)]));
    let (left, right) = create_mappings(&two, &one, 2, 2);
    assert_eq!(left, Some(vec![place(0, 0), place(1, 0)]));
    assert_eq!(right, None);
}

#[test]
fn a_column_is_counted_and_sliced() {
    let ca = column(&[&[1, 2], &[], &[3, 4, 5]]);
    assert_eq!(ca.len(), 5);
    assert_eq!(ca.null_count(), 0);
    assert_eq!(ca.chunks().len(), 3);
    assert_eq!(*ca.dtype(), ArrowDataType::UInt64);
    let part = ca.slice(1, 3);
    assert_eq!(part.len(), 3);
    let lens: Vec<usize> = part.chunks().iter().map(|c| c.len()).collect();
    assert_eq!(lens, vec![1, 2]);
    let parts = vec![part];
    assert_eq!(chunks_as_slices::<u64>(&parts).concat(), vec![2, 3, 4]);
    assert_eq!(ca.slice(5, 0).len(), 0);
    assert_eq!(ca.slice(0, 5).len(), 5);
}

#[test]
fn a_column_is_refused_where_its_chunks_differ_in_type() {
    let float =
        PrimitiveArray::try_new(ArrowDataType::Float64, Buffer::W64(vec![1]), None).unwrap();
    assert!(ChunkedArray::from_chunks(ArrowDataType::UInt64, vec![array(&[1]), float]).is_none());
    assert!(ChunkedArray::<PrimitiveArray>::from_chunks(ArrowDataType::UInt64, vec![]).is_some());
}

#[test]
fn a_column_is_split_into_parts_that_are_the_column() {
    let ca = column(&[&[1, 2, 3], &[4, 5, 6, 7], &[8, 9, 10]]);
    let parts = split(&ca, 3);
    let lens: Vec<usize> = parts.iter().map(|p| p.len()).collect();
    assert_eq!(lens, vec![3, 3, 4]);
    assert_eq!(chunks_as_slices::<u64>(&parts).concat(), (1..=10).collect::<Vec<u64>>());
    assert_eq!(get_arrays(&parts).len(), 4);
    for n in 0..14 {
        let parts = split(&ca, n);
        assert_eq!(parts.len(), if n == 0 { 1 } else { n });
        assert_eq!(chunks_as_slices::<u64>(&parts).concat(), (1..=10).collect::<Vec<u64>>());
    }
    // More parts than rows: the last part takes them all.
    let lens: Vec<usize> = split(&column(&[&[1, 2]]), 4).iter().map(|p| p.len()).collect();
    assert_eq!(lens, vec![0, 0, 0, 2]);
    assert_eq!(split(&column(&[]), 4).len(), 4);
}

#[test]
fn keys_of_arrays_with_nulls() {
    let with_nulls = PrimitiveArray::try_new(
        ArrowDataType::Float64,
        Buffer::W64(vec![f64::NAN.to_bits() | 1, 5, (-0.0f64).to_bits()]),
        Some(hash_join::bitmap::Bitmap::from_vec(vec![true, false, true])),
    )
    .unwrap();
    let arrays = vec![&with_nulls];
    assert_eq!(
        optional_keys::<u64>(&arrays, false),
        vec![vec![Some(f64::NAN.to_bits() | 1), None, Some((-0.0f64).to_bits())]]
    );
    assert_eq!(
        optional_keys::<u64>(&arrays, true),
        vec![vec![Some(0x7ff8_0000_0000_0000), None, Some(0)]]
    );
}

#[test]
fn a_contiguous_column_is_partitioned_in_place() {
    let ca = column(&[&[1, 2, 3, 4, 5, 6, 7]]);
    let parts = contiguous_slices::<u64>(&ca, 3);
    assert_eq!(parts, vec![&[1, 2][..], &[3, 4][..], &[5, 6, 7][..]]);
    assert_eq!(contiguous_slices::<u64>(&ca, 0), vec![&[1, 2, 3, 4, 5, 6, 7][..]]);
    assert_eq!(contiguous_slices::<u64>(&column(&[&[]]), 2).len(), 2);
}

#[test]
fn partitions_are_divided_in_place() {
    let a: &[u64] = &[1, 2, 3];
    let b: &[u64] = &[];
    let c: &[u64] = &[4, 5, 6, 7, 8];
    let parts = vec![a, b, c];
    assert_eq!(
        split_slices(&parts, 2),
        vec![&[1][..], &[2, 3][..], &[][..], &[][..], &[4, 5][..], &[6, 7, 8][..]]
    );
    assert_eq!(split_slices(&parts, 0), parts);
    assert_eq!(split_slices(&parts, 1), parts);
    for n in 0..9 {
        assert_eq!(split_slices(&parts, n).concat(), vec![1, 2, 3, 4, 5, 6, 7, 8]);
    }
    let ca = column(&[&[1, 2], &[3, 4, 5]]);
    assert_eq!(chunk_refs(&ca).len(), 2);
    assert_eq!(
        contiguous_slices::<u64>(&ca, 2),
        vec![&[1][..], &[2][..], &[3][..], &[4, 5][..]]
    );
}
