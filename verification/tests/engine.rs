use hash_join::error::{JoinError, JoinSide};
use hash_join::index::{ChunkId, ChunkJoinIds, ChunkJoinOptIds};
use hash_join::join::assemble::{flatten, total_len, unzip};
use hash_join::join::inner::{hash_join_tuples_inner, probe_inner};
use hash_join::join::left::{finish_left_join_mappings, hash_join_tuples_left};
use hash_join::join::outer::{hash_join_tuples_outer, probe_outer, unmatched_build_rows};
use hash_join::join::semi_anti::{
    hash_join_tuples_left_anti, hash_join_tuples_left_semi, probe_semi_anti,
};
use hash_join::join::table::{build_table, build_tables, probe_key, HashTable};
use hash_join::join::validate::{check_sides, find_duplicate, side_len, JoinValidation};
use hash_join::IDX_MAX;

const MANY: JoinValidation = JoinValidation::ManyToMany;

/// All the ways to cut `keys` into up to three partitions.
fn partitionings(keys: &[Option<u64>]) -> Vec<Vec<&[Option<u64>]>> {
    let mut all = vec![vec![keys]];
    for i in 0..=keys.len() {
        all.push(vec![&keys[..i], &keys[i..]]);
        for j in i..=keys.len() {
            all.push(vec![&keys[..i], &keys[i..j], &keys[j..]]);
        }
    }
    all
}

#[test]
fn validation_kinds() {
    assert!(!MANY.needs_checks());
    assert!(JoinValidation::OneToOne.needs_checks());
    assert_eq!(JoinValidation::ManyToOne.swap(true), JoinValidation::OneToMany);
    assert_eq!(JoinValidation::OneToMany.swap(true), JoinValidation::ManyToOne);
    assert_eq!(JoinValidation::OneToMany.swap(false), JoinValidation::OneToMany);
    assert_eq!(JoinValidation::OneToOne.swap(true), JoinValidation::OneToOne);
    assert_eq!(MANY.swap(true), MANY);
    assert!(JoinValidation::OneToMany.left_unique());
    assert!(!JoinValidation::OneToMany.right_unique());
    assert!(JoinValidation::ManyToOne.right_unique());
    assert!(!JoinValidation::ManyToOne.left_unique());
    assert!(JoinValidation::OneToOne.left_unique() && JoinValidation::OneToOne.right_unique());
    assert!(!MANY.left_unique() && !MANY.right_unique());
}

#[test]
fn a_table_chains_the_rows_of_one_hash() {
    let mut table = HashTable::new();
    assert!(table.get(7).is_none());
    table.insert(7, 3);
    table.insert(9, 4);
    table.insert(7, 5);
    assert_eq!(table.get(7), Some(&vec![3, 5]));
    assert_eq!(table.get(9), Some(&vec![4]));
    assert!(table.get(8).is_none());
}

#[test]
fn a_key_is_looked_up_in_every_table() {
    let a: &[Option<u64>] = &[Some(1), None, Some(2)];
    let b: &[Option<u64>] = &[Some(2), Some(1), None, Some(2)];
    let parts = vec![a, b];
    let mut rows = vec![99];
    for (nulls_equal, key, expected) in [
        (false, Some(2), vec![2, 3, 6]),
        (false, Some(1), vec![0, 4]),
        (false, Some(3), vec![]),
        (false, None, vec![]),
        (true, None, vec![1, 5]),
        (true, Some(2), vec![2, 3, 6]),
    ] {
        let tables = build_tables(&parts, nulls_equal);
        assert_eq!(tables.len(), 2);
        probe_key(&tables, &parts, &key, nulls_equal, &mut rows);
        assert_eq!(rows, expected);
    }
    let table = build_table(&parts, 1, 3, false);
    assert_eq!(table.get(Some(2u64).map(|k| k.wrapping_mul(0x55fb_fd6b_fc54_58e9)).unwrap()),
        Some(&vec![3, 6]));
}

#[test]
fn duplicates_are_found_across_partitions() {
    let keys = [Some(1), None, Some(2), None, Some(2), Some(1)];
    for parts in partitionings(&keys) {
        assert_eq!(find_duplicate(&parts, false), Some((2, 4)));
        assert_eq!(find_duplicate(&parts, true), Some((1, 3)));
    }
    let unique = [Some(1), None, Some(2), None];
    for parts in partitionings(&unique) {
        assert_eq!(find_duplicate(&parts, false), None);
        assert_eq!(find_duplicate(&parts, true), Some((1, 3)));
    }
    assert_eq!(find_duplicate::<u64>(&vec![], false), None);
}

#[test]
fn sides_are_checked_before_a_join() {
    let twice: &[u64] = &[1, 1];
    let once: &[u64] = &[1];
    let error = |validation, side| {
        Err(JoinError::ValidationError { validation, side, first: 0, second: 1 })
    };
    let one_to_many = JoinValidation::OneToMany;
    let many_to_one = JoinValidation::ManyToOne;
    let probe = vec![twice];
    let build = vec![once];
    assert_eq!(check_sides(&probe, &build, false, MANY, false), Ok(()));
    assert_eq!(
        check_sides(&probe, &build, false, one_to_many, false),
        error(one_to_many, JoinSide::Left)
    );
    assert_eq!(check_sides(&probe, &build, false, many_to_one, false), Ok(()));
    // With the sides swapped the probe side is the right one.
    assert_eq!(check_sides(&probe, &build, true, one_to_many, false), Ok(()));
    assert_eq!(
        check_sides(&probe, &build, true, many_to_one, false),
        error(many_to_one, JoinSide::Right)
    );
    // The probe side is checked before the build side.
    assert_eq!(
        check_sides(&probe, &probe, false, JoinValidation::OneToOne, false),
        error(JoinValidation::OneToOne, JoinSide::Left)
    );
    assert_eq!(
        check_sides(&probe, &probe, true, JoinValidation::OneToOne, false),
        error(JoinValidation::OneToOne, JoinSide::Right)
    );
    assert_eq!(side_len(&probe), Some(2));
    assert_eq!(side_len::<u64>(&vec![]), Some(0));
}

#[test]
fn the_side_declared_to_hold_every_key_once_is_held_to_it() {
    let build: &[u64] = &[1, 1, 2];
    let probe: &[u64] = &[1, 2];
    let (probe, build) = (vec![probe], vec![build]);
    let broken = |validation, side| {
        Err(JoinError::ValidationError { validation, side, first: 0, second: 1 })
    };
    // The build side is the left side: in a one-to-many join it is the side
    // that holds every key once, and key 1 stands twice in it.
    assert_eq!(
        hash_join_tuples_inner(&probe, &build, true, JoinValidation::OneToMany, false),
        broken(JoinValidation::OneToMany, JoinSide::Left)
    );
    assert_eq!(
        hash_join_tuples_outer(&probe, &build, true, JoinValidation::OneToMany, false).err(),
        broken(JoinValidation::OneToMany, JoinSide::Left).err()
    );
    // The build side is the right side: a one-to-many join leaves it free,
    // and a many-to-one join does not.
    let expected: (Vec<u32>, Vec<u32>) = (vec![0, 0, 1], vec![0, 1, 2]);
    assert_eq!(
        hash_join_tuples_inner(&probe, &build, false, JoinValidation::OneToMany, false),
        Ok(expected)
    );
    assert_eq!(
        hash_join_tuples_inner(&probe, &build, false, JoinValidation::ManyToOne, false),
        broken(JoinValidation::ManyToOne, JoinSide::Right)
    );
    assert!(hash_join_tuples_left(&probe, &build, None, None, JoinValidation::ManyToOne, false)
        .is_err());
    assert!(hash_join_tuples_inner(&probe, &build, true, JoinValidation::ManyToOne, false).is_ok());
}

#[test]
fn the_result_does_not_depend_on_the_partitions() {
    let probe = [Some(1), None, Some(2), Some(2), Some(9), None];
    let build = [Some(2), None, Some(1), Some(2)];
    for nulls_equal in [false, true] {
        for swapped in [false, true] {
            let whole = hash_join_tuples_inner(
                &vec![&probe[..]],
                &vec![&build[..]],
                swapped,
                MANY,
                nulls_equal,
            );
            let whole_outer = hash_join_tuples_outer(
                &vec![&probe[..]],
                &vec![&build[..]],
                swapped,
                MANY,
                nulls_equal,
            );
            for p in partitionings(&probe) {
                for b in partitionings(&build) {
                    assert_eq!(hash_join_tuples_inner(&p, &b, swapped, MANY, nulls_equal), whole);
                    assert_eq!(
                        hash_join_tuples_outer(&p, &b, swapped, MANY, nulls_equal),
                        whole_outer
                    );
                }
            }
        }
        let semi = hash_join_tuples_left_semi(&vec![&probe[..]], &vec![&build[..]], nulls_equal);
        let anti = hash_join_tuples_left_anti(&vec![&probe[..]], &vec![&build[..]], nulls_equal);
        for p in partitionings(&probe) {
            for b in partitionings(&build) {
                assert_eq!(hash_join_tuples_left_semi(&p, &b, nulls_equal), semi);
                assert_eq!(hash_join_tuples_left_anti(&p, &b, nulls_equal), anti);
            }
        }
    }
    let expected: (Vec<u32>, Vec<u32>) = (vec![0, 2, 2, 3, 3], vec![2, 0, 3, 0, 3]);
    assert_eq!(
        hash_join_tuples_inner(&vec![&probe[..]], &vec![&build[..]], false, MANY, false),
        Ok(expected)
    );
    let expected: (Vec<u32>, Vec<u32>) = (vec![2, 1, 0, 3, 0, 3, 1], vec![0, 1, 2, 2, 3, 3, 5]);
    assert_eq!(
        hash_join_tuples_inner(&vec![&probe[..]], &vec![&build[..]], true, MANY, true),
        Ok(expected)
    );
}

#[test]
fn one_partition_is_probed_at_a_time() {
    let a: &[u64] = &[5, 6];
    let b: &[u64] = &[6, 7, 6];
    let probe = vec![a, b];
    let build = vec![b];
    let tables = build_tables(&build, false);
    assert_eq!(probe_inner(&probe, 0, 0, &tables, &build, false, false), vec![(1, 0), (1, 2)]);
    assert_eq!(
        probe_inner(&probe, 1, 2, &tables, &build, false, true),
        vec![(0, 2), (2, 2), (1, 3), (0, 4), (2, 4)]
    );
    assert_eq!(probe_semi_anti(&probe, 0, 0, &tables, &build, false, true), vec![0]);
    assert_eq!(probe_semi_anti(&probe, 1, 2, &tables, &build, false, false), vec![2, 3, 4]);
    let (tuples, marker) = probe_outer(&probe, 0, 0, &tables, &build, 3, false, false);
    assert_eq!(
        tuples,
        vec![(Some(0), None), (Some(1), Some(0)), (Some(1), Some(2))]
    );
    assert_eq!(marker, vec![true, false, true]);
    assert_eq!(unmatched_build_rows(&marker, false), vec![(None, Some(1))]);
    assert_eq!(unmatched_build_rows(&marker, true), vec![(Some(1), None)]);
}

#[test]
fn left_join_tuples_with_mappings() {
    let left: &[u64] = &[1, 2];
    let right: &[u64] = &[2, 2];
    let places: Vec<ChunkId> =
        (0..2).map(|i| ChunkId { chunk_idx: i, array_idx: 10 + i }).collect();
    let (l, r) =
        hash_join_tuples_left(&vec![left], &vec![right], Some(&places), None, MANY, false)
            .unwrap();
    match (l, r) {
        (ChunkJoinIds::Right(l), ChunkJoinOptIds::Left(r)) => {
            assert_eq!(l, vec![places[0], places[1], places[1]]);
            assert_eq!(r, vec![None, Some(0), Some(1)]);
        },
        _ => panic!("places on the left and rows on the right expected"),
    }
    let (l, r) = finish_left_join_mappings(vec![1, 0], vec![Some(1), None], None, Some(&places));
    match (l, r) {
        (ChunkJoinIds::Left(l), ChunkJoinOptIds::Right(r)) => {
            assert_eq!(l, vec![1, 0]);
            assert_eq!(r, vec![Some(places[1]), None]);
        },
        _ => panic!("rows on the left and places on the right expected"),
    }
}

#[test]
fn buffers_are_merged_in_order() {
    let buffers = vec![vec![(1, 'a'), (2, 'b')], vec![], vec![(3, 'c')]];
    assert_eq!(total_len(&buffers), Some(3));
    let merged = flatten(&buffers).unwrap();
    assert_eq!(merged, vec![(1, 'a'), (2, 'b'), (3, 'c')]);
    assert_eq!(unzip(&merged), (vec![1, 2, 3], vec!['a', 'b', 'c']));
    assert_eq!(flatten::<u8>(&vec![]), Some(vec![]));
}

#[test]
fn a_result_beyond_the_index_range_is_refused() {
    // Buffers of values without size stand for results too large to hold.
    let half = vec![(); (IDX_MAX / 2) + 1];
    let fits = vec![half.clone(), vec![(); IDX_MAX / 2]];
    assert_eq!(total_len(&fits), Some(IDX_MAX));
    let over = vec![half.clone(), half];
    assert_eq!(total_len(&over), None);
    assert_eq!(flatten(&over), None);
}

#[test]
fn sides_without_partitions_are_empty_sides() {
    let none: Vec<&[u64]> = vec![];
    let some: Vec<&[u64]> = vec![&[1, 2]];
    let empty: (Vec<u32>, Vec<u32>) = (vec![], vec![]);
    assert_eq!(hash_join_tuples_inner(&none, &none, false, MANY, false), Ok(empty.clone()));
    assert_eq!(hash_join_tuples_inner(&some, &none, false, MANY, false), Ok(empty.clone()));
    assert_eq!(hash_join_tuples_inner(&none, &some, true, MANY, true), Ok(empty));
    assert_eq!(
        hash_join_tuples_outer(&none, &some, false, MANY, false),
        Ok((vec![None, None], vec![Some(0), Some(1)]))
    );
    assert_eq!(hash_join_tuples_left_anti(&some, &none, false), vec![0, 1]);
    assert_eq!(hash_join_tuples_left_semi(&none, &some, false), Vec::<u32>::new());
    assert!(build_tables(&none, false).is_empty());
}
