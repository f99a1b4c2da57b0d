use bench_harness::map_cases::{
    filled, timed_checksum_keys, timed_checksum_range, timed_clear, timed_clear_and_refill,
    timed_count_missing, timed_count_residues, timed_fill_keys, timed_fill_new,
    timed_fill_reserved, timed_sum_entries, timed_sum_keys,
};
use bench_harness::swiss::SwissMap;
use bench_harness::table::{StdMap, Table};
use bench_harness::workload::{
    checksum_keys, checksum_range, clear_even, clear_range, count_missing_range, count_residues,
    fill_even, fill_keys, fill_range,
};

fn entries<T: Table>(map: &T, upto: i64) -> Vec<(i64, i64)> {
    (-2..upto).filter_map(|k| map.find(k).map(|v| (k, v))).collect()
}

fn basic_operations<T: Table>() {
    let mut map = T::empty();
    assert_eq!(map.find(1), None);
    assert_eq!(map.put(1, 10), None);
    assert_eq!(map.put(2, 20), None);
    assert_eq!(map.put(1, 11), Some(10));
    assert_eq!(map.find(1), Some(11));
    assert_eq!(map.find(2), Some(20));
    assert_eq!(map.find(3), None);
    assert_eq!(map.take(2), Some(20));
    assert_eq!(map.take(2), None);
    assert_eq!(map.find(2), None);
    assert_eq!(entries(&map, 5), vec![(1, 11)]);
    let roomy = T::with_room(100);
    assert_eq!(entries(&roomy, 5), vec![]);
}

#[test]
fn swiss_map_basic_operations() {
    basic_operations::<SwissMap>();
}

#[test]
fn std_map_basic_operations() {
    basic_operations::<StdMap>();
}

fn bumping<T: Table>() {
    let mut map = T::empty();
    map.bump(5);
    assert_eq!(map.find(5), Some(1));
    map.bump(5);
    map.bump(5);
    map.bump(-1);
    assert_eq!(map.find(5), Some(3));
    assert_eq!(map.find(-1), Some(1));
    map.put(9, 40);
    map.bump(9);
    assert_eq!(map.find(9), Some(41));
}

#[test]
fn swiss_map_bump_counts() {
    bumping::<SwissMap>();
}

#[test]
fn std_map_bump_counts() {
    bumping::<StdMap>();
}

fn walking<T: Table>() {
    let mut map = T::empty();
    assert_eq!(map.sum_entries(), 0);
    assert_eq!(map.sum_keys(), 0);
    map.put(1, 10);
    map.put(2, 20);
    map.put(-7, 5);
    assert_eq!(map.sum_entries(), 1 + 10 + 2 + 20 - 7 + 5);
    assert_eq!(map.sum_keys(), 1 + 2 - 7);
    let big = filled::<T>(1000);
    assert_eq!(big.sum_entries(), 999_000);
    assert_eq!(big.sum_keys(), 499_500);
}

#[test]
fn swiss_map_walks_visit_every_entry_once() {
    walking::<SwissMap>();
}

#[test]
fn std_map_walks_visit_every_entry_once() {
    walking::<StdMap>();
}

fn walk_sums_wrap<T: Table>() {
    let mut map = T::empty();
    map.put(i64::MAX, i64::MAX);
    map.put(1, 2);
    assert_eq!(map.sum_keys(), i64::MIN);
    assert_eq!(map.sum_entries(), i64::MAX.wrapping_add(i64::MAX).wrapping_add(3));
}

#[test]
fn swiss_map_walk_sums_wrap() {
    walk_sums_wrap::<SwissMap>();
}

#[test]
fn std_map_walk_sums_wrap() {
    walk_sums_wrap::<StdMap>();
}

fn filling_and_looking_up<T: Table>() {
    let mut map = T::empty();
    fill_range(&mut map, 3, 6);
    assert_eq!(entries(&map, 10), vec![(3, 3), (4, 4), (5, 5)]);
    fill_range(&mut map, 6, 6);
    assert_eq!(entries(&map, 10).len(), 3);
    assert_eq!(checksum_range(&map, 0, 10), 12);
    assert_eq!(checksum_range(&map, 4, 5), 4);
    assert_eq!(checksum_range(&map, 7, 7), 0);
    assert_eq!(count_missing_range(&map, 0, 10), 7);
    assert_eq!(count_missing_range(&map, 3, 6), 0);
    assert_eq!(count_missing_range(&map, 6, 9), 3);

    let map = filled::<T>(100);
    assert_eq!(checksum_range(&map, 0, 100), 4950);
    assert_eq!(count_missing_range(&map, 100, 200), 100);
    assert_eq!(checksum_keys(&map, &vec![5, 5, 99, 100, -1, 0]), 109);
    assert_eq!(checksum_keys(&map, &vec![]), 0);
}

#[test]
fn swiss_map_fill_and_lookup() {
    filling_and_looking_up::<SwissMap>();
}

#[test]
fn std_map_fill_and_lookup() {
    filling_and_looking_up::<StdMap>();
}

fn checksums_wrap<T: Table>() {
    let mut map = T::empty();
    map.put(0, i64::MAX);
    map.put(1, 1);
    map.put(2, i64::MIN);
    assert_eq!(checksum_range(&map, 0, 2), i64::MIN);
    assert_eq!(checksum_range(&map, 0, 3), 0);
    assert_eq!(
        checksum_keys(&map, &vec![0, 0, 1]),
        i64::MAX.wrapping_add(i64::MAX).wrapping_add(1)
    );
}

#[test]
fn swiss_map_checksums_wrap() {
    checksums_wrap::<SwissMap>();
}

#[test]
fn std_map_checksums_wrap() {
    checksums_wrap::<StdMap>();
}

fn filling_keys<T: Table>() {
    let mut map = T::empty();
    map.put(7, 70);
    map.put(8, 80);
    fill_keys(&mut map, &vec![3, 7, 3]);
    assert_eq!(entries(&map, 10), vec![(3, 3), (7, 7), (8, 80)]);
}

#[test]
fn swiss_map_fill_keys() {
    filling_keys::<SwissMap>();
}

#[test]
fn std_map_fill_keys() {
    filling_keys::<StdMap>();
}

fn clearing<T: Table>() {
    let mut map = filled::<T>(10);
    clear_range(&mut map, 2, 5);
    assert_eq!(entries(&map, 12), vec![(0, 0), (1, 1), (5, 5), (6, 6), (7, 7), (8, 8), (9, 9)]);
    clear_range(&mut map, 0, 20);
    assert_eq!(entries(&map, 12), vec![]);

    let mut map = filled::<T>(7);
    map.put(-2, 1);
    clear_even(&mut map, 7);
    assert_eq!(entries(&map, 12), vec![(-2, 1), (1, 1), (3, 3), (5, 5)]);
    map.put(2, 99);
    fill_even(&mut map, 6);
    assert_eq!(
        entries(&map, 12),
        vec![(-2, 1), (0, 0), (1, 1), (2, 2), (3, 3), (4, 4), (5, 5)]
    );
    clear_even(&mut map, 0);
    fill_even(&mut map, 0);
    assert_eq!(entries(&map, 12).len(), 7);
}

#[test]
fn swiss_map_clear_ranges() {
    clearing::<SwissMap>();
}

#[test]
fn std_map_clear_ranges() {
    clearing::<StdMap>();
}

fn counting_residues<T: Table>() {
    let mut map = T::empty();
    count_residues(&mut map, 6);
    assert_eq!(entries(&map, 10), vec![(0, 2), (1, 2), (2, 2)]);
    let mut map = T::empty();
    count_residues(&mut map, 7);
    assert_eq!(entries(&map, 10), vec![(0, 3), (1, 2), (2, 2)]);
    let mut map = T::empty();
    count_residues(&mut map, 2);
    assert_eq!(entries(&map, 10), vec![(0, 2)]);
    let mut map = T::empty();
    count_residues(&mut map, 0);
    assert_eq!(entries(&map, 10), vec![]);
}

#[test]
fn swiss_map_count_residues() {
    counting_residues::<SwissMap>();
}

#[test]
fn std_map_count_residues() {
    counting_residues::<StdMap>();
}

fn timed_units<T: Table>() {
    let (_, map) = timed_fill_new::<T>(50);
    assert_eq!(entries(&map, 60).len(), 50);
    assert_eq!(map.find(49), Some(49));
    let (_, map) = timed_fill_reserved::<T>(50);
    assert_eq!(entries(&map, 60).len(), 50);
    let (_, map) = timed_fill_keys::<T>(&vec![4, 4, 9]);
    assert_eq!(entries(&map, 60), vec![(4, 4), (9, 9)]);
    let map = filled::<T>(50);
    assert_eq!(timed_checksum_range(&map, 0, 50).1, 1225);
    assert_eq!(timed_count_missing(&map, 50, 100).1, 50);
    assert_eq!(timed_count_missing(&map, 40, 60).1, 10);
    assert_eq!(timed_checksum_keys(&map, &vec![1, 2, 3, 77]).1, 6);
    assert_eq!(timed_sum_entries(&map).1, 2450);
    assert_eq!(timed_sum_keys(&map).1, 1225);
    let (_, map) = timed_clear::<T>(50);
    assert_eq!(entries(&map, 60), vec![]);
    let (_, map) = timed_clear_and_refill::<T>(51);
    assert_eq!(entries(&map, 60).len(), 51);
    assert_eq!(timed_sum_keys(&map).1, 1275);
    let (_, map) = timed_count_residues::<T>(9);
    assert_eq!(entries(&map, 60), vec![(0, 3), (1, 2), (2, 2), (3, 2)]);
}

#[test]
fn swiss_map_timed_units() {
    timed_units::<SwissMap>();
}

#[test]
fn std_map_timed_units() {
    timed_units::<StdMap>();
}
