use bench_harness::members::{Members, StdSet};
use bench_harness::set_cases::{
    count_members_range, fill_members_range, filled_set, timed_count_members,
    timed_fill_new_set, timed_intersection, timed_union,
};
use bench_harness::swiss::SwissSet;

fn members<S: Members>(set: &S, upto: i64) -> Vec<i64> {
    (-2..upto).filter(|k| set.has(*k)).collect()
}

fn basic_operations<S: Members>() {
    let mut set = S::empty();
    assert!(!set.has(3));
    assert!(set.put(3));
    assert!(!set.put(3));
    assert!(set.put(-1));
    assert!(set.has(3));
    assert!(!set.has(4));
    assert_eq!(members(&set, 10), vec![-1, 3]);
    assert_eq!(members(&S::with_room(10), 10), vec![]);
}

#[test]
fn swiss_set_basic_operations() {
    basic_operations::<SwissSet>();
}

#[test]
fn std_set_basic_operations() {
    basic_operations::<StdSet>();
}

fn union_and_intersection<S: Members>() {
    let a = filled_set::<S>(0, 6);
    let b = filled_set::<S>(3, 6);
    assert_eq!(members(&a, 12), vec![0, 1, 2, 3, 4, 5]);
    assert_eq!(members(&b, 12), vec![3, 4, 5, 6, 7, 8]);
    assert_eq!(members(&a.union_with(&b), 12), vec![0, 1, 2, 3, 4, 5, 6, 7, 8]);
    assert_eq!(members(&b.union_with(&a), 12), vec![0, 1, 2, 3, 4, 5, 6, 7, 8]);
    assert_eq!(members(&a.intersection_with(&b), 12), vec![3, 4, 5]);
    assert_eq!(members(&b.intersection_with(&a), 12), vec![3, 4, 5]);
    let none = S::empty();
    assert_eq!(members(&a.union_with(&none), 12), vec![0, 1, 2, 3, 4, 5]);
    assert_eq!(members(&none.union_with(&a), 12), vec![0, 1, 2, 3, 4, 5]);
    assert_eq!(members(&a.intersection_with(&none), 12), vec![]);
    assert_eq!(members(&none.intersection_with(&a), 12), vec![]);
    let far = filled_set::<S>(100, 3);
    assert_eq!(members(&a.intersection_with(&far), 200), vec![]);
    assert_eq!(members(&a.union_with(&far), 200), vec![0, 1, 2, 3, 4, 5, 100, 101, 102]);
}

#[test]
fn swiss_set_union_and_intersection() {
    union_and_intersection::<SwissSet>();
}

#[test]
fn std_set_union_and_intersection() {
    union_and_intersection::<StdSet>();
}

fn ranges<S: Members>() {
    let mut set = S::empty();
    set.put(20);
    fill_members_range(&mut set, 2, 5);
    assert_eq!(members(&set, 30), vec![2, 3, 4, 20]);
    assert_eq!(count_members_range(&set, 0, 30), 4);
    assert_eq!(count_members_range(&set, 3, 20), 2);
    assert_eq!(count_members_range(&set, 5, 5), 0);
    let set = filled_set::<S>(0, 100);
    assert_eq!(count_members_range(&set, 0, 200), 100);
}

#[test]
fn swiss_set_ranges() {
    ranges::<SwissSet>();
}

#[test]
fn std_set_ranges() {
    ranges::<StdSet>();
}

fn timed_units<S: Members>() {
    let (_, set) = timed_fill_new_set::<S>(40);
    assert_eq!(members(&set, 50).len(), 40);
    assert_eq!(timed_count_members(&set, 0, 80).1, 40);
    let other = filled_set::<S>(20, 40);
    let (_, both) = timed_union(&set, &other);
    assert_eq!(members(&both, 100), (0..60).collect::<Vec<i64>>());
    let (_, common) = timed_intersection(&set, &other);
    assert_eq!(members(&common, 100), (20..40).collect::<Vec<i64>>());
}

#[test]
fn swiss_set_timed_units() {
    timed_units::<SwissSet>();
}

#[test]
fn std_set_timed_units() {
    timed_units::<StdSet>();
}
