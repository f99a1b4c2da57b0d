use bench_harness::rng::{random_keys, random_keys_below, Rng};

#[test]
fn reference_sequence_of_seed_12345() {
    let mut rng = Rng::new(12345);
    let drawn: Vec<u64> = (0..5).map(|_| rng.next()).collect();
    assert_eq!(
        drawn,
        vec![
            13289605635609,
            11245129090807876197,
            11684599175382693041,
            2374937242968128280,
            8896562790888756974,
        ]
    );
}

#[test]
fn first_value_is_one_transform_of_the_seed() {
    let mut x: u64 = 12345;
    x ^= x << 13;
    x ^= x >> 7;
    x ^= x << 17;
    assert_eq!(Rng::new(12345).next(), x);
    assert_eq!(x, 13289605635609);
}

#[test]
fn reference_sequence_of_seed_1() {
    let mut rng = Rng::new(1);
    assert_eq!(rng.next(), 1082269761);
    assert_eq!(rng.next(), 1152992998833853505);
    assert_eq!(rng.next(), 11177516664432764457);
}

#[test]
fn same_seed_gives_same_sequence_for_10000_draws() {
    for seed in [1u64, 12345, 54321, u64::MAX] {
        let mut a = Rng::new(seed);
        let mut b = Rng::new(seed);
        for _ in 0..10_000 {
            assert_eq!(a.next(), b.next());
        }
    }
}

#[test]
fn ten_thousandth_value_of_seed_12345() {
    let mut rng = Rng::new(12345);
    let mut last = 0;
    for _ in 0..10_000 {
        last = rng.next();
    }
    assert_eq!(last, 14244773837295011561);
}

#[test]
fn seed_zero_stays_zero() {
    let mut rng = Rng::new(0);
    for _ in 0..16 {
        assert_eq!(rng.next(), 0);
    }
}

#[test]
fn nonzero_seed_never_draws_zero() {
    let mut rng = Rng::new(1);
    for _ in 0..10_000 {
        assert_ne!(rng.next(), 0);
    }
}

#[test]
fn next_bounded_is_next_modulo_bound() {
    let mut plain = Rng::new(54321);
    let mut bounded = Rng::new(54321);
    for _ in 0..100 {
        assert_eq!(bounded.next_bounded(10), plain.next() % 10);
    }
    let mut rng = Rng::new(54321);
    let drawn: Vec<u64> = (0..8).map(|_| rng.next_bounded(10)).collect();
    assert_eq!(drawn, vec![1, 6, 2, 9, 2, 4, 2, 1]);
}

#[test]
fn next_bounded_by_one_is_zero() {
    let mut rng = Rng::new(7);
    assert_eq!(rng.next_bounded(1), 0);
}

#[test]
fn random_keys_are_the_stream_as_signed_numbers() {
    let mut rng = Rng::new(12345);
    let keys = random_keys(&mut rng, 5);
    assert_eq!(
        keys,
        vec![
            13289605635609,
            -7201614982901675419,
            -6762144898326858575,
            2374937242968128280,
            8896562790888756974,
        ]
    );
    let mut follow = Rng::new(12345);
    for _ in 0..5 {
        follow.next();
    }
    assert_eq!(rng.next(), follow.next());
}

#[test]
fn random_keys_below_stay_below_the_bound() {
    let mut rng = Rng::new(54321);
    let keys = random_keys_below(&mut rng, 8, 10);
    assert_eq!(keys, vec![1, 6, 2, 9, 2, 4, 2, 1]);
    let mut rng = Rng::new(54321);
    let keys = random_keys_below(&mut rng, 1000, 2000);
    assert_eq!(keys.len(), 1000);
    assert!(keys.iter().all(|k| 0 <= *k && *k < 2000));
}

#[test]
fn no_keys_need_no_bound() {
    let mut rng = Rng::new(54321);
    assert!(random_keys_below(&mut rng, 0, 0).is_empty());
    assert!(random_keys(&mut rng, 0).is_empty());
    assert_eq!(rng.next(), 58720407124441);
}
