//! The map cases of the hash-table suite: the Swiss table as the candidate,
//! the standard library's map as the baseline.
//!
//! Every case prepares its input and runs the protocol on two units that
//! time themselves. A timed unit also hands back what its run computed, and
//! a case hands back, beside the statistics of both backends, the samples of
//! all runs and what the last run of each backend computed.

use vstd::prelude::*;
use crate::checksum::{crop, entries_total, members_total};
use crate::clock::{elapsed_ns, MAX_SAMPLE_NS};
use crate::report::CaseRun;
use crate::rng::{keys_below_seq, keys_seq, random_keys, random_keys_below, Rng};
use crate::swiss::{no_entries, SwissMap, SWISS_MAX_ENTRIES};
use crate::table::{StdMap, Table};
use crate::timing::{computes, reports_samples, run_protocol};
use crate::workload::{
    checksum_keys, checksum_range, clear_even, clear_range, count_missing_range, count_residues,
    fill_even, fill_keys, fill_range, found_total, identity_on, identity_range, range_misses,
    range_total, residue_counts,
};

verus! {

/// The measured runs of each case of this suite.
pub const ITERATIONS: usize = 5;

/// The warmup runs of each case of this suite.
pub const WARMUP_ITERATIONS: usize = 2;

/// The largest input size of a case: twice as many entries still fit a
/// table.
pub const MAX_CASE_SIZE: usize = SWISS_MAX_ENTRIES / 2;

/// What the random lookups at the input size `n` add up to: the checksum
/// of the values found under `n` keys drawn below `2 * n` from the generator
/// seeded with 54321, in a map that holds the keys below `n`.
pub open spec fn random_lookup_checksum(n: nat) -> i64 {
    crop(
        found_total(
            identity_range(0, n as int),
            keys_below_seq(54321, n, (2 * n) as u64),
        ),
    )
}

/// A map with room for `n` entries that holds the keys below `n`, each with
/// itself as its value.
pub fn filled<T: Table>(n: usize) -> (map: T)
    requires
        n <= MAX_CASE_SIZE,
    ensures
        map.entries() == identity_range(0, n as int),
        map.entries().dom().finite(),
        map.entries().dom().len() <= n,
{
    let mut map = T::with_room(n);
    fill_range(&mut map, 0, n);
    assert(map.entries() =~= identity_range(0, n as int));
    map
}

/// Times the insertion of the keys below `n` into a new map.
pub fn timed_fill_new<T: Table>(n: usize) -> (r: (u128, T))
    requires
        n <= MAX_CASE_SIZE,
    ensures
        r.0 <= MAX_SAMPLE_NS,
        r.1.entries() == identity_range(0, n as int),
{
    let mut map = T::empty();
    let start = std::time::Instant::now();
    fill_range(&mut map, 0, n);
    let elapsed = elapsed_ns(&start);
    std::hint::black_box(&map);
    assert(map.entries() =~= identity_range(0, n as int));
    (elapsed, map)
}

/// Times the insertion of the keys below `n` into a new map that has room
/// for them.
pub fn timed_fill_reserved<T: Table>(n: usize) -> (r: (u128, T))
    requires
        n <= MAX_CASE_SIZE,
    ensures
        r.0 <= MAX_SAMPLE_NS,
        r.1.entries() == identity_range(0, n as int),
{
    let mut map = T::with_room(n);
    let start = std::time::Instant::now();
    fill_range(&mut map, 0, n);
    let elapsed = elapsed_ns(&start);
    std::hint::black_box(&map);
    assert(map.entries() =~= identity_range(0, n as int));
    (elapsed, map)
}

/// Times the insertion of `keys` into a new map.
pub fn timed_fill_keys<T: Table>(keys: &Vec<i64>) -> (r: (u128, T))
    requires
        keys.len() <= MAX_CASE_SIZE,
    ensures
        r.0 <= MAX_SAMPLE_NS,
        r.1.entries() == identity_on(keys@),
{
    let mut map = T::empty();
    let start = std::time::Instant::now();
    fill_keys(&mut map, keys);
    let elapsed = elapsed_ns(&start);
    std::hint::black_box(&map);
    assert(map.entries() =~= identity_on(keys@));
    (elapsed, map)
}

/// Times the lookups of the keys from `lo` up to but not including `hi`;
/// also returns the checksum of the values found.
pub fn timed_checksum_range<T: Table>(map: &T, lo: usize, hi: usize) -> (r: (u128, i64))
    requires
        lo <= hi <= i64::MAX,
    ensures
        r.0 <= MAX_SAMPLE_NS,
        r.1 == crop(range_total(map.entries(), lo as int, hi as int)),
{
    let start = std::time::Instant::now();
    let checksum = checksum_range(map, lo, hi);
    let elapsed = elapsed_ns(&start);
    std::hint::black_box(checksum);
    (elapsed, checksum)
}

/// Times the lookups of the keys from `lo` up to but not including `hi`;
/// also returns the number of keys that were not found.
pub fn timed_count_missing<T: Table>(map: &T, lo: usize, hi: usize) -> (r: (u128, usize))
    requires
        lo <= hi <= i64::MAX,
    ensures
        r.0 <= MAX_SAMPLE_NS,
        r.1 == range_misses(map.entries(), lo as int, hi as int),
{
    let start = std::time::Instant::now();
    let miss_count = count_missing_range(map, lo, hi);
    let elapsed = elapsed_ns(&start);
    std::hint::black_box(miss_count);
    (elapsed, miss_count)
}

/// Times the lookups of `keys`; also returns the checksum of the values
/// found.
pub fn timed_checksum_keys<T: Table>(map: &T, keys: &Vec<i64>) -> (r: (u128, i64))
    ensures
        r.0 <= MAX_SAMPLE_NS,
        r.1 == crop(found_total(map.entries(), keys@)),
{
    let start = std::time::Instant::now();
    let checksum = checksum_keys(map, keys);
    let elapsed = elapsed_ns(&start);
    std::hint::black_box(checksum);
    (elapsed, checksum)
}

/// Fills a map with the keys below `n`, then times their removal; also
/// returns the map, which is empty again.
pub fn timed_clear<T: Table>(n: usize) -> (r: (u128, T))
    requires
        n <= MAX_CASE_SIZE,
    ensures
        r.0 <= MAX_SAMPLE_NS,
        r.1.entries() == no_entries(),
{
    let mut map = filled::<T>(n);
    let start = std::time::Instant::now();
    clear_range(&mut map, 0, n);
    let elapsed = elapsed_ns(&start);
    std::hint::black_box(&map);
    assert(map.entries() =~= no_entries());
    (elapsed, map)
}

/// Fills a map with the keys below `n`, then times the removal of the even
/// keys and their insertion again; also returns the map, which holds what
/// it held before.
pub fn timed_clear_and_refill<T: Table>(n: usize) -> (r: (u128, T))
    requires
        n <= MAX_CASE_SIZE,
    ensures
        r.0 <= MAX_SAMPLE_NS,
        r.1.entries() == identity_range(0, n as int),
{
    let mut map = filled::<T>(n);
    let start = std::time::Instant::now();
    clear_even(&mut map, n);
    proof {
        vstd::set_lib::lemma_len_subset(map.entries().dom(), identity_range(0, n as int).dom());
    }
    fill_even(&mut map, n);
    let elapsed = elapsed_ns(&start);
    std::hint::black_box(&map);
    assert(map.entries() =~= identity_range(0, n as int));
    (elapsed, map)
}

/// Times a walk over all entries; also returns the checksum of their keys
/// and values.
pub fn timed_sum_entries<T: Table>(map: &T) -> (r: (u128, i64))
    requires
        map.entries().dom().finite(),
    ensures
        r.0 <= MAX_SAMPLE_NS,
        r.1 == crop(entries_total(map.entries())),
{
    let start = std::time::Instant::now();
    let sum = map.sum_entries();
    let elapsed = elapsed_ns(&start);
    std::hint::black_box(sum);
    (elapsed, sum)
}

/// Times a walk over all keys; also returns their checksum.
pub fn timed_sum_keys<T: Table>(map: &T) -> (r: (u128, i64))
    requires
        map.entries().dom().finite(),
    ensures
        r.0 <= MAX_SAMPLE_NS,
        r.1 == crop(members_total(map.entries().dom())),
{
    let start = std::time::Instant::now();
    let sum = map.sum_keys();
    let elapsed = elapsed_ns(&start);
    std::hint::black_box(sum);
    (elapsed, sum)
}

/// Times `n` updates through the entry interface, on keys that each come
/// up at least twice; also returns the map of the counts.
pub fn timed_count_residues<T: Table>(n: usize) -> (r: (u128, T))
    requires
        n != 1,
        n <= MAX_CASE_SIZE,
    ensures
        r.0 <= MAX_SAMPLE_NS,
        r.1.entries() == residue_counts(n as int / 2, n as int),
{
    let mut map = T::empty();
    let start = std::time::Instant::now();
    count_residues(&mut map, n);
    let elapsed = elapsed_ns(&start);
    std::hint::black_box(&map);
    (elapsed, map)
}

/// Insertion of the keys below `n`, in order, into a new map. Each backend
/// ends with the map of these keys.
pub fn bench_insert_sequential(n: usize) -> (r: CaseRun<StdMap, SwissMap>)
    requires
        n <= MAX_CASE_SIZE,
    ensures
        r.result.name@ == "Insert (seq)"@,
        r.result.size == n,
        r.result.ops == n,
        r.follows_protocol(WARMUP_ITERATIONS as nat, ITERATIONS as nat),
        r.baseline_output.entries() == identity_range(0, n as int),
        r.candidate_output.entries() == identity_range(0, n as int),
{
    let candidate = || -> (t: (u128, SwissMap))
        ensures
            t.0 <= MAX_SAMPLE_NS,
            t.1.entries() == identity_range(0, n as int),
        { timed_fill_new::<SwissMap>(n) };
    let baseline = || -> (t: (u128, StdMap))
        ensures
            t.0 <= MAX_SAMPLE_NS,
            t.1.entries() == identity_range(0, n as int),
        { timed_fill_new::<StdMap>(n) };
    let (std_trace, hb_trace) = run_protocol(WARMUP_ITERATIONS, ITERATIONS, &baseline, &candidate);
    CaseRun::new("Insert (seq)", n, n, std_trace, hb_trace)
}

/// Insertion of `n` keys drawn from the generator seeded with 12345 into a
/// new map. Each backend ends with the map of these keys.
pub fn bench_insert_random(n: usize) -> (r: CaseRun<StdMap, SwissMap>)
    requires
        n <= MAX_CASE_SIZE,
    ensures
        r.result.name@ == "Insert (rnd)"@,
        r.result.size == n,
        r.result.ops == n,
        r.follows_protocol(WARMUP_ITERATIONS as nat, ITERATIONS as nat),
        r.baseline_output.entries() == identity_on(keys_seq(12345, n as nat)),
        r.candidate_output.entries() == identity_on(keys_seq(12345, n as nat)),
{
    let mut rng = Rng::new(12345);
    let keys = random_keys(&mut rng, n);
    let candidate = || -> (t: (u128, SwissMap))
        ensures
            t.0 <= MAX_SAMPLE_NS,
            t.1.entries() == identity_on(keys_seq(12345, n as nat)),
        { timed_fill_keys::<SwissMap>(&keys) };
    let baseline = || -> (t: (u128, StdMap))
        ensures
            t.0 <= MAX_SAMPLE_NS,
            t.1.entries() == identity_on(keys_seq(12345, n as nat)),
        { timed_fill_keys::<StdMap>(&keys) };
    let (std_trace, hb_trace) = run_protocol(WARMUP_ITERATIONS, ITERATIONS, &baseline, &candidate);
    CaseRun::new("Insert (rnd)", n, n, std_trace, hb_trace)
}

/// Insertion of the keys below `n`, in order, into a new map that has room
/// for them. Each backend ends with the map of these keys.
pub fn bench_insert_prealloc(n: usize) -> (r: CaseRun<StdMap, SwissMap>)
    requires
        n <= MAX_CASE_SIZE,
    ensures
        r.result.name@ == "Insert (pre)"@,
        r.result.size == n,
        r.result.ops == n,
        r.follows_protocol(WARMUP_ITERATIONS as nat, ITERATIONS as nat),
        r.baseline_output.entries() == identity_range(0, n as int),
        r.candidate_output.entries() == identity_range(0, n as int),
{
    let candidate = || -> (t: (u128, SwissMap))
        ensures
            t.0 <= MAX_SAMPLE_NS,
            t.1.entries() == identity_range(0, n as int),
        { timed_fill_reserved::<SwissMap>(n) };
    let baseline = || -> (t: (u128, StdMap))
        ensures
            t.0 <= MAX_SAMPLE_NS,
            t.1.entries() == identity_range(0, n as int),
        { timed_fill_reserved::<StdMap>(n) };
    let (std_trace, hb_trace) = run_protocol(WARMUP_ITERATIONS, ITERATIONS, &baseline, &candidate);
    CaseRun::new("Insert (pre)", n, n, std_trace, hb_trace)
}

/// Insertion of the keys below `n`, in order, into a new map that has room
/// for them, where the candidate inserts without looking for the key first.
/// That call is not a safe one, so the caller provides the candidate's timed
/// run; the baseline inserts as in `bench_insert_prealloc`.
pub fn bench_insert_unique<T, C: Fn() -> (u128, T)>(n: usize, candidate: &C) -> (r: CaseRun<
    StdMap,
    T,
>)
    requires
        n <= MAX_CASE_SIZE,
        reports_samples(*candidate),
    ensures
        r.result.name@ == "InsertUnique"@,
        r.result.size == n,
        r.result.ops == n,
        r.follows_protocol(WARMUP_ITERATIONS as nat, ITERATIONS as nat),
        r.baseline_output.entries() == identity_range(0, n as int),
        computes(*candidate, r.candidate_output),
{
    let baseline = || -> (t: (u128, StdMap))
        ensures
            t.0 <= MAX_SAMPLE_NS,
            t.1.entries() == identity_range(0, n as int),
        { timed_fill_reserved::<StdMap>(n) };
    let (std_trace, hb_trace) = run_protocol(WARMUP_ITERATIONS, ITERATIONS, &baseline, candidate);
    CaseRun::new("InsertUnique", n, n, std_trace, hb_trace)
}

/// Lookups of the keys below `n`, all of which are held. Each backend ends
/// with the checksum of the values found.
pub fn bench_lookup_hit(n: usize) -> (r: CaseRun<i64, i64>)
    requires
        n <= MAX_CASE_SIZE,
    ensures
        r.result.name@ == "Lookup (hit)"@,
        r.result.size == n,
        r.result.ops == n,
        r.follows_protocol(WARMUP_ITERATIONS as nat, ITERATIONS as nat),
        r.baseline_output == crop(range_total(identity_range(0, n as int), 0, n as int)),
        r.candidate_output == crop(range_total(identity_range(0, n as int), 0, n as int)),
{
    let hb_map = filled::<SwissMap>(n);
    let std_map = filled::<StdMap>(n);
    let candidate = || -> (t: (u128, i64))
        ensures
            t.0 <= MAX_SAMPLE_NS,
            t.1 == crop(range_total(identity_range(0, n as int), 0, n as int)),
        { timed_checksum_range(&hb_map, 0, n) };
    let baseline = || -> (t: (u128, i64))
        ensures
            t.0 <= MAX_SAMPLE_NS,
            t.1 == crop(range_total(identity_range(0, n as int), 0, n as int)),
        { timed_checksum_range(&std_map, 0, n) };
    let (std_trace, hb_trace) = run_protocol(WARMUP_ITERATIONS, ITERATIONS, &baseline, &candidate);
    CaseRun::new("Lookup (hit)", n, n, std_trace, hb_trace)
}

/// Lookups of the keys from `n` up to but not including `2 * n`, none of
/// which is held. Each backend ends with the number of keys not found.
pub fn bench_lookup_miss(n: usize) -> (r: CaseRun<usize, usize>)
    requires
        n <= MAX_CASE_SIZE,
    ensures
        r.result.name@ == "Lookup (miss)"@,
        r.result.size == n,
        r.result.ops == n,
        r.follows_protocol(WARMUP_ITERATIONS as nat, ITERATIONS as nat),
        r.baseline_output == range_misses(identity_range(0, n as int), n as int, 2 * n),
        r.candidate_output == range_misses(identity_range(0, n as int), n as int, 2 * n),
{
    let hb_map = filled::<SwissMap>(n);
    let std_map = filled::<StdMap>(n);
    let candidate = || -> (t: (u128, usize))
        ensures
            t.0 <= MAX_SAMPLE_NS,
            t.1 == range_misses(identity_range(0, n as int), n as int, 2 * n),
        { timed_count_missing(&hb_map, n, n * 2) };
    let baseline = || -> (t: (u128, usize))
        ensures
            t.0 <= MAX_SAMPLE_NS,
            t.1 == range_misses(identity_range(0, n as int), n as int, 2 * n),
        { timed_count_missing(&std_map, n, n * 2) };
    let (std_trace, hb_trace) = run_protocol(WARMUP_ITERATIONS, ITERATIONS, &baseline, &candidate);
    CaseRun::new("Lookup (miss)", n, n, std_trace, hb_trace)
}

/// Lookups of `n` keys drawn below `2 * n` from the generator seeded with
/// 54321, about half of which are held, in maps that hold the keys below
/// `n`. Each backend ends with the checksum of the values found.
pub fn bench_lookup_random(n: usize) -> (r: CaseRun<i64, i64>)
    requires
        n <= MAX_CASE_SIZE,
    ensures
        r.result.name@ == "Lookup (rnd)"@,
        r.result.size == n,
        r.result.ops == n,
        r.follows_protocol(WARMUP_ITERATIONS as nat, ITERATIONS as nat),
        r.baseline_output == random_lookup_checksum(n as nat),
        r.candidate_output == random_lookup_checksum(n as nat),
{
    let hb_map = filled::<SwissMap>(n);
    let std_map = filled::<StdMap>(n);
    let mut rng = Rng::new(54321);
    let lookup_keys = random_keys_below(&mut rng, n, (n * 2) as u64);
    let candidate = || -> (t: (u128, i64))
        ensures
            t.0 <= MAX_SAMPLE_NS,
            t.1 == random_lookup_checksum(n as nat),
        { timed_checksum_keys(&hb_map, &lookup_keys) };
    let baseline = || -> (t: (u128, i64))
        ensures
            t.0 <= MAX_SAMPLE_NS,
            t.1 == random_lookup_checksum(n as nat),
        { timed_checksum_keys(&std_map, &lookup_keys) };
    let (std_trace, hb_trace) = run_protocol(WARMUP_ITERATIONS, ITERATIONS, &baseline, &candidate);
    CaseRun::new("Lookup (rnd)", n, n, std_trace, hb_trace)
}

/// Removal of the keys below `n` from a map that holds them. Each backend
/// ends with an empty map.
pub fn bench_remove(n: usize) -> (r: CaseRun<StdMap, SwissMap>)
    requires
        n <= MAX_CASE_SIZE,
    ensures
        r.result.name@ == "Remove"@,
        r.result.size == n,
        r.result.ops == n,
        r.follows_protocol(WARMUP_ITERATIONS as nat, ITERATIONS as nat),
        r.baseline_output.entries() == no_entries(),
        r.candidate_output.entries() == no_entries(),
{
    let candidate = || -> (t: (u128, SwissMap))
        ensures
            t.0 <= MAX_SAMPLE_NS,
            t.1.entries() == no_entries(),
        { timed_clear::<SwissMap>(n) };
    let baseline = || -> (t: (u128, StdMap))
        ensures
            t.0 <= MAX_SAMPLE_NS,
            t.1.entries() == no_entries(),
        { timed_clear::<StdMap>(n) };
    let (std_trace, hb_trace) = run_protocol(WARMUP_ITERATIONS, ITERATIONS, &baseline, &candidate);
    CaseRun::new("Remove", n, n, std_trace, hb_trace)
}

/// Removal of the even keys below `n` from a map that holds the keys below
/// `n`, and their insertion again. Each backend ends with the map that it
/// began with.
pub fn bench_remove_and_reinsert(n: usize) -> (r: CaseRun<StdMap, SwissMap>)
    requires
        n <= MAX_CASE_SIZE,
    ensures
        r.result.name@ == "Remove+Reins"@,
        r.result.size == n,
        r.result.ops == n,
        r.follows_protocol(WARMUP_ITERATIONS as nat, ITERATIONS as nat),
        r.baseline_output.entries() == identity_range(0, n as int),
        r.candidate_output.entries() == identity_range(0, n as int),
{
    let candidate = || -> (t: (u128, SwissMap))
        ensures
            t.0 <= MAX_SAMPLE_NS,
            t.1.entries() == identity_range(0, n as int),
        { timed_clear_and_refill::<SwissMap>(n) };
    let baseline = || -> (t: (u128, StdMap))
        ensures
            t.0 <= MAX_SAMPLE_NS,
            t.1.entries() == identity_range(0, n as int),
        { timed_clear_and_refill::<StdMap>(n) };
    let (std_trace, hb_trace) = run_protocol(WARMUP_ITERATIONS, ITERATIONS, &baseline, &candidate);
    CaseRun::new("Remove+Reins", n, n, std_trace, hb_trace)
}

/// A walk over the entries of a map that holds the keys below `n`. Each
/// backend ends with the checksum of all keys and values.
pub fn bench_iteration(n: usize) -> (r: CaseRun<i64, i64>)
    requires
        n <= MAX_CASE_SIZE,
    ensures
        r.result.name@ == "Iterate"@,
        r.result.size == n,
        r.result.ops == n,
        r.follows_protocol(WARMUP_ITERATIONS as nat, ITERATIONS as nat),
        r.baseline_output == crop(entries_total(identity_range(0, n as int))),
        r.candidate_output == crop(entries_total(identity_range(0, n as int))),
{
    let hb_map = filled::<SwissMap>(n);
    let std_map = filled::<StdMap>(n);
    let candidate = || -> (t: (u128, i64))
        ensures
            t.0 <= MAX_SAMPLE_NS,
            t.1 == crop(entries_total(identity_range(0, n as int))),
        { timed_sum_entries(&hb_map) };
    let baseline = || -> (t: (u128, i64))
        ensures
            t.0 <= MAX_SAMPLE_NS,
            t.1 == crop(entries_total(identity_range(0, n as int))),
        { timed_sum_entries(&std_map) };
    let (std_trace, hb_trace) = run_protocol(WARMUP_ITERATIONS, ITERATIONS, &baseline, &candidate);
    CaseRun::new("Iterate", n, n, std_trace, hb_trace)
}

/// A walk over the keys of a map that holds the keys below `n`. Each backend
/// ends with the checksum of all keys.
pub fn bench_keys_iteration(n: usize) -> (r: CaseRun<i64, i64>)
    requires
        n <= MAX_CASE_SIZE,
    ensures
        r.result.name@ == "Keys iter"@,
        r.result.size == n,
        r.result.ops == n,
        r.follows_protocol(WARMUP_ITERATIONS as nat, ITERATIONS as nat),
        r.baseline_output == crop(members_total(identity_range(0, n as int).dom())),
        r.candidate_output == crop(members_total(identity_range(0, n as int).dom())),
{
    let hb_map = filled::<SwissMap>(n);
    let std_map = filled::<StdMap>(n);
    let candidate = || -> (t: (u128, i64))
        ensures
            t.0 <= MAX_SAMPLE_NS,
            t.1 == crop(members_total(identity_range(0, n as int).dom())),
        { timed_sum_keys(&hb_map) };
    let baseline = || -> (t: (u128, i64))
        ensures
            t.0 <= MAX_SAMPLE_NS,
            t.1 == crop(members_total(identity_range(0, n as int).dom())),
        { timed_sum_keys(&std_map) };
    let (std_trace, hb_trace) = run_protocol(WARMUP_ITERATIONS, ITERATIONS, &baseline, &candidate);
    CaseRun::new("Keys iter", n, n, std_trace, hb_trace)
}

/// `n` updates through the entry interface, half of them of a key that is
/// already held. With `n` equal to 1 the modulus of the keys would be 0.
/// Each backend ends with the map of the counts.
pub fn bench_entry_api(n: usize) -> (r: CaseRun<StdMap, SwissMap>)
    requires
        n != 1,
        n <= MAX_CASE_SIZE,
    ensures
        r.result.name@ == "Entry API"@,
        r.result.size == n,
        r.result.ops == n,
        r.follows_protocol(WARMUP_ITERATIONS as nat, ITERATIONS as nat),
        r.baseline_output.entries() == residue_counts(n as int / 2, n as int),
        r.candidate_output.entries() == residue_counts(n as int / 2, n as int),
{
    let candidate = || -> (t: (u128, SwissMap))
        ensures
            t.0 <= MAX_SAMPLE_NS,
            t.1.entries() == residue_counts(n as int / 2, n as int),
        { timed_count_residues::<SwissMap>(n) };
    let baseline = || -> (t: (u128, StdMap))
        ensures
            t.0 <= MAX_SAMPLE_NS,
            t.1.entries() == residue_counts(n as int / 2, n as int),
        { timed_count_residues::<StdMap>(n) };
    let (std_trace, hb_trace) = run_protocol(WARMUP_ITERATIONS, ITERATIONS, &baseline, &candidate);
    CaseRun::new("Entry API", n, n, std_trace, hb_trace)
}

} // verus!
