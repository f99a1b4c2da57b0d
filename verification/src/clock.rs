//! The monotonic clock, and the elapsed time of one run as a sample.

use vstd::prelude::*;

verus! {

/// `std::time::Instant`: a reading of the monotonic clock.
#[verifier::external_type_specification]
#[verifier::external_body]
pub struct ExInstant(std::time::Instant);

/// `Instant::now` reads the clock. Nothing is known of the reading.
pub assume_specification[ std::time::Instant::now ]() -> (start: std::time::Instant);

/// `Instant::elapsed` gives the time since the reading was taken. Nothing is
/// known of its length.
pub assume_specification[ std::time::Instant::elapsed ](start: &std::time::Instant) -> (elapsed:
    std::time::Duration);

/// The whole seconds of a duration.
pub uninterp spec fn duration_secs(d: std::time::Duration) -> u64;

/// The part of a duration below one second, in nanoseconds.
pub uninterp spec fn duration_subsec_nanos(d: std::time::Duration) -> u32;

/// `Duration::as_secs` gives the whole seconds of a duration: a duration
/// has the same whole seconds whenever it is asked.
pub assume_specification[ std::time::Duration::as_secs ](d: &std::time::Duration) -> (secs: u64)
    ensures
        secs == duration_secs(*d),
;

/// `Duration::subsec_nanos` gives the part of a duration below one second,
/// in nanoseconds: less than one billion, and the same whenever it is
/// asked.
pub assume_specification[ std::time::Duration::subsec_nanos ](d: &std::time::Duration) -> (nanos:
    u32)
    ensures
        nanos == duration_subsec_nanos(*d),
        nanos < 1_000_000_000,
;

/// The length of a duration in nanoseconds: its whole seconds times one
/// billion, and the nanoseconds below one second.
pub open spec fn duration_nanos(d: std::time::Duration) -> nat {
    (duration_secs(d) * 1_000_000_000 + duration_subsec_nanos(d)) as nat
}

/// `std::hint::black_box` hands its argument back; the compiler must take
/// the value as used.
pub assume_specification<T>[ std::hint::black_box::<T> ](dummy: T) -> (same: T)
    ensures
        same == dummy,
;

/// The longest time that a sample can hold: `u64::MAX` seconds and
/// 999,999,999 nanoseconds.
pub const MAX_SAMPLE_NS: u128 = 18_446_744_073_709_551_615_999_999_999;

/// The nanoseconds in one second.
pub const NANOS_PER_SECOND: u128 = 1_000_000_000;

/// The nanoseconds of `secs` whole seconds and `subsec_nanos` nanoseconds
/// below one second.
pub fn nanos_from_parts(secs: u64, subsec_nanos: u32) -> (ns: u128)
    requires
        subsec_nanos < NANOS_PER_SECOND,
    ensures
        ns == secs * NANOS_PER_SECOND + subsec_nanos,
        ns <= MAX_SAMPLE_NS,
{
    secs as u128 * NANOS_PER_SECOND + subsec_nanos as u128
}

/// The length of `d` in nanoseconds: its whole seconds and the nanoseconds
/// below one second, taken together by `nanos_from_parts`.
pub fn nanos_of(d: &std::time::Duration) -> (ns: u128)
    ensures
        ns == duration_nanos(*d),
        ns <= MAX_SAMPLE_NS,
{
    let secs: u64 = d.as_secs();
    let nanos: u32 = d.subsec_nanos();
    nanos_from_parts(secs, nanos)
}

/// The nanoseconds that have passed since `start` was read.
pub fn elapsed_ns(start: &std::time::Instant) -> (ns: u128)
    ensures
        ns <= MAX_SAMPLE_NS,
{
    let elapsed = start.elapsed();
    nanos_of(&elapsed)
}

} // verus!
