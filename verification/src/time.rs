//! Instants and lengths of time, in nanoseconds. Instants are those of a clock
//! that does not go back.

use vstd::prelude::*;

verus! {

/// The nanoseconds of a millisecond.
pub const NANOS_PER_MILLI: u128 = 1_000_000;

/// The nanoseconds of so many milliseconds.
pub open spec fn millis(ms: u64) -> u128 {
    (ms * NANOS_PER_MILLI) as u128
}

/// The nanoseconds of so many milliseconds.
pub fn from_millis(ms: u64) -> (duration: u128)
    ensures
        duration == millis(ms),
        duration == ms * 1_000_000,
{
    ms as u128 * NANOS_PER_MILLI
}

/// The whole milliseconds of a length of time, as many as sixty-four bits hold.
pub open spec fn whole_millis(duration: u128) -> u64 {
    let ms = duration / NANOS_PER_MILLI;
    if ms > u64::MAX {
        u64::MAX
    } else {
        ms as u64
    }
}

/// The whole milliseconds of a length of time, as many as sixty-four bits hold.
pub fn as_millis(duration: u128) -> (ms: u64)
    ensures
        ms == whole_millis(duration),
{
    let ms: u128 = duration / NANOS_PER_MILLI;
    if ms > u64::MAX as u128 {
        u64::MAX
    } else {
        ms as u64
    }
}

/// How long `later` is after `earlier`; nothing, if it is before.
pub open spec fn span(earlier: u128, later: u128) -> int {
    if later >= earlier {
        later - earlier
    } else {
        0
    }
}

/// How long `later` is after `earlier`; nothing, if it is before.
pub(crate) fn elapsed_between(earlier: u128, later: u128) -> (duration: u128)
    ensures
        duration == span(earlier, later),
{
    if later >= earlier {
        later - earlier
    } else {
        0
    }
}

/// Milliseconds come back from their nanoseconds as they were.
pub proof fn lemma_millis_come_back(ms: u64)
    ensures
        whole_millis(millis(ms)) == ms,
{
}

/// The time between two instants is their difference, and nothing where the
/// second is before the first.
pub proof fn lemma_time_between(earlier: u128, later: u128)
    ensures
        later >= earlier ==> earlier + span(earlier, later) == later,
        later < earlier ==> span(earlier, later) == 0,
{
}

/// A length of time has as many whole milliseconds as fit into it.
pub proof fn lemma_whole_milliseconds_fit(duration: u128)
    requires
        duration <= u64::MAX * 1_000_000,
    ensures
        whole_millis(duration) * 1_000_000 <= duration < (whole_millis(duration) + 1) * 1_000_000,
{
}

} // verus!
