//! Exponential backoff policy for the two polling loops: waiting for the
//! result artifact and waiting for a command response.

use vstd::prelude::*;

verus! {

/// Delay before the first retry when polling for the result artifact, in
/// milliseconds.
pub const RESULT_POLL_BASE_MS: u64 = 10;

/// Ceiling on the delay between result-artifact polls, in milliseconds.
pub const RESULT_POLL_MAX_MS: u64 = 1000;

/// Number of attempts made to read the result artifact before giving up.
pub const RESULT_POLL_ATTEMPTS: u64 = 10;

/// The delay that follows `current` in an exponential backoff capped at
/// `max`: doubled, but never above the cap.
pub open spec fn spec_next_delay(current: u64, max: u64) -> u64 {
    if 2 * current <= max {
        (2 * current) as u64
    } else {
        max
    }
}

/// Double a backoff delay, capping it at `max`.
pub fn next_delay(current: u64, max: u64) -> (r: u64)
    requires
        current <= max,
        max < 0x8000_0000_0000_0000,
    ensures
        r == spec_next_delay(current, max),
        r <= max,
{
    if current <= max / 2 {
        2 * current
    } else {
        max
    }
}

/// The delay before retry number `i` (counting from zero): the base delay
/// doubled `i` times, capped at `max`.
pub open spec fn spec_delay_at(base: u64, max: u64, i: int) -> u64
    decreases i,
{
    if i <= 0 {
        base
    } else {
        spec_next_delay(spec_delay_at(base, max, i - 1), max)
    }
}

/// Every delay of the schedule stays within the cap.
pub proof fn lemma_delay_at_capped(base: u64, max: u64, i: int)
    requires
        base <= max,
    ensures
        spec_delay_at(base, max, i) <= max,
    decreases i,
{
    if i > 0 {
        lemma_delay_at_capped(base, max, i - 1);
    }
}

/// The full backoff schedule for a bounded polling loop: `attempts` delays,
/// starting at `base` and doubling up to `max`.
pub fn backoff_delays(base: u64, max: u64, attempts: usize) -> (r: Vec<u64>)
    requires
        base <= max,
        max < 0x8000_0000_0000_0000,
    ensures
        r@.len() == attempts,
        forall|i: int| 0 <= i < attempts ==> r@[i] == spec_delay_at(base, max, i),
{
    let mut r: Vec<u64> = Vec::new();
    let mut current: u64 = base;
    let mut i: usize = 0;
    while i < attempts
        invariant
            0 <= i <= attempts,
            base <= max,
            max < 0x8000_0000_0000_0000,
            current == spec_delay_at(base, max, i as int),
            current <= max,
            r@.len() == i,
            forall|j: int| 0 <= j < i ==> r@[j] == spec_delay_at(base, max, j),
        decreases attempts - i,
    {
        r.push(current);
        current = next_delay(current, max);
        i += 1;
    }
    r
}

} // verus!
