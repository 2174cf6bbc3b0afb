use vstd::prelude::*;

verus! {

/// How often the input reader wakes up, in nanoseconds.
pub const TICK_RATE_NANOS: u64 = 50_000_000;

/// How long the input reader may wait for a terminal event: what is left of
/// the current tick, or nothing once the tick is over.
pub open spec fn spec_poll_timeout(tick_rate: u64, elapsed: u64) -> u64 {
    if elapsed <= tick_rate {
        (tick_rate - elapsed) as u64
    } else {
        0
    }
}

/// The wait before the next poll for terminal events, in nanoseconds, when
/// `elapsed` nanoseconds of the tick have passed.
pub fn poll_timeout(tick_rate: u64, elapsed: u64) -> (wait: u64)
    ensures
        wait == spec_poll_timeout(tick_rate, elapsed),
        wait <= tick_rate,
{
    match tick_rate.checked_sub(elapsed) {
        Some(left) => left,
        None => 0,
    }
}

/// Whether the current tick is over, so that a new one starts.
pub fn tick_is_over(tick_rate: u64, elapsed: u64) -> (over: bool)
    ensures
        over == (elapsed >= tick_rate),
{
    elapsed >= tick_rate
}

/// The wait and the time already spent make up the whole tick, until the
/// tick is over; after that the reader does not wait at all.
pub proof fn lemma_poll_fills_the_tick(tick_rate: u64, elapsed: u64)
    ensures
        elapsed <= tick_rate ==> spec_poll_timeout(tick_rate, elapsed) + elapsed == tick_rate,
        elapsed > tick_rate ==> spec_poll_timeout(tick_rate, elapsed) == 0,
{
}

} // verus!
