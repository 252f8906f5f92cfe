//! Timer primitives for a platform with a free-running microsecond counter:
//! reading the counter, busy-waiting for a duration, and a scheduler that
//! multiplexes one hardware compare channel across many delayed callbacks.
//!
//! The hardware itself (memory-mapped counter and compare registers, the
//! interrupt line) lives outside this crate; the platform shim reads the
//! registers and drives the types in this crate with plain values.

use vstd::prelude::*;

pub mod schedule;

verus! {

/// A software image of the hardware free-running microsecond counter.
///
/// The real counter only ever grows; this model preserves that: the value can
/// be advanced, never turned back. A hosted harness drives it directly; on
/// real hardware the platform shim reads the counter registers instead and
/// works with the plain `u64` values.
pub struct Counter {
    value: u64,
}

impl Counter {
    /// The counter reading, in microseconds.
    pub closed spec fn micros(self) -> u64 {
        self.value
    }

    /// A counter that starts at the given reading.
    pub fn new(start: u64) -> (c: Counter)
        ensures
            c.micros() == start,
    {
        Counter { value: start }
    }

    /// Let the given number of microseconds elapse.
    pub fn advance(&mut self, elapsed: u64)
        requires
            old(self).micros() + elapsed <= u64::MAX,
        ensures
            final(self).micros() == old(self).micros() + elapsed,
            final(self).micros() >= old(self).micros(),
    {
        self.value = self.value + elapsed;
    }
}

/// Current time as the value of the free-running counter, in microseconds.
pub fn now(counter: &Counter) -> (t: u64)
    ensures
        t == counter.micros(),
{
    counter.value
}

/// The 64-bit counter reading assembled from its two 32-bit register halves.
pub fn counter_micros(low: u32, high: u32) -> (t: u64)
    ensures
        t == (high as int) * 0x1_0000_0000 + (low as int),
{
    let t = ((high as u64) << 32u64) | (low as u64);
    proof {
        assert(((high as u64) << 32u64) | (low as u64) == (high as u64) * 0x1_0000_0000
            + (low as u64)) by (bit_vector);
    }
    t
}

/// Whether a due time has been reached at the given counter reading.
/// A due time of `0` is the sentinel for "always due".
pub fn is_due(now: u64, time: u64) -> (r: bool)
    ensures
        r == (time == 0 || now >= time),
{
    if time == 0 {
        true
    } else {
        now >= time
    }
}

/// Busy-wait until the counter has advanced by `duration` microseconds.
///
/// Returns no earlier than the reading at the call plus `duration`; a zero
/// duration returns at once. The counter never moves backwards.
pub fn sleep(counter: &mut Counter, duration: u64)
    requires
        old(counter).micros() + duration <= u64::MAX,
    ensures
        final(counter).micros() == old(counter).micros() + duration,
        final(counter).micros() >= old(counter).micros(),
{
    let start = now(counter);
    let wait_until = start + duration;
    while !is_due(now(counter), wait_until)
        invariant
            start <= counter.micros() <= wait_until,
            wait_until == start + duration,
        decreases wait_until - counter.micros(),
    {
        counter.advance(1);
    }
}

} // verus!
