//! The wall clock, in whole seconds since the Unix epoch, read so that it
//! never goes backwards.
use vstd::prelude::*;
use std::time::SystemTime;

verus! {

#[verifier::external_type_specification]
#[verifier::external_body]
pub struct ExSystemTime(std::time::SystemTime);

/// Relies on `SystemTime::now`: the current wall-clock time, about which
/// nothing is promised; it may even step backwards between calls.
pub assume_specification[ std::time::SystemTime::now ]() -> SystemTime;

/// Relies on `SystemTime::duration_since` (with `Duration::as_secs` to
/// convert): the whole seconds from the Unix epoch to `t`, or an error when
/// `t` lies before the epoch.
#[verifier::external_body]
fn since_epoch(t: SystemTime) -> (r: Result<u64, ()>) {
    match t.duration_since(std::time::UNIX_EPOCH) {
        Ok(d) => Ok(d.as_secs()),
        Err(_) => Err(()),
    }
}

/// A reading in seconds since the epoch, where a reading from before the
/// epoch counts as 0.
pub fn seconds_or_zero(reading: Result<u64, ()>) -> (r: u64)
    ensures
        r == match reading {
            Ok(s) => s,
            Err(_) => 0u64,
        },
{
    match reading {
        Ok(s) => s,
        Err(_) => 0,
    }
}

/// A clock that never goes backwards: it remembers the latest time it
/// reported and never reports an earlier one.
pub struct MonotonicClock {
    pub last: u64,
}

impl MonotonicClock {
    /// A clock that has reported nothing yet.
    pub fn new() -> (r: Self)
        ensures
            r.last == 0,
    {
        MonotonicClock { last: 0 }
    }

    /// The later of `reading` and every time reported before.
    pub fn read(&mut self, reading: u64) -> (r: u64)
        ensures
            r >= old(self).last,
            r >= reading,
            r == old(self).last || r == reading,
            final(self).last == r,
    {
        if reading > self.last {
            self.last = reading;
        }
        self.last
    }
}

/// Seconds since the Unix epoch from the system clock, through `clock`: a
/// later call never returns less than an earlier one on the same clock, and a
/// system clock before the epoch reads as 0.
pub fn now_seconds(clock: &mut MonotonicClock) -> (r: u64)
    ensures
        r >= old(clock).last,
        final(clock).last == r,
{
    let t = SystemTime::now();
    let s = seconds_or_zero(since_epoch(t));
    clock.read(s)
}

/// Any run of readings through one clock is non-decreasing: each result is
/// at least every result before it.
pub proof fn lemma_readings_never_decrease(c0: MonotonicClock, c1: MonotonicClock, c2: MonotonicClock, r1: u64, r2: u64)
    requires
        r1 >= c0.last,
        c1.last == r1,
        r2 >= c1.last,
        c2.last == r2,
    ensures
        r1 <= r2,
        c0.last <= c2.last,
{
}

} // verus!
