//! Clocks: the capability the stopwatch engine reads the current instant from.
//!
//! An instant is a signed number of milliseconds. The [`Clock`] trait leaves
//! open which instants a read may return; each implementation pins this down
//! with its `reads` predicate. [`ManualClock`] is fully deterministic: a read
//! returns exactly the stored instant, and time passes only through
//! [`ManualClock::advance`]. [`UtcClock`] reads the wall clock; nothing can be
//! promised about the value it returns beyond the range the implementation
//! clamps it into.

use vstd::prelude::*;

verus! {

/// Largest magnitude, in milliseconds, an instant handed out by a clock may
/// have. This is 2^53 ms (roughly 285,000 years away from the epoch), which
/// comfortably contains the full range of representable calendar dates.
pub const INSTANT_MAX: i64 = 0x20_0000_0000_0000;

/// An instant a clock may legally return.
pub open spec fn fits_instant(t: int) -> bool {
    -INSTANT_MAX <= t <= INSTANT_MAX
}

/// A source of the current instant, in milliseconds.
///
/// `reads` describes the set of instants a call of `now` may return for a
/// clock in state `self`; `inv` is whatever well-formedness the
/// implementation maintains. A deterministic clock makes `reads` a singleton,
/// which lets callers recover exact results from the stopwatch contracts.
pub trait Clock: Sized {
    /// Well-formedness of this clock's state.
    spec fn inv(&self) -> bool;

    /// Which instants a read of this clock may return.
    spec fn reads(&self, t: int) -> bool;

    /// The current instant in milliseconds.
    fn now(&self) -> (t: i64)
        requires
            self.inv(),
        ensures
            self.reads(t as int),
            fits_instant(t as int),
    ;
}

/// The wall clock, in UTC.
pub struct UtcClock;

impl UtcClock {
    /// A fresh handle on the wall clock.
    pub fn new() -> (c: Self)
        ensures
            c.inv(),
    {
        UtcClock
    }
}

/// Relies on `std::time::SystemTime::now` for the current wall-clock time,
/// and on `SystemTime::duration_since(UNIX_EPOCH)` to turn it into a
/// distance from the Unix epoch: the flag says whether the clock stands
/// before the epoch (the `Err` direction), the number is the distance's
/// whole milliseconds. Both directions are handled, so the body cannot
/// panic. The value depends on the machine's clock, so nothing is promised
/// of it; the verified caller clamps it into range.
#[verifier::external_body]
fn sys_now_unix_millis() -> (r: (bool, u128)) {
    match std::time::SystemTime::now().duration_since(std::time::UNIX_EPOCH) {
        Ok(d) => (false, d.as_millis()),
        Err(e) => (true, e.duration().as_millis()),
    }
}

impl Clock for UtcClock {
    open spec fn inv(&self) -> bool {
        true
    }

    /// The wall clock may return any representable instant.
    open spec fn reads(&self, t: int) -> bool {
        fits_instant(t)
    }

    /// The wall clock's signed distance from the Unix epoch in milliseconds.
    /// A clock standing absurdly far from the epoch (beyond ±2^53 ms, about
    /// 285,000 years) is clamped to the range bound.
    fn now(&self) -> (t: i64) {
        let (before_epoch, ms) = sys_now_unix_millis();
        let magnitude: i64 = if ms > INSTANT_MAX as u128 {
            INSTANT_MAX
        } else {
            ms as i64
        };
        if before_epoch {
            -magnitude
        } else {
            magnitude
        }
    }
}

/// A deterministic clock that only advances when told to: the test source.
pub struct ManualClock {
    t: i64,
}

impl View for ManualClock {
    type V = int;

    closed spec fn view(&self) -> int {
        self.t as int
    }
}

impl ManualClock {
    /// A clock stopped at the given instant, in milliseconds.
    pub fn new(t: i64) -> (c: Self)
        requires
            fits_instant(t as int),
        ensures
            c@ == t as int,
            c.inv(),
    {
        ManualClock { t }
    }

    /// Move this clock by `delta` milliseconds (negative deltas move it back).
    pub fn advance(&mut self, delta: i64)
        requires
            old(self).inv(),
            fits_instant(old(self)@ + delta as int),
        ensures
            final(self)@ == old(self)@ + delta as int,
            final(self).inv(),
    {
        self.t = self.t + delta;
    }
}

impl Clock for ManualClock {
    open spec fn inv(&self) -> bool {
        fits_instant(self@)
    }

    /// A read returns exactly the stored instant.
    open spec fn reads(&self, t: int) -> bool {
        t == self@
    }

    fn now(&self) -> (t: i64) {
        self.t
    }
}

} // verus!
