//! The countdown stopwatch engine.
//!
//! A [`Stopwatch`] owns a clock and three pieces of state: the instant the
//! current running interval began (absent when stopped), the time accumulated
//! from completed intervals, and the target duration it counts against. All
//! durations and instants are signed milliseconds.
//!
//! The abstract state is the ghost [`Model`]; every operation's contract ties
//! the concrete machine to a pure transition on the model, quantified over
//! the instant the clock handed out. With a deterministic clock such as
//! [`crate::clock::ManualClock`] the quantifier collapses and every result is
//! pinned exactly.

use vstd::math::abs;
use vstd::prelude::*;

use crate::clock::{fits_instant, Clock};
use crate::display::{format_mm_ss, spec_mm_ss};

verus! {

/// Largest magnitude, in milliseconds, the engine accepts for the target
/// duration and keeps safe for the accumulated time (2^61 ms).
pub const SPAN_MAX: i64 = 0x2000_0000_0000_0000;

/// Magnitude bound on the accumulated time, in milliseconds, under which one
/// more interval can be folded in without leaving the span (2^60 ms).
pub const ACC_MAX: i64 = 0x1000_0000_0000_0000;

/// A duration the engine can hold.
pub open spec fn fits_span(x: int) -> bool {
    -SPAN_MAX <= x <= SPAN_MAX
}

/// An accumulated duration small enough to absorb one more interval.
pub open spec fn fits_acc(x: int) -> bool {
    -ACC_MAX <= x <= ACC_MAX
}

/// Abstract state of a stopwatch: the instant the open running interval
/// began (`None` when stopped), the time accumulated from completed
/// intervals, and the target duration.
pub ghost struct Model {
    pub start: Option<int>,
    pub elapsed: int,
    pub total: int,
}

impl Model {
    /// A stopwatch is running exactly when an interval is open.
    pub open spec fn is_running(self) -> bool {
        self.start is Some
    }
}

/// The effective elapsed time at instant `now`: the accumulated time plus
/// the open interval's age, if one is open.
pub open spec fn effective_elapsed(m: Model, now: int) -> int {
    match m.start {
        Some(s) => m.elapsed + (now - s),
        None => m.elapsed,
    }
}

/// Starting at `now` opens an interval; on a running stopwatch it is a no-op.
pub open spec fn after_start(m: Model, now: int) -> Model {
    if m.is_running() {
        m
    } else {
        Model { start: Some(now), elapsed: m.elapsed, total: m.total }
    }
}

/// Stopping at `now` folds the open interval into the accumulator; on a
/// stopped stopwatch it is a no-op.
pub open spec fn after_stop(m: Model, now: int) -> Model {
    if m.is_running() {
        Model { start: None, elapsed: effective_elapsed(m, now), total: m.total }
    } else {
        m
    }
}

/// Toggling stops a running stopwatch and starts a stopped one.
pub open spec fn after_toggle(m: Model, now: int) -> Model {
    if m.is_running() {
        after_stop(m, now)
    } else {
        after_start(m, now)
    }
}

/// A lap at `now` clears the accumulator; a running stopwatch re-opens its
/// interval at `now`, a stopped one stays stopped.
pub open spec fn after_lap(m: Model, now: int) -> Model {
    Model {
        start: if m.is_running() {
            Some(now)
        } else {
            None
        },
        elapsed: 0,
        total: m.total,
    }
}

/// What a lap returns: the effective elapsed time just before the reset.
pub open spec fn lap_value(m: Model, now: int) -> int {
    effective_elapsed(m, now)
}

/// Time left until the target at instant `now`; negative on overrun.
pub open spec fn remaining_of(m: Model, now: int) -> int {
    m.total - effective_elapsed(m, now)
}

/// An exact fraction; the progress queries hand one out instead of a float.
pub ghost struct Frac {
    pub num: int,
    pub den: int,
}

/// `a <= b` as fractions with positive denominators.
pub open spec fn frac_le(a: Frac, b: Frac) -> bool {
    a.num * b.den <= b.num * a.den
}

/// The progress fraction at instant `now`, clamped to `[0, 1]`: `1` once the
/// effective elapsed time reaches the target (in particular whenever the
/// target is zero or negative), `0` while it is at most zero, and the linear
/// ratio in between.
pub open spec fn progress_of(m: Model, now: int) -> Frac {
    let e = effective_elapsed(m, now);
    if e >= m.total {
        Frac { num: 1, den: 1 }
    } else if e <= 0 {
        Frac { num: 0, den: 1 }
    } else {
        Frac { num: e, den: m.total }
    }
}

/// The remaining time at instant `now` rendered as `MM:SS` of its absolute
/// number of whole seconds.
pub open spec fn display_of(m: Model, now: int) -> Seq<char> {
    spec_mm_ss(abs(remaining_of(m, now)) / 1000)
}

/// The clamped progress fraction, as a pair of concrete integers with
/// `0 <= num <= den` and `den >= 1`.
#[derive(Clone, Copy, Debug, PartialEq, Eq, Structural)]
pub struct Progress {
    pub num: i64,
    pub den: i64,
}

/// A countdown stopwatch bound to the clock it was built with.
pub struct Stopwatch<C: Clock> {
    clock: C,
    start: Option<i64>,
    elapsed: i64,
    total: i64,
}

impl<C: Clock> View for Stopwatch<C> {
    type V = Model;

    closed spec fn view(&self) -> Model {
        Model {
            start: match self.start {
                Some(s) => Some(s as int),
                None => None,
            },
            elapsed: self.elapsed as int,
            total: self.total as int,
        }
    }
}

impl<C: Clock> Stopwatch<C> {
    /// The clock this stopwatch reads.
    pub closed spec fn spec_clock(&self) -> C {
        self.clock
    }

    /// Well-formedness: the clock is intact, the open interval (if any)
    /// began at a representable instant, and the accumulator and target are
    /// within the span the arithmetic stays safe on.
    pub open spec fn wf(&self) -> bool {
        &&& self.spec_clock().inv()
        &&& (self@.start matches Some(s) ==> fits_instant(s))
        &&& fits_span(self@.elapsed)
        &&& fits_span(self@.total)
    }

    /// A stopped stopwatch with no accumulated time and the given target
    /// duration, bound to `clock`.
    pub fn new(clock: C, total: i64) -> (sw: Self)
        requires
            clock.inv(),
            fits_span(total as int),
        ensures
            sw.wf(),
            sw.spec_clock() == clock,
            sw@ == (Model { start: None, elapsed: 0, total: total as int }),
    {
        Stopwatch { clock, start: None, elapsed: 0, total }
    }

    /// Whether an interval is currently open.
    pub fn running(&self) -> (b: bool)
        ensures
            b == self@.is_running(),
    {
        self.start.is_some()
    }

    /// Open an interval at the current instant; a no-op when already
    /// running.
    pub fn start(&mut self)
        requires
            old(self).wf(),
        ensures
            final(self).wf(),
            final(self).spec_clock() == old(self).spec_clock(),
            old(self)@.is_running() ==> final(self)@ == old(self)@,
            !old(self)@.is_running() ==> exists|t: int|
                #[trigger] old(self).spec_clock().reads(t) && fits_instant(t) && final(self)@
                    == after_start(old(self)@, t),
    {
        if self.start.is_none() {
            let t = self.clock.now();
            self.start = Some(t);
        }
    }

    /// Fold the open interval into the accumulator and close it; a no-op
    /// when already stopped.
    pub fn stop(&mut self)
        requires
            old(self).wf(),
            old(self)@.is_running() ==> fits_acc(old(self)@.elapsed),
        ensures
            final(self).wf(),
            final(self).spec_clock() == old(self).spec_clock(),
            !old(self)@.is_running() ==> final(self)@ == old(self)@,
            old(self)@.is_running() ==> exists|t: int|
                #[trigger] old(self).spec_clock().reads(t) && fits_instant(t) && final(self)@
                    == after_stop(old(self)@, t),
    {
        if let Some(s) = self.start {
            let t = self.clock.now();
            self.elapsed = self.elapsed + (t - s);
            self.start = None;
        }
    }

    /// Stop when running, start when stopped: exactly one of the two fires.
    pub fn toggle(&mut self)
        requires
            old(self).wf(),
            old(self)@.is_running() ==> fits_acc(old(self)@.elapsed),
        ensures
            final(self).wf(),
            final(self).spec_clock() == old(self).spec_clock(),
            exists|t: int|
                #[trigger] old(self).spec_clock().reads(t) && fits_instant(t) && final(self)@
                    == after_toggle(old(self)@, t),
    {
        if self.start.is_some() {
            self.stop();
        } else {
            self.start();
        }
    }

    /// Return the effective elapsed time and reset the accumulator to zero.
    /// A running stopwatch keeps running from the current instant; a stopped
    /// one stays stopped.
    pub fn lap(&mut self) -> (r: i64)
        requires
            old(self).wf(),
        ensures
            final(self).wf(),
            final(self).spec_clock() == old(self).spec_clock(),
            exists|t: int|
                #[trigger] old(self).spec_clock().reads(t) && fits_instant(t) && r as int
                    == lap_value(old(self)@, t) && final(self)@ == after_lap(old(self)@, t),
    {
        let t = self.clock.now();
        let r = match self.start {
            Some(s) => self.elapsed + (t - s),
            None => self.elapsed,
        };
        self.elapsed = 0;
        if self.start.is_some() {
            self.start = Some(t);
        }
        r
    }

    /// The effective elapsed time, recomputed from the clock on every call.
    pub fn elapsed(&self) -> (r: i64)
        requires
            self.wf(),
        ensures
            exists|t: int|
                #[trigger] self.spec_clock().reads(t) && fits_instant(t) && r as int
                    == effective_elapsed(self@, t),
    {
        let t = self.clock.now();
        match self.start {
            Some(s) => self.elapsed + (t - s),
            None => self.elapsed,
        }
    }

    /// Time left until the target; negative once the target is overrun,
    /// never clamped.
    pub fn remaining(&self) -> (r: i64)
        requires
            self.wf(),
        ensures
            exists|t: int|
                #[trigger] self.spec_clock().reads(t) && fits_instant(t) && r as int
                    == remaining_of(self@, t),
    {
        let t = self.clock.now();
        let e = match self.start {
            Some(s) => self.elapsed + (t - s),
            None => self.elapsed,
        };
        self.total - e
    }

    /// The progress fraction, clamped to `[0, 1]`.
    pub fn progress(&self) -> (p: Progress)
        requires
            self.wf(),
        ensures
            1 <= p.den,
            0 <= p.num <= p.den,
            exists|t: int|
                #[trigger] self.spec_clock().reads(t) && fits_instant(t) && p.num as int
                    == progress_of(self@, t).num && p.den as int == progress_of(self@, t).den,
    {
        let t = self.clock.now();
        let e = match self.start {
            Some(s) => self.elapsed + (t - s),
            None => self.elapsed,
        };
        if e >= self.total {
            Progress { num: 1, den: 1 }
        } else if e <= 0 {
            Progress { num: 0, den: 1 }
        } else {
            Progress { num: e, den: self.total }
        }
    }

    /// Add `delta` (signed) to the target duration.
    pub fn add_time(&mut self, delta: i64)
        requires
            old(self).wf(),
            fits_span(old(self)@.total + delta as int),
        ensures
            final(self).wf(),
            final(self).spec_clock() == old(self).spec_clock(),
            final(self)@ == (Model {
                start: old(self)@.start,
                elapsed: old(self)@.elapsed,
                total: old(self)@.total + delta as int,
            }),
    {
        self.total = self.total + delta;
    }

    /// The target duration, in milliseconds.
    pub fn total_millis(&self) -> (t: i64)
        ensures
            t as int == self@.total,
    {
        self.total
    }

    /// The time accumulated from completed intervals alone, in milliseconds,
    /// not counting the open interval. This is the quantity `stop` and
    /// `toggle` bound in their preconditions.
    pub fn accumulated_millis(&self) -> (r: i64)
        ensures
            r as int == self@.elapsed,
    {
        self.elapsed
    }

    /// The remaining time rendered as `MM:SS` of its absolute number of
    /// whole seconds; the minutes field widens past two digits as needed.
    pub fn display(&self) -> (s: String)
        requires
            self.wf(),
        ensures
            exists|t: int|
                #[trigger] self.spec_clock().reads(t) && fits_instant(t) && s@
                    == display_of(self@, t),
    {
        let t = self.clock.now();
        let e = match self.start {
            Some(s) => self.elapsed + (t - s),
            None => self.elapsed,
        };
        let rem = self.total - e;
        let rem_abs: i64 = if rem < 0 {
            -rem
        } else {
            rem
        };
        let sec: u64 = (rem_abs / 1000) as u64;
        let out = format_mm_ss(sec);
        proof {
            assert(rem_abs as int == abs(remaining_of(self@, t as int)));
            assert(sec as nat == abs(remaining_of(self@, t as int)) / 1000);
        }
        out
    }

    /// Borrow the clock this stopwatch reads.
    pub fn clock(&self) -> (c: &C)
        ensures
            *c == self.spec_clock(),
    {
        &self.clock
    }

    /// Borrow the clock mutably, for sources that are advanced by hand. The
    /// timing state is untouched; the stopwatch ends up bound to whatever
    /// the caller leaves in the borrow.
    pub fn clock_mut(&mut self) -> (c: &mut C)
        ensures
            *c == old(self).spec_clock(),
            final(self)@ == old(self)@,
            final(self).spec_clock() == *final(c),
    {
        &mut self.clock
    }
}

/// Law: while a stopwatch with a positive target runs, its progress
/// fraction never decreases as the instant advances.
pub proof fn lemma_progress_monotone_running(m: Model, t1: int, t2: int)
    requires
        m.is_running(),
        m.total > 0,
        t1 <= t2,
    ensures
        frac_le(progress_of(m, t1), progress_of(m, t2)),
{
    let e1 = effective_elapsed(m, t1);
    let e2 = effective_elapsed(m, t2);
    assert(e1 <= e2);
    if e1 >= m.total {
        assert(e2 >= m.total);
    } else if e1 <= 0 {
        if 0 < e2 < m.total {
            assert(0 * m.total <= e2 * 1) by (nonlinear_arith)
                requires
                    0 < e2,
            ;
        }
    } else {
        if e2 >= m.total {
            assert(e1 * 1 <= 1 * m.total) by (nonlinear_arith)
                requires
                    e1 < m.total,
            ;
        } else {
            assert(e1 * m.total <= e2 * m.total) by (nonlinear_arith)
                requires
                    e1 <= e2,
                    m.total > 0,
            ;
        }
    }
}

/// Law: while a stopwatch is stopped, its progress fraction does not depend
/// on the instant at all.
pub proof fn lemma_progress_constant_stopped(m: Model, t1: int, t2: int)
    requires
        !m.is_running(),
    ensures
        progress_of(m, t1) == progress_of(m, t2),
{
}

/// Law: the progress fraction is clamped to `[0, 1]` at every instant,
/// however far the effective elapsed time overruns the target or falls
/// below zero.
pub proof fn lemma_progress_clamped(m: Model, t: int)
    ensures
        1 <= progress_of(m, t).den,
        0 <= progress_of(m, t).num <= progress_of(m, t).den,
{
}

/// Law: the remaining time is not clamped; as soon as the effective elapsed
/// time exceeds the target, it is negative.
pub proof fn lemma_remaining_unclamped(m: Model, t: int)
    ensures
        remaining_of(m, t) == m.total - effective_elapsed(m, t),
        effective_elapsed(m, t) > m.total ==> remaining_of(m, t) < 0,
{
}

/// Law: toggling twice at one instant is the identity on what can be
/// observed: the running state is unchanged, and the effective elapsed time
/// at every later instant counts exactly the time genuinely spent running.
pub proof fn lemma_toggle_twice(m: Model, t: int, u: int)
    ensures
        after_toggle(after_toggle(m, t), t).is_running() == m.is_running(),
        effective_elapsed(after_toggle(after_toggle(m, t), t), u) == effective_elapsed(m, u),
        after_toggle(after_toggle(m, t), t).total == m.total,
{
}

/// Law: a toggle on a stopped stopwatch at instant `t1`, followed by a
/// toggle at a later instant `t2`, leaves it stopped and grows the
/// accumulator by exactly `t2 - t1`: the time genuinely spent running.
pub proof fn lemma_toggle_accumulates_running_time(m: Model, t1: int, t2: int)
    requires
        !m.is_running(),
        t1 <= t2,
    ensures
        after_toggle(after_toggle(m, t1), t2) == (Model {
            start: None,
            elapsed: m.elapsed + (t2 - t1),
            total: m.total,
        }),
{
}

/// Law: a lap resets the accumulator to zero and preserves the running
/// state and the target; it returns the effective elapsed time as it stood
/// just before the reset. A lap on a stopped stopwatch returns the stopped
/// accumulator and leaves the stopwatch stopped with nothing accumulated.
pub proof fn lemma_lap(m: Model, t: int)
    ensures
        lap_value(m, t) == effective_elapsed(m, t),
        after_lap(m, t).elapsed == 0,
        after_lap(m, t).is_running() == m.is_running(),
        after_lap(m, t).total == m.total,
        !m.is_running() ==> lap_value(m, t) == m.elapsed && after_lap(m, t) == (Model {
            start: None,
            elapsed: 0,
            total: m.total,
        }),
{
}

} // verus!
