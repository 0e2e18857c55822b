//! A stopwatch over the monotonic clock: each tick gives the time since the
//! tick before. The watch reads the clock as the time since it was made,
//! so that what it holds and what it gives are plain spans of time.

use vstd::prelude::*;
use std::time::{Duration, Instant};
use crate::player::TICK_MAX;

verus! {

/// A moment of the monotonic clock; nothing of it is visible to proofs.
#[verifier::external_type_specification]
#[verifier::external_body]
pub struct ExInstant(std::time::Instant);

/// The moment at which the watch was made, and how long after it the
/// next tick is measured from.
pub struct Stopwatch {
    anchor: Instant,
    start: Elapsed,
}

/// A span of time: whole seconds and the nanoseconds beyond them.
#[derive(Clone, Copy, Debug, PartialEq, Eq, Structural)]
pub struct Elapsed {
    pub secs: u64,
    pub nanos: u32,
}

/// Reads the monotonic clock, by `Instant::now`. Nothing is claimed of the
/// moment that comes back.
#[verifier::external_body]
fn clock_now() -> (now: Instant) {
    Instant::now()
}

/// The time that has passed since `anchor`, by `Instant::elapsed`. Nothing
/// is claimed of the span.
#[verifier::external_body]
fn time_since(anchor: &Instant) -> (span: Duration) {
    anchor.elapsed()
}

/// The whole seconds of a span, by `Duration::as_secs`.
#[verifier::external_body]
fn whole_seconds(span: &Duration) -> (secs: u64) {
    span.as_secs()
}

/// The part of a span beyond its whole seconds, by `Duration::subsec_nanos`:
/// in nanoseconds, always less than one second.
#[verifier::external_body]
fn beyond_seconds(span: &Duration) -> (nanos: u32)
    ensures
        nanos < 1_000_000_000,
{
    span.subsec_nanos()
}

impl Elapsed {
    /// The nanoseconds are less than one second.
    pub open spec fn wf(self) -> bool {
        self.nanos < 1_000_000_000
    }

    /// The span in nanoseconds.
    pub open spec fn total_nanos(self) -> int {
        self.secs * 1_000_000_000 + self.nanos
    }

    /// The span with the given number of nanoseconds.
    pub open spec fn of_nanos(nanos: int) -> Elapsed {
        Elapsed { secs: (nanos / 1_000_000_000) as u64, nanos: (nanos % 1_000_000_000) as u32 }
    }

    /// The time from the end of `earlier` to the end of `self`, both
    /// counted from one moment; nothing where `earlier` is the longer.
    pub open spec fn span_since(self, earlier: Elapsed) -> Elapsed {
        if self.total_nanos() >= earlier.total_nanos() {
            Elapsed::of_nanos(self.total_nanos() - earlier.total_nanos())
        } else {
            Elapsed::of_nanos(0)
        }
    }

    /// The time from the end of `earlier` to the end of `self`, see
    /// `span_since`.
    pub fn since(&self, earlier: &Elapsed) -> (span: Elapsed)
        requires
            self.wf(),
        ensures
            span == self.span_since(*earlier),
            span.wf(),
            span.total_nanos() == (if self.total_nanos() >= earlier.total_nanos() {
                self.total_nanos() - earlier.total_nanos()
            } else {
                0
            }),
    {
        let later: u128 = (self.secs as u128) * 1_000_000_000 + (self.nanos as u128);
        let first: u128 = (earlier.secs as u128) * 1_000_000_000 + (earlier.nanos as u128);
        let gap: u128 = if later >= first { later - first } else { 0 };
        let secs: u128 = gap / 1_000_000_000;
        let nanos: u128 = gap % 1_000_000_000;
        assert(secs <= self.secs);
        Elapsed { secs: secs as u64, nanos: nanos as u32 }
    }

    /// The whole ticks of a thousandth of a second in the span.
    pub open spec fn whole_ticks(self) -> int {
        self.secs * 1000 + self.nanos / 1_000_000
    }

    /// The span in whole ticks of a thousandth of a second, but no more
    /// than the longest step in time.
    pub open spec fn ticks_spec(self) -> int {
        if self.whole_ticks() > TICK_MAX {
            TICK_MAX as int
        } else {
            self.whole_ticks()
        }
    }

    /// Where a watch that started at `self` starts after a lap to the
    /// reading `now` that is handed out in whole ticks: later by those
    /// ticks, so that the rest of the lap counts towards the next; at `now`
    /// where the lap was longer than the longest step in time; and where it
    /// was, where the lap held no whole tick.
    pub open spec fn after_ticks_to(self, now: Elapsed) -> Elapsed {
        let span = now.span_since(self);
        if span.ticks_spec() == 0 {
            self
        } else if span.whole_ticks() > TICK_MAX {
            now
        } else {
            Elapsed::of_nanos(self.total_nanos() + span.ticks_spec() * 1_000_000)
        }
    }

    /// The span in whole ticks, see `ticks_spec`. Any span is taken: one of
    /// more than a thousand seconds counts as a thousand seconds, the
    /// longest step in time.
    pub fn ticks(&self) -> (t: i64)
        ensures
            t == self.ticks_spec(),
            0 <= t <= TICK_MAX,
    {
        if self.secs >= 1000 {
            TICK_MAX
        } else {
            let whole: u64 = self.secs * 1000 + (self.nanos / 1_000_000) as u64;
            if whole > 1_000_000 {
                TICK_MAX
            } else {
                whole as i64
            }
        }
    }
}

/// The watch that started at `start` read the clock as `now`, handed out
/// `ticks`, and starts at `next` from then on.
pub open spec fn ticked(start: Elapsed, now: Elapsed, ticks: i64, next: Elapsed) -> bool {
    &&& now.wf()
    &&& ticks == now.span_since(start).ticks_spec()
    &&& next == start.after_ticks_to(now)
}

impl Stopwatch {
    /// How long after the watch was made the next tick is measured from.
    pub closed spec fn started(self) -> Elapsed {
        self.start
    }

    /// The moment at which the watch was made.
    pub closed spec fn anchor(self) -> Instant {
        self.anchor
    }

    /// A stopwatch made now: the first tick is measured from its making.
    pub fn new() -> (watch: Stopwatch)
        ensures
            watch.started() == (Elapsed { secs: 0, nanos: 0 }),
    {
        Stopwatch { anchor: clock_now(), start: Elapsed { secs: 0, nanos: 0 } }
    }

    /// The time since the stopwatch was made or last ticked; the next tick
    /// measures from now. The clock is read as the time since the watch
    /// was made, and that reading is where the watch starts from then on.
    pub fn tick(&mut self) -> (span: Elapsed)
        ensures
            span.wf(),
            span == final(self).started().span_since(old(self).started()),
            final(self).started().wf(),
            final(self).anchor() == old(self).anchor(),
    {
        let passed = time_since(&self.anchor);
        let now = Elapsed { secs: whole_seconds(&passed), nanos: beyond_seconds(&passed) };
        self.lap(now)
    }

    /// Ends a lap at the reading `now`, which is the time since the watch
    /// was made: gives the time since the lap began, and begins the next
    /// lap at `now`. A reading before the beginning of the lap gives
    /// nothing.
    pub fn lap(&mut self, now: Elapsed) -> (span: Elapsed)
        requires
            now.wf(),
        ensures
            span == now.span_since(old(self).started()),
            span.wf(),
            final(self).started() == now,
            final(self).anchor() == old(self).anchor(),
    {
        let span = now.since(&self.start);
        self.start = now;
        span
    }

    /// The time since the stopwatch was made or last ticked, in whole
    /// ticks, see `lap_in_ticks`: for some reading of the clock they are
    /// the whole ticks of the lap to that reading, and the watch starts
    /// from then on as `after_ticks_to` says.
    pub fn tick_in_ticks(&mut self) -> (ticks: i64)
        ensures
            0 <= ticks <= TICK_MAX,
            exists|now: Elapsed| #[trigger]
                ticked(old(self).started(), now, ticks, final(self).started()),
            final(self).anchor() == old(self).anchor(),
    {
        let passed = time_since(&self.anchor);
        let now = Elapsed { secs: whole_seconds(&passed), nanos: beyond_seconds(&passed) };
        let ghost start = self.start;
        let ticks = self.lap_in_ticks(now);
        assert(ticked(start, now, ticks, self.started()));
        ticks
    }

    /// Ends a lap at the reading `now` and gives its length in whole ticks
    /// of a thousandth of a second. The next lap begins where those ticks
    /// end, not at `now`: what the lap had beyond its whole ticks counts
    /// towards the next, so that laps of less than a tick add up. A lap of
    /// more than a thousand seconds counts as a thousand seconds, and the
    /// next lap begins at `now`.
    pub fn lap_in_ticks(&mut self, now: Elapsed) -> (ticks: i64)
        requires
            now.wf(),
        ensures
            ticks == now.span_since(old(self).started()).ticks_spec(),
            0 <= ticks <= TICK_MAX,
            final(self).started() == old(self).started().after_ticks_to(now),
            final(self).anchor() == old(self).anchor(),
    {
        let span = now.since(&self.start);
        let ticks = span.ticks();
        if ticks == 0 {
            return 0;
        }
        let cut = span.secs > 1000 || span.secs * 1000 + (span.nanos / 1_000_000) as u64
            > 1_000_000;
        if cut {
            self.start = now;
        } else {
            let from: u128 = (self.start.secs as u128) * 1_000_000_000 + (self.start.nanos as u128);
            let to: u128 = from + (ticks as u128) * 1_000_000;
            assert(to <= now.total_nanos());
            let secs: u128 = to / 1_000_000_000;
            let nanos: u128 = to % 1_000_000_000;
            assert(secs <= now.secs);
            self.start = Elapsed { secs: secs as u64, nanos: nanos as u32 };
        }
        ticks
    }
}

} // verus!
