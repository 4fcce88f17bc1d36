//! Edge-triggered countdown/countup timer.
//!
//! A `Timer` tracks how much effective running time has passed since its
//! last `start`, as a fraction of a configurable duration. Time is injected
//! by the caller as a monotonic tick count; the timer never reads a clock.
//! Once the effective elapsed time exceeds the duration the timer fires,
//! and `get_event` reports that transition exactly once.

use vstd::prelude::*;
use crate::units::{VALUE_SCALE, TIME_MAX};

verus! {

/// Saturating subtraction on mathematical integers: the difference, or 0
/// when it would be negative.
pub open spec fn sat_sub(a: int, b: int) -> int {
    if a >= b {
        a - b
    } else {
        0
    }
}

/// Countdown/countup timer with pause bookkeeping and a one-shot event.
///
/// The run state is encoded by the pair `(fired, acked)`:
/// running `(false, false)`, paused `(false, true)`,
/// fired but not yet acknowledged `(true, false)`,
/// stopped `(true, true)` (also the state of a freshly built timer).
#[derive(Clone, Copy, PartialEq, Eq, Structural, Debug)]
pub struct Timer {
    /// Duration in ticks; progress reaches `VALUE_SCALE` when
    /// `elapsed == duration`.
    pub duration: u64,
    /// Instant recorded by the last `start`.
    pub started: u64,
    /// Accumulated paused time in ticks, subtracted from the wall clock.
    pub paused: u64,
    /// Effective running time at the last recomputation.
    pub elapsed: u64,
    /// True once the elapsed time has exceeded the duration, or after `stop`.
    pub fired: bool,
    /// True once the fired event has been consumed, or while paused/stopped.
    pub acked: bool,
}

impl Timer {
    /// Well-formedness: the duration is positive and every time field stays
    /// below `TIME_MAX`, so the fixed-point progress fits in `u64`.
    pub open spec fn wf(self) -> bool {
        &&& 1 <= self.duration <= TIME_MAX
        &&& self.started <= TIME_MAX
        &&& self.paused <= TIME_MAX
        &&& self.elapsed <= TIME_MAX
    }

    pub open spec fn running(self) -> bool {
        !self.fired && !self.acked
    }

    pub open spec fn paused_state(self) -> bool {
        !self.fired && self.acked
    }

    pub open spec fn stopped_state(self) -> bool {
        self.fired && self.acked
    }

    /// The timer has fired and nobody has consumed the event yet.
    pub open spec fn pending(self) -> bool {
        self.fired && !self.acked
    }

    /// The stored progress as a fixed-point fraction of `VALUE_SCALE`.
    pub open spec fn value_spec(self) -> int {
        self.elapsed * VALUE_SCALE / (self.duration as int)
    }

    /// Effective running time at instant `now`: wall time since `started`,
    /// less the accumulated paused time.
    pub open spec fn elapsed_at(self, now: u64) -> int {
        sat_sub(sat_sub(now as int, self.started as int), self.paused as int)
    }

    /// Paused time implied at instant `now` by the frozen `elapsed`: the
    /// whole wall-clock interval not accounted as running time.
    pub open spec fn pause_debt_at(self, now: u64) -> int {
        sat_sub(sat_sub(now as int, self.started as int), self.elapsed as int)
    }
}

/// A freshly built timer: stopped, with no progress.
pub open spec fn spec_new(duration: u64) -> Timer {
    Timer { duration, started: 0, paused: 0, elapsed: 0, fired: true, acked: true }
}

/// `start` at instant `now`: progress and flags reset, clock anchored.
pub open spec fn spec_started(t: Timer, now: u64) -> Timer {
    Timer { duration: t.duration, started: now, paused: 0, elapsed: 0, fired: false, acked: false }
}

/// `restore`: new duration, progress reset, run state and clock untouched.
pub open spec fn spec_restored(t: Timer, duration: u64) -> Timer {
    Timer { duration, elapsed: 0, ..t }
}

/// `update` at instant `now`. While running it recomputes the effective
/// elapsed time and fires once that exceeds the duration; while paused it
/// grows the accumulated pause so the elapsed time stays frozen; in the
/// other states it does nothing.
pub open spec fn spec_updated(t: Timer, now: u64) -> Timer {
    if t.running() {
        Timer { elapsed: t.elapsed_at(now) as u64, fired: t.elapsed_at(now) > t.duration, ..t }
    } else if t.paused_state() {
        Timer { paused: t.pause_debt_at(now) as u64, ..t }
    } else {
        t
    }
}

/// `get_event`: a pending event becomes acknowledged.
pub open spec fn spec_acked(t: Timer) -> Timer {
    Timer { acked: t.acked || t.fired, ..t }
}

/// `pause`: freeze progress; a no-op on a stopped timer.
pub open spec fn spec_paused(t: Timer) -> Timer {
    if t.stopped_state() {
        t
    } else {
        Timer { fired: false, acked: true, ..t }
    }
}

/// `pause_triggle`: toggle between the paused and running states.
pub open spec fn spec_toggled(t: Timer) -> Timer {
    Timer { fired: false, acked: !t.acked, ..t }
}

/// `stop`: jump to the stopped state, silencing further events.
pub open spec fn spec_stopped(t: Timer) -> Timer {
    Timer { fired: true, acked: true, ..t }
}

impl Timer {
    /// Build a stopped timer with the given duration.
    pub fn new(duration: u64) -> (t: Timer)
        requires
            1 <= duration <= TIME_MAX,
        ensures
            t == spec_new(duration),
            t.wf(),
    {
        Timer { duration, started: 0, paused: 0, elapsed: 0, fired: true, acked: true }
    }

    /// Progress as a fixed-point fraction of `VALUE_SCALE`; it exceeds
    /// `VALUE_SCALE` once more than a full duration has elapsed.
    pub fn get_value(&self) -> (v: u64)
        requires
            self.wf(),
        ensures
            v == self.value_spec(),
    {
        self.elapsed * VALUE_SCALE / self.duration
    }

    /// Consume the one-shot fired event: true on the first call after the
    /// timer fired, false on every other call.
    pub fn get_event(&mut self) -> (event: bool)
        ensures
            event == old(self).pending(),
            *final(self) == spec_acked(*old(self)),
    {
        if self.fired && !self.acked {
            self.acked = true;
            return true;
        }
        false
    }

    /// Freeze progress. Pausing a stopped timer is a no-op; pausing twice
    /// in a row changes nothing further.
    pub fn pause(&mut self)
        ensures
            *final(self) == spec_paused(*old(self)),
    {
        if !self.is_stopped() {
            self.fired = false;
            self.acked = true;
        }
    }

    /// Toggle between paused and running without touching the clock fields.
    pub fn pause_triggle(&mut self)
        ensures
            *final(self) == spec_toggled(*old(self)),
    {
        self.fired = false;
        self.acked = !self.acked;
    }

    pub fn is_paused(&self) -> (r: bool)
        ensures
            r == self.paused_state(),
    {
        !self.fired && self.acked
    }

    /// Force the stopped state: further events are silenced and progress is
    /// frozen until the next `start`.
    pub fn stop(&mut self)
        ensures
            *final(self) == spec_stopped(*old(self)),
    {
        self.fired = true;
        self.acked = true;
    }

    pub fn is_stopped(&self) -> (r: bool)
        ensures
            r == self.stopped_state(),
    {
        self.fired && self.acked
    }

    /// True while the timer is in the running state.
    pub fn on_start(&self) -> (r: bool)
        ensures
            r == self.running(),
    {
        !(self.acked || self.fired)
    }

    /// Reset progress and flags and anchor the clock at `now`.
    pub fn start(&mut self, now: u64)
        requires
            now <= TIME_MAX,
        ensures
            *final(self) == spec_started(*old(self), now),
            old(self).wf() ==> final(self).wf(),
    {
        self.elapsed = 0;
        self.fired = false;
        self.acked = false;
        self.started = now;
        self.paused = 0;
    }

    /// Re-arm with a new duration without restarting the clock: progress
    /// resets to 0 but the run state and the clock origin are untouched.
    pub fn restore(&mut self, duration: u64)
        requires
            1 <= duration <= TIME_MAX,
        ensures
            *final(self) == spec_restored(*old(self), duration),
            old(self).wf() ==> final(self).wf(),
    {
        self.elapsed = 0;
        self.duration = duration;
    }

    /// Advance the timer to instant `now`; see `spec_updated` for the exact
    /// effect in each run state.
    pub fn update(&mut self, now: u64)
        requires
            old(self).wf(),
            now <= TIME_MAX,
        ensures
            *final(self) == spec_updated(*old(self), now),
            final(self).wf(),
    {
        if self.on_start() {
            let since = if now >= self.started {
                now - self.started
            } else {
                0
            };
            let effective = if since >= self.paused {
                since - self.paused
            } else {
                0
            };
            self.elapsed = effective;
            self.fired = effective > self.duration;
            return;
        }
        if self.is_paused() {
            let since = if now >= self.started {
                now - self.started
            } else {
                0
            };
            let debt = if since >= self.elapsed {
                since - self.elapsed
            } else {
                0
            };
            self.paused = debt;
        }
    }
}

/// Law: a timer started at `t0` and updated halfway through its duration
/// reports progress `duration/2` scaled by `VALUE_SCALE` — exactly one half
/// for even durations — and has not fired, so no event is pending.
pub proof fn lemma_timer_halfway(d: u64, t0: u64)
    requires
        1 <= d <= TIME_MAX,
        t0 + d <= TIME_MAX,
    ensures
        ({
            let u = spec_updated(spec_started(spec_new(d), t0), (t0 + d / 2) as u64);
            &&& !u.fired
            &&& !u.pending()
            &&& u.value_spec() == (d / 2) * VALUE_SCALE / (d as int)
            &&& d % 2 == 0 ==> u.value_spec() * 2 == VALUE_SCALE
        }),
{
    let u = spec_updated(spec_started(spec_new(d), t0), (t0 + d / 2) as u64);
    vstd::arithmetic::div_mod::lemma_fundamental_div_mod(d as int, 2);
    if d % 2 == 0 {
        let k = d as int / 2;
        assert(d == 2 * k);
        vstd::arithmetic::div_mod::lemma_div_multiples_vanish(
            VALUE_SCALE as int / 2,
            d as int,
        );
        assert(k * VALUE_SCALE == d as int * (VALUE_SCALE as int / 2));
    }
}

/// Law: a timer updated past its duration fires, the event is consumed
/// exactly once, and neither later updates nor a second consumption raise
/// it again; only a new `start` re-arms the timer.
pub proof fn lemma_timer_fires_once(d: u64, t0: u64, now: u64, later: u64, t2: u64)
    requires
        1 <= d <= TIME_MAX,
        t0 + d < now <= TIME_MAX,
        later <= TIME_MAX,
        t2 <= TIME_MAX,
    ensures
        ({
            let u = spec_updated(spec_started(spec_new(d), t0), now);
            let v = spec_acked(u);
            &&& u.fired
            &&& u.pending()
            &&& !v.pending()
            &&& !spec_acked(v).pending()
            &&& !spec_updated(v, later).pending()
            &&& spec_started(v, t2).running()
            &&& !spec_started(v, t2).pending()
        }),
{
}

/// Law: `restore` changes the duration and resets the progress to 0 but
/// leaves the run state and the clock origin untouched, so an immediate
/// `update` on a running timer recomputes the progress of the elapsed-so-far
/// time against the new duration.
pub proof fn lemma_restore_keeps_run_state(t: Timer, d2: u64, now: u64)
    requires
        1 <= d2 <= TIME_MAX,
        now <= TIME_MAX,
    ensures
        ({
            let r = spec_restored(t, d2);
            &&& r.fired == t.fired && r.acked == t.acked
            &&& r.started == t.started && r.paused == t.paused
            &&& r.value_spec() == 0
            &&& t.running() ==> spec_updated(r, now).elapsed == t.elapsed_at(now)
            &&& t.running() ==> spec_updated(r, now).value_spec() == t.elapsed_at(now) * VALUE_SCALE
                / (d2 as int)
        }),
{
}

/// Law: `pause` is idempotent — pausing twice in a row without a resume
/// leaves the timer exactly as a single pause does.
pub proof fn lemma_pause_idempotent(t: Timer)
    ensures
        spec_paused(spec_paused(t)) == spec_paused(t),
{
}

/// Law: a pause/resume pair preserves the total running time. A timer
/// running since its last recomputation at `p`, paused, ticked once while
/// paused at `q` and resumed, reports at `now` exactly the running time it
/// had at `p` plus the time since `q`: the paused interval is not counted.
pub proof fn lemma_pause_resume_keeps_running_time(t: Timer, p: u64, q: u64, now: u64)
    requires
        t.wf(),
        t.running(),
        t.started + t.paused <= p,
        p <= q <= now,
        now <= TIME_MAX,
    ensures
        ({
            let at_p = spec_updated(t, p);
            let frozen = spec_paused(at_p);
            let ticked = spec_updated(frozen, q);
            let resumed = spec_toggled(ticked);
            spec_updated(resumed, now).elapsed == at_p.elapsed + (now - q)
        }),
{
}

} // verus!
