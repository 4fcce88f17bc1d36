//! Progress bars: a plain bar showing a fixed-point value in
//! `[0, VALUE_SCALE]`, and a bar driven by an owned `Timer`.
//!
//! Geometry is kept on the integer grid; the caller renders the two
//! rectangles (`rim_rect` and `value_rect`) itself.

use vstd::prelude::*;
use crate::units::{VALUE_SCALE, TIME_MAX, BAR_GEOM_LIMIT};
use crate::timer::Timer;
use crate::timer::spec_acked;
use crate::timer::spec_paused;
use crate::timer::spec_restored;
use crate::timer::spec_started;
use crate::timer::spec_updated;

verus! {

#[derive(Clone, Copy, PartialEq, Eq, Structural, Debug)]
pub enum BarDirection {
    Vertical,
    Horizontal,
}

/// Axis-aligned rectangle on the integer coordinate grid.
#[derive(Clone, Copy, PartialEq, Eq, Structural, Debug)]
pub struct Rect {
    pub x: i64,
    pub y: i64,
    pub w: i64,
    pub h: i64,
}

/// An RGBA color with 8-bit channels.
#[derive(Clone, Copy, PartialEq, Eq, Structural, Debug)]
pub struct Color {
    pub r: u8,
    pub g: u8,
    pub b: u8,
    pub a: u8,
}

/// `a` scaled by the fraction `v / VALUE_SCALE`, rounding toward zero.
pub open spec fn scaled_frac(a: int, v: int) -> int {
    if a >= 0 {
        a * v / (VALUE_SCALE as int)
    } else {
        -((-a) * v / (VALUE_SCALE as int))
    }
}

/// Scale `a` by the fraction `v / VALUE_SCALE`, rounding toward zero.
fn mul_frac(a: i64, v: u64) -> (r: i64)
    requires
        -2 * BAR_GEOM_LIMIT <= a <= 2 * BAR_GEOM_LIMIT,
        v <= VALUE_SCALE,
    ensures
        r == scaled_frac(a as int, v as int),
        -2 * BAR_GEOM_LIMIT <= r <= 2 * BAR_GEOM_LIMIT,
{
    if a >= 0 {
        let au = a as u64;
        proof {
            vstd::arithmetic::mul::lemma_mul_upper_bound(
                au as int,
                2 * BAR_GEOM_LIMIT as int,
                v as int,
                VALUE_SCALE as int,
            );
            vstd::arithmetic::mul::lemma_mul_inequality(v as int, VALUE_SCALE as int, au as int);
            vstd::arithmetic::div_mod::lemma_div_is_ordered(
                au as int * v as int,
                au as int * VALUE_SCALE as int,
                VALUE_SCALE as int,
            );
            vstd::arithmetic::div_mod::lemma_div_multiples_vanish(au as int, VALUE_SCALE as int);
        }
        (au * v / VALUE_SCALE) as i64
    } else {
        let nu = (-a) as u64;
        proof {
            vstd::arithmetic::mul::lemma_mul_upper_bound(
                nu as int,
                2 * BAR_GEOM_LIMIT as int,
                v as int,
                VALUE_SCALE as int,
            );
            vstd::arithmetic::mul::lemma_mul_inequality(v as int, VALUE_SCALE as int, nu as int);
            vstd::arithmetic::div_mod::lemma_div_is_ordered(
                nu as int * v as int,
                nu as int * VALUE_SCALE as int,
                VALUE_SCALE as int,
            );
            vstd::arithmetic::div_mod::lemma_div_multiples_vanish(nu as int, VALUE_SCALE as int);
        }
        -((nu * v / VALUE_SCALE) as i64)
    }
}

/// A value in `[0, VALUE_SCALE]` shown as a filled fraction of a rim
/// rectangle, horizontally or vertically.
#[derive(Clone, Copy, PartialEq, Eq, Structural, Debug)]
pub struct Bar {
    /// Outline of the whole bar.
    pub rim_rect: Rect,
    /// Filled part, derived from `rim_rect`, `value` and `direction`.
    pub value_rect: Rect,
    /// Displayed value, a fixed-point fraction of `VALUE_SCALE`.
    pub value: u64,
    /// Fill color of the value rectangle.
    pub color: Color,
    pub direction: BarDirection,
}

/// The filled rectangle recomputed from the rim, the value and the
/// direction. A vertical bar fills from the bottom up; only the filled
/// part's sizes and its vertical offset are recomputed — its horizontal
/// offset keeps whatever value it had.
pub open spec fn spec_graphic(b: Bar) -> Bar {
    match b.direction {
        BarDirection::Horizontal => Bar {
            value_rect: Rect {
                x: b.value_rect.x,
                y: b.value_rect.y,
                w: scaled_frac(b.rim_rect.w - 1, b.value as int) as i64,
                h: (b.rim_rect.h - 2) as i64,
            },
            ..b
        },
        BarDirection::Vertical => Bar {
            value_rect: Rect {
                x: b.value_rect.x,
                y: (b.rim_rect.y + 1 + scaled_frac(
                    b.rim_rect.h - 2,
                    VALUE_SCALE - b.value,
                )) as i64,
                w: (b.rim_rect.w - 2) as i64,
                h: scaled_frac(b.rim_rect.h - 2, b.value as int) as i64,
            },
            ..b
        },
    }
}

/// `set_value`: values above `VALUE_SCALE` are silently ignored — an exact
/// no-op, neither clamped nor reported.
pub open spec fn spec_set_value(b: Bar, v: u64) -> Bar {
    if v <= VALUE_SCALE {
        spec_graphic(Bar { value: v, ..b })
    } else {
        b
    }
}

/// `set_size`: the given length runs along the bar's direction.
pub open spec fn spec_set_size(b: Bar, length: i64, width: i64) -> Bar {
    let rim = if b.direction == BarDirection::Horizontal {
        Rect { w: length, h: width, ..b.rim_rect }
    } else {
        Rect { w: width, h: length, ..b.rim_rect }
    };
    spec_graphic(Bar { rim_rect: rim, ..b })
}

/// `restore`: full value, new position and size.
pub open spec fn spec_bar_restored(b: Bar, x: i64, y: i64, length: i64, width: i64) -> Bar {
    spec_set_size(
        Bar { value: VALUE_SCALE, rim_rect: Rect { x, y, ..b.rim_rect }, ..b },
        length,
        width,
    )
}

/// `set_direction`: changing the direction swaps the rim's sides.
pub open spec fn spec_set_direction(b: Bar, direction: BarDirection) -> Bar {
    if b.direction == direction {
        b
    } else {
        spec_graphic(
            Bar {
                rim_rect: Rect { w: b.rim_rect.h, h: b.rim_rect.w, ..b.rim_rect },
                direction,
                ..b
            },
        )
    }
}

/// A freshly built bar: horizontal, shown full, with a green fill.
pub open spec fn spec_bar_new(x: i64, y: i64, length: i64, width: i64) -> Bar {
    Bar {
        rim_rect: Rect { x, y, w: length, h: width },
        value_rect: Rect {
            x: (x + 1) as i64,
            y: (y + 1) as i64,
            w: (length - 2) as i64,
            h: (width - 2) as i64,
        },
        value: VALUE_SCALE,
        color: Color { r: 0, g: 255, b: 0, a: 255 },
        direction: BarDirection::Horizontal,
    }
}

impl Bar {
    /// Well-formedness: the rim stays inside the geometry bound and the
    /// value is a valid fraction.
    pub open spec fn wf(self) -> bool {
        &&& -BAR_GEOM_LIMIT <= self.rim_rect.x <= BAR_GEOM_LIMIT
        &&& -BAR_GEOM_LIMIT <= self.rim_rect.y <= BAR_GEOM_LIMIT
        &&& 0 <= self.rim_rect.w <= BAR_GEOM_LIMIT
        &&& 0 <= self.rim_rect.h <= BAR_GEOM_LIMIT
        &&& self.value <= VALUE_SCALE
    }

    /// Recompute the filled rectangle from the rim, value and direction.
    fn update_graphic(&mut self)
        requires
            old(self).wf(),
        ensures
            *final(self) == spec_graphic(*old(self)),
            final(self).wf(),
    {
        match self.direction {
            BarDirection::Horizontal => {
                self.value_rect.w = mul_frac(self.rim_rect.w - 1, self.value);
                self.value_rect.h = self.rim_rect.h - 2;
            },
            BarDirection::Vertical => {
                self.value_rect.h = mul_frac(self.rim_rect.h - 2, self.value);
                self.value_rect.y = self.rim_rect.y + 1 + mul_frac(
                    self.rim_rect.h - 2,
                    VALUE_SCALE - self.value,
                );
                self.value_rect.w = self.rim_rect.w - 2;
            },
        }
    }

    /// A horizontal bar at `(x, y)`, shown full, with a green fill.
    pub fn new(x: i64, y: i64, length: i64, width: i64) -> (b: Bar)
        requires
            -BAR_GEOM_LIMIT <= x <= BAR_GEOM_LIMIT,
            -BAR_GEOM_LIMIT <= y <= BAR_GEOM_LIMIT,
            0 <= length <= BAR_GEOM_LIMIT,
            0 <= width <= BAR_GEOM_LIMIT,
        ensures
            b == spec_bar_new(x, y, length, width),
            b.wf(),
    {
        Bar {
            rim_rect: Rect { x, y, w: length, h: width },
            value_rect: Rect { x: x + 1, y: y + 1, w: length - 2, h: width - 2 },
            value: VALUE_SCALE,
            color: Color { r: 0, g: 255, b: 0, a: 255 },
            direction: BarDirection::Horizontal,
        }
    }

    /// Resize the rim; the length runs along the bar's direction.
    pub fn set_size(&mut self, length: i64, width: i64)
        requires
            old(self).wf(),
            0 <= length <= BAR_GEOM_LIMIT,
            0 <= width <= BAR_GEOM_LIMIT,
        ensures
            *final(self) == spec_set_size(*old(self), length, width),
            final(self).wf(),
    {
        if self.direction == BarDirection::Horizontal {
            self.rim_rect.w = length;
            self.rim_rect.h = width;
        } else {
            self.rim_rect.w = width;
            self.rim_rect.h = length;
        }
        self.update_graphic();
    }

    /// Move and resize the bar and show it full again.
    pub fn restore(&mut self, x: i64, y: i64, length: i64, width: i64)
        requires
            old(self).wf(),
            -BAR_GEOM_LIMIT <= x <= BAR_GEOM_LIMIT,
            -BAR_GEOM_LIMIT <= y <= BAR_GEOM_LIMIT,
            0 <= length <= BAR_GEOM_LIMIT,
            0 <= width <= BAR_GEOM_LIMIT,
        ensures
            *final(self) == spec_bar_restored(*old(self), x, y, length, width),
            final(self).wf(),
    {
        self.value = VALUE_SCALE;
        self.rim_rect.x = x;
        self.rim_rect.y = y;
        self.set_size(length, width);
    }

    /// Turn the bar; changing the direction swaps the rim's sides.
    pub fn set_direction(&mut self, direction: BarDirection)
        requires
            old(self).wf(),
        ensures
            *final(self) == spec_set_direction(*old(self), direction),
            final(self).wf(),
    {
        if self.direction != direction {
            let w = self.rim_rect.w;
            let h = self.rim_rect.h;
            self.rim_rect.h = w;
            self.rim_rect.w = h;
            self.direction = direction;
            self.update_graphic();
        }
    }

    pub fn set_color(&mut self, color: Color)
        ensures
            *final(self) == (Bar { color, ..*old(self) }),
    {
        self.color = color;
    }

    /// Set the displayed value. Values above `VALUE_SCALE` are silently
    /// ignored: no error, no clamping, an exact no-op.
    pub fn set_value(&mut self, value: u64)
        requires
            old(self).wf(),
        ensures
            *final(self) == spec_set_value(*old(self), value),
            final(self).wf(),
    {
        if value <= VALUE_SCALE {
            self.value = value;
            self.update_graphic();
        }
    }

    pub fn get_value(&self) -> (v: u64)
        ensures
            v == self.value,
    {
        self.value
    }

    /// Drawing decision: the filled rectangle is shown only for a positive
    /// value; the rim is always shown.
    pub fn shows_value(&self) -> (r: bool)
        ensures
            r == (self.value > 0),
    {
        self.value > 0
    }
}

/// How a timer-driven bar maps the timer's progress to a displayed value.
#[derive(Clone, Copy, PartialEq, Eq, Structural, Debug)]
pub enum TimeBarMode {
    /// Mirror the progress; hidden while the timer is stopped.
    IncreaseAutoDisappear,
    /// Mirror the remaining fraction; hidden while the timer is stopped.
    DecreaseAutoDisappear,
    /// Mirror the progress.
    Increase,
    /// Mirror the remaining fraction.
    Decrease,
}

/// A bar whose displayed value is derived from an owned timer.
#[derive(Clone, Copy, PartialEq, Eq, Structural, Debug)]
pub struct TimerBar {
    pub bar: Bar,
    pub time_tick: Timer,
    pub mode: TimeBarMode,
}

/// The displayed value recomputed from the timer's progress: the progress
/// itself in the increase modes, the remaining fraction in the decrease
/// modes. Out-of-range results fall under `set_value`'s silent rejection.
pub open spec fn spec_mirrored(tb: TimerBar) -> TimerBar {
    let v = tb.time_tick.value_spec();
    match tb.mode {
        TimeBarMode::Increase | TimeBarMode::IncreaseAutoDisappear => TimerBar {
            bar: spec_set_value(tb.bar, v as u64),
            ..tb
        },
        TimeBarMode::Decrease | TimeBarMode::DecreaseAutoDisappear => TimerBar {
            bar: if v <= VALUE_SCALE {
                spec_set_value(tb.bar, (VALUE_SCALE - v) as u64)
            } else {
                tb.bar
            },
            ..tb
        },
    }
}

/// `update` at instant `now`: while neither paused nor stopped, advance the
/// timer and mirror its new progress; otherwise do nothing.
pub open spec fn spec_tb_updated(tb: TimerBar, now: u64) -> TimerBar {
    if !tb.time_tick.paused_state() && !tb.time_tick.stopped_state() {
        spec_mirrored(TimerBar { time_tick: spec_updated(tb.time_tick, now), ..tb })
    } else {
        tb
    }
}

impl TimerBar {
    pub open spec fn wf(self) -> bool {
        self.bar.wf() && self.time_tick.wf()
    }

    /// A timer-driven bar; the timer starts out stopped and the mode
    /// defaults to `DecreaseAutoDisappear`.
    pub fn new(duration: u64, x: i64, y: i64, w: i64, h: i64) -> (tb: TimerBar)
        requires
            1 <= duration <= TIME_MAX,
            -BAR_GEOM_LIMIT <= x <= BAR_GEOM_LIMIT,
            -BAR_GEOM_LIMIT <= y <= BAR_GEOM_LIMIT,
            0 <= w <= BAR_GEOM_LIMIT,
            0 <= h <= BAR_GEOM_LIMIT,
        ensures
            tb == (TimerBar {
                bar: spec_bar_new(x, y, w, h),
                time_tick: crate::timer::spec_new(duration),
                mode: TimeBarMode::DecreaseAutoDisappear,
            }),
            tb.wf(),
    {
        TimerBar {
            bar: Bar::new(x, y, w, h),
            time_tick: Timer::new(duration),
            mode: TimeBarMode::DecreaseAutoDisappear,
        }
    }

    /// Mirror the timer's current progress into the bar per the mode.
    fn update_value(&mut self)
        requires
            old(self).wf(),
        ensures
            *final(self) == spec_mirrored(*old(self)),
            final(self).wf(),
    {
        let value = self.time_tick.get_value();
        match self.mode {
            TimeBarMode::Increase | TimeBarMode::IncreaseAutoDisappear => {
                self.bar.set_value(value);
            },
            TimeBarMode::Decrease | TimeBarMode::DecreaseAutoDisappear => {
                if value <= VALUE_SCALE {
                    self.bar.set_value(VALUE_SCALE - value);
                }
            },
        }
    }

    /// Change the mode and immediately recompute the mirrored value, so a
    /// mode switch causes no stale frame.
    pub fn set_mode(&mut self, mode: TimeBarMode)
        requires
            old(self).wf(),
        ensures
            *final(self) == spec_mirrored(TimerBar { mode, ..*old(self) }),
            final(self).wf(),
    {
        self.mode = mode;
        self.update_value();
    }

    pub fn set_direction(&mut self, direction: BarDirection)
        requires
            old(self).wf(),
        ensures
            *final(self) == (TimerBar {
                bar: spec_set_direction(old(self).bar, direction),
                ..*old(self)
            }),
            final(self).wf(),
    {
        self.bar.set_direction(direction);
    }

    pub fn set_color(&mut self, color: Color)
        ensures
            *final(self) == (TimerBar { bar: Bar { color, ..old(self).bar }, ..*old(self) }),
    {
        self.bar.set_color(color);
    }

    /// The owned timer's raw progress (not the mirrored display value).
    pub fn get_value(&self) -> (v: u64)
        requires
            self.wf(),
        ensures
            v == self.time_tick.value_spec(),
    {
        self.time_tick.get_value()
    }

    /// Consume the timer's one-shot fired event.
    pub fn get_event(&mut self) -> (event: bool)
        ensures
            event == old(self).time_tick.pending(),
            *final(self) == (TimerBar { time_tick: spec_acked(old(self).time_tick), ..*old(self) }),
    {
        self.time_tick.get_event()
    }

    pub fn pause(&mut self)
        ensures
            *final(self) == (TimerBar { time_tick: spec_paused(old(self).time_tick), ..*old(self) }),
    {
        self.time_tick.pause();
    }

    pub fn is_paused(&self) -> (r: bool)
        ensures
            r == self.time_tick.paused_state(),
    {
        self.time_tick.is_paused()
    }

    pub fn is_stopped(&self) -> (r: bool)
        ensures
            r == self.time_tick.stopped_state(),
    {
        self.time_tick.is_stopped()
    }

    /// Start the timer at `now` and mirror the reset progress at once.
    pub fn start(&mut self, now: u64)
        requires
            old(self).wf(),
            now <= TIME_MAX,
        ensures
            *final(self) == spec_mirrored(
                TimerBar { time_tick: spec_started(old(self).time_tick, now), ..*old(self) },
            ),
            final(self).wf(),
    {
        self.time_tick.start(now);
        self.update_value();
    }

    /// Re-arm: move and resize the bar, give the timer a new duration; the
    /// timer's run state and clock origin are untouched.
    pub fn restore(&mut self, duration: u64, x: i64, y: i64, w: i64, h: i64)
        requires
            old(self).wf(),
            1 <= duration <= TIME_MAX,
            -BAR_GEOM_LIMIT <= x <= BAR_GEOM_LIMIT,
            -BAR_GEOM_LIMIT <= y <= BAR_GEOM_LIMIT,
            0 <= w <= BAR_GEOM_LIMIT,
            0 <= h <= BAR_GEOM_LIMIT,
        ensures
            *final(self) == (TimerBar {
                bar: spec_bar_restored(old(self).bar, x, y, w, h),
                time_tick: spec_restored(old(self).time_tick, duration),
                ..*old(self)
            }),
            final(self).wf(),
    {
        self.bar.restore(x, y, w, h);
        self.time_tick.restore(duration);
    }

    /// Advance the timer to `now` and mirror its progress, unless the timer
    /// is paused or stopped.
    pub fn update(&mut self, now: u64)
        requires
            old(self).wf(),
            now <= TIME_MAX,
        ensures
            *final(self) == spec_tb_updated(*old(self), now),
            final(self).wf(),
    {
        if !self.is_paused() && !self.is_stopped() {
            self.time_tick.update(now);
            self.update_value();
        }
    }

    /// Drawing decision: the plain modes always show the bar; the
    /// auto-disappear modes hide it while the timer is stopped.
    pub fn is_visible(&self) -> (r: bool)
        ensures
            r == match self.mode {
                TimeBarMode::Increase | TimeBarMode::Decrease => true,
                TimeBarMode::IncreaseAutoDisappear | TimeBarMode::DecreaseAutoDisappear
                    => !self.time_tick.stopped_state(),
            },
    {
        match self.mode {
            TimeBarMode::Increase | TimeBarMode::Decrease => true,
            TimeBarMode::IncreaseAutoDisappear | TimeBarMode::DecreaseAutoDisappear => !self
                .is_stopped(),
        }
    }
}

} // verus!
