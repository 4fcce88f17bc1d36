//! A scorable target block occupying one grid slot, with a lifetime timer
//! and a progress bar showing the remaining lifetime.
//!
//! A block transitions spawned → alive → (expired | destroyed): spawning
//! re-arms the lifetime timer, `start` begins the countdown, expiry raises
//! the timer's one-shot event, and `stop` destroys the block early. A
//! stopped block is reusable pool storage.

use vstd::prelude::*;
use crate::units::{VALUE_SCALE, TIME_MAX, GEOM_LIMIT, BLOCK_POS_LIMIT};
use crate::timer::Timer;
use crate::timer::spec_acked;
use crate::timer::spec_restored;
use crate::timer::spec_started;
use crate::timer::spec_stopped;
use crate::timer::spec_updated;
use crate::bar::{Bar, Rect};
use crate::bar::spec_bar_new;
use crate::bar::spec_bar_restored;
use crate::bar::spec_set_value;

verus! {

#[derive(Clone, Copy, Debug)]
pub struct Block {
    /// Top-left corner of the block's cell.
    pub pos: (i64, i64),
    /// Side length of the block's cell.
    pub width: i64,
    /// The visible body of the block inside its cell.
    pub rect: Rect,
    /// Shows the remaining lifetime.
    pub time_bar: Bar,
    /// Lifetime countdown.
    pub timer_tick: Timer,
}

/// The lifetime bar mirrors the remaining fraction of the lifetime; a
/// progress beyond full falls under `set_value`'s silent rejection.
pub open spec fn spec_lifetime_mirror(bar: Bar, v: int) -> Bar {
    if v <= VALUE_SCALE {
        spec_set_value(bar, (VALUE_SCALE - v) as u64)
    } else {
        bar
    }
}

/// The geometry derived from a cell corner and width: the body rect is
/// inset by a tenth of the width, under a bar one tenth high.
pub open spec fn spec_block_geometry(pos: (i64, i64), width: i64) -> Rect {
    let delta = width / 10;
    Rect {
        x: (pos.0 + delta) as i64,
        y: (pos.1 + 2 * delta) as i64,
        w: (8 * delta) as i64,
        h: (8 * delta) as i64,
    }
}

/// A freshly built block: geometry laid out, lifetime timer stopped.
pub open spec fn spec_block_new(alive_time: u64, pos: (i64, i64), width: i64) -> Block {
    Block {
        pos,
        width,
        rect: spec_block_geometry(pos, width),
        time_bar: spec_bar_new(pos.0, pos.1, width, (width / 10) as i64),
        timer_tick: crate::timer::spec_new(alive_time),
    }
}

/// `update` at instant `now`: the timer advances only while it is not yet
/// stopped, and the lifetime bar mirrors the new progress.
pub open spec fn spec_block_updated(b: Block, now: u64) -> Block {
    if b.timer_tick.stopped_state() {
        b
    } else {
        let t = spec_updated(b.timer_tick, now);
        Block { timer_tick: t, time_bar: spec_lifetime_mirror(b.time_bar, t.value_spec()), ..b }
    }
}

/// The hit-test predicate: the squared distance from the block's visual
/// center is within the square of the combined radii — the ball's radius
/// plus a fixed fraction (48%) of the block's width. Equality counts as a
/// hit.
pub open spec fn spec_hit(b: Block, point: (i64, i64), radius: i64) -> bool {
    let cx = b.pos.0 + b.width / 2;
    let cy = b.pos.1 + 3 * b.width / 5;
    let dx = point.0 - cx;
    let dy = point.1 - cy;
    let rs = radius + 48 * b.width / 100;
    dx * dx + dy * dy <= rs * rs
}

/// Point-in-rect, closed on all edges.
pub open spec fn spec_contains(r: Rect, point: (i64, i64)) -> bool {
    r.x <= point.0 <= r.x + r.w && r.y <= point.1 <= r.y + r.h
}

impl Block {
    /// Geometry bounds: the cell corner and width stay in the world range.
    pub open spec fn geom_wf(self) -> bool {
        &&& -BLOCK_POS_LIMIT <= self.pos.0 <= BLOCK_POS_LIMIT
        &&& -BLOCK_POS_LIMIT <= self.pos.1 <= BLOCK_POS_LIMIT
        &&& 0 <= self.width <= GEOM_LIMIT
    }

    pub open spec fn wf(self) -> bool {
        self.geom_wf() && self.timer_tick.wf() && self.time_bar.wf()
    }

    /// Lay out a block in the cell at `pos`; the lifetime timer is built
    /// stopped and not yet started.
    pub fn new(alive_time: u64, pos: (i64, i64), width: i64) -> (b: Block)
        requires
            1 <= alive_time <= TIME_MAX,
            -BLOCK_POS_LIMIT <= pos.0 <= BLOCK_POS_LIMIT,
            -BLOCK_POS_LIMIT <= pos.1 <= BLOCK_POS_LIMIT,
            0 <= width <= GEOM_LIMIT,
        ensures
            b == spec_block_new(alive_time, pos, width),
            b.wf(),
    {
        let delta = ((width as u64) / 10) as i64;
        Block {
            pos,
            width,
            rect: Rect { x: pos.0 + delta, y: pos.1 + 2 * delta, w: 8 * delta, h: 8 * delta },
            time_bar: Bar::new(pos.0, pos.1, width, delta),
            timer_tick: Timer::new(alive_time),
        }
    }

    /// Re-initialize a pooled block for a new cell: geometry and lifetime
    /// re-armed, bar shown full; the timer is not started yet.
    pub fn restore(&mut self, alive_time: u64, pos: (i64, i64), width: i64)
        requires
            old(self).wf(),
            1 <= alive_time <= TIME_MAX,
            -BLOCK_POS_LIMIT <= pos.0 <= BLOCK_POS_LIMIT,
            -BLOCK_POS_LIMIT <= pos.1 <= BLOCK_POS_LIMIT,
            0 <= width <= GEOM_LIMIT,
        ensures
            *final(self) == ({
                let t = spec_restored(old(self).timer_tick, alive_time);
                Block {
                    pos,
                    width,
                    rect: spec_block_geometry(pos, width),
                    timer_tick: t,
                    time_bar: spec_lifetime_mirror(
                        spec_bar_restored(old(self).time_bar, pos.0, pos.1, width, (width / 10) as i64),
                        t.value_spec(),
                    ),
                }
            }),
            final(self).wf(),
    {
        let delta = ((width as u64) / 10) as i64;
        self.pos = pos;
        self.width = width;
        self.rect.x = pos.0 + delta;
        self.rect.y = pos.1 + 2 * delta;
        self.rect.h = 8 * delta;
        self.rect.w = 8 * delta;
        self.timer_tick.restore(alive_time);
        self.time_bar.restore(pos.0, pos.1, width, delta);
        self.update_graphic();
    }

    /// Approximate circular hit test around the block's visual center with
    /// combined radii; equality counts as a hit.
    pub fn is_hit_cricle(&self, point: (i64, i64), radius: i64) -> (r: bool)
        requires
            self.geom_wf(),
            0 <= radius <= GEOM_LIMIT,
        ensures
            r == spec_hit(*self, point, radius),
    {
        let w = self.width as u64;
        let cx: i128 = self.pos.0 as i128 + (w / 2) as i128;
        let cy: i128 = self.pos.1 as i128 + (3 * w / 5) as i128;
        let dx: i128 = point.0 as i128 - cx;
        let dy: i128 = point.1 as i128 - cy;
        let rs: i128 = radius as i128 + (48 * w / 100) as i128;
        if dx > 0x4000_0000_0000_0000 || dx < -0x4000_0000_0000_0000 {
            proof {
                assert(dx * dx > rs * rs) by (nonlinear_arith)
                    requires
                        dx > 0x4000_0000_0000_0000 || dx < -0x4000_0000_0000_0000,
                        0 <= rs < 0x1_0000_0000,
                ;
                assert(dy * dy >= 0) by (nonlinear_arith);
            }
            return false;
        }
        if dy > 0x4000_0000_0000_0000 || dy < -0x4000_0000_0000_0000 {
            proof {
                assert(dy * dy > rs * rs) by (nonlinear_arith)
                    requires
                        dy > 0x4000_0000_0000_0000 || dy < -0x4000_0000_0000_0000,
                        0 <= rs < 0x1_0000_0000,
                ;
                assert(dx * dx >= 0) by (nonlinear_arith);
            }
            return false;
        }
        proof {
            assert(dx * dx <= 0x4000_0000_0000_0000 * 0x4000_0000_0000_0000 && dx * dx >= 0)
                by (nonlinear_arith)
                requires
                    -0x4000_0000_0000_0000 <= dx <= 0x4000_0000_0000_0000,
            ;
            assert(dy * dy <= 0x4000_0000_0000_0000 * 0x4000_0000_0000_0000 && dy * dy >= 0)
                by (nonlinear_arith)
                requires
                    -0x4000_0000_0000_0000 <= dy <= 0x4000_0000_0000_0000,
            ;
            assert(rs * rs < 0x1_0000_0000 * 0x1_0000_0000) by (nonlinear_arith)
                requires
                    0 <= rs < 0x1_0000_0000,
            ;
        }
        dx * dx + dy * dy <= rs * rs
    }

    /// Point-in-body test, closed on all edges.
    pub fn is_contains(&self, point: (i64, i64)) -> (r: bool)
        ensures
            r == spec_contains(self.rect, point),
    {
        let px = point.0 as i128;
        let py = point.1 as i128;
        let x = self.rect.x as i128;
        let y = self.rect.y as i128;
        x <= px && px <= x + self.rect.w as i128 && y <= py && py <= y + self.rect.h as i128
    }

    /// A stopped block is free pool storage.
    pub fn is_stopped(&self) -> (r: bool)
        ensures
            r == self.timer_tick.stopped_state(),
    {
        self.timer_tick.is_stopped()
    }

    /// Consume the lifetime-expired event: true exactly once per expiry.
    pub fn get_event(&mut self) -> (event: bool)
        ensures
            event == old(self).timer_tick.pending(),
            *final(self) == (Block { timer_tick: spec_acked(old(self).timer_tick), ..*old(self) }),
    {
        self.timer_tick.get_event()
    }

    /// Mirror the remaining lifetime into the bar.
    fn update_graphic(&mut self)
        requires
            old(self).time_bar.wf(),
            old(self).timer_tick.wf(),
        ensures
            *final(self) == (Block {
                time_bar: spec_lifetime_mirror(
                    old(self).time_bar,
                    old(self).timer_tick.value_spec(),
                ),
                ..*old(self)
            }),
    {
        let value = self.timer_tick.get_value();
        if value <= VALUE_SCALE {
            self.time_bar.set_value(VALUE_SCALE - value);
        }
    }

    /// Advance the lifetime timer to `now` — only while it is not yet
    /// stopped — and refresh the lifetime bar.
    pub fn update(&mut self, now: u64)
        requires
            old(self).wf(),
            now <= TIME_MAX,
        ensures
            *final(self) == spec_block_updated(*old(self), now),
            final(self).wf(),
    {
        if !self.timer_tick.is_stopped() {
            self.timer_tick.update(now);
            self.update_graphic();
        }
    }

    /// Destroy the block early: the slot owner may reuse it at once.
    pub fn stop(&mut self)
        ensures
            *final(self) == (Block {
                timer_tick: spec_stopped(old(self).timer_tick),
                ..*old(self)
            }),
    {
        self.timer_tick.stop();
    }

    /// Begin the lifetime countdown at `now`.
    pub fn start(&mut self, now: u64)
        requires
            now <= TIME_MAX,
        ensures
            *final(self) == (Block {
                timer_tick: spec_started(old(self).timer_tick, now),
                ..*old(self)
            }),
            old(self).wf() ==> final(self).wf(),
    {
        self.timer_tick.start(now);
    }
}

} // verus!
