//! The game state machine: a fixed grid of block slots, pools of reusable
//! blocks and balls, an adaptive spawn scheduler, a power-charge bar, and
//! score/lives bookkeeping over Ready → Running → GameOver.
//!
//! Every tick the caller injects the clock (`now`, in ticks) and the frame
//! delta; the state advances all timers, integrates the balls, resolves
//! expiries and collisions, and reports which sound cues to play. Rendering
//! and audio are the caller's job: the state is read through its public
//! fields and drawing decisions.

use vstd::prelude::*;
use crate::units::{VALUE_SCALE, TIME_MAX, GEOM_LIMIT, BLOCK_POS_LIMIT};
use crate::timer::Timer;
use crate::timer::spec_acked;
use crate::timer::spec_new;
use crate::timer::spec_restored;
use crate::timer::spec_started;
use crate::timer::spec_stopped;
use crate::bar::{TimerBar, BarDirection, TimeBarMode};
use crate::bar::spec_mirrored;
use crate::ball::Ball;
use crate::ball::rescaled;
use crate::ball::in_flight;
use crate::ball::step_fits;
use crate::ball::spec_stepped;
use crate::ball::vec_len_floor;
use crate::block::Block;
use crate::block::spec_block_geometry;
use crate::block::spec_block_new;
use crate::block::spec_hit;
use crate::num::isqrt64;
use crate::rng::{rng_from_seed, rng_range};

verus! {

/// Side of the square block grid.
pub const BLOCK_COUNT: usize = 8;

/// Number of grid slots.
pub const BLOCK_NUM: usize = BLOCK_COUNT * BLOCK_COUNT;

/// Cooldown between two ball launches, in ticks.
pub const BALL_PERIOD: u64 = 1000;

/// Flight time a full-power ball takes to cross the maximum range, in ticks.
pub const BALL_MAX_TIME: u64 = 1500;

/// Lifetime of a spawned block, in ticks.
pub const BLOCK_ALIVE: u64 = 10_000;

/// Spawn-interval unit per occupied slot, in ticks.
pub const BLOCK_GENERATE: u64 = 5_000;

/// Width of the random spawn-interval window, in ticks.
pub const GENERATE_SPREAD: u64 = 3_000;

/// Spawn interval while the board is empty, in ticks.
pub const SHORT_GENERATE: u64 = 100;

/// Duration of the power charge, in ticks.
pub const RELOADING_TIME: u64 = 1000;

/// How long a missed ball stays visible after landing, in ticks.
pub const EXTRA_LIVE: u64 = 500;

/// Lives at the start of a run.
pub const START_LIVES: u64 = 5;

/// Height velocity per unit of launch power: one full-power unit of
/// charge adds `BALL_HEIGHT_MAX / (VALUE_SCALE * TICKS_PER_SECOND)` height
/// units per tick.
pub const HEIGHT_VEL_UNIT: u64 = 2;

#[derive(Clone, Copy, PartialEq, Eq, Structural, Debug)]
pub enum GameStatus {
    Ready,
    Running,
    GameOver,
}

/// A pooled block together with the grid slot it occupies.
#[derive(Clone, Copy, Debug)]
pub struct StateBlock {
    pub block: Block,
    pub index: usize,
}

/// A pooled ball together with the timer that keeps a missed ball visible
/// briefly after landing.
#[derive(Clone, Copy, Debug)]
pub struct StateBall {
    pub ball: Ball,
    pub extra_live_timer: Timer,
}

/// Sound cue from landing resolution.
#[derive(Clone, Copy, PartialEq, Eq, Structural, Debug)]
pub enum LandingCue {
    /// No ball landed this tick.
    Quiet,
    /// At least one ball landed and none hit a block.
    Miss,
    /// A landed ball destroyed a block.
    Boom,
}

/// Sound cues produced by one tick.
#[derive(Clone, Copy, PartialEq, Eq, Structural, Debug)]
pub struct TickCues {
    /// The power charge just filled up: restart the charge cue.
    pub power_full: bool,
    pub landing: LandingCue,
}

/// Number of `true` slots.
pub open spec fn count_occupied(s: Seq<bool>) -> int
    decreases s.len(),
{
    if s.len() == 0 {
        0
    } else {
        count_occupied(s.drop_last()) + if s.last() {
            1int
        } else {
            0int
        }
    }
}

/// Number of `false` slots.
pub open spec fn count_free(s: Seq<bool>) -> int {
    s.len() - count_occupied(s)
}

proof fn lemma_count_occupied_bounds(s: Seq<bool>)
    ensures
        0 <= count_occupied(s) <= s.len(),
    decreases s.len(),
{
    if s.len() > 0 {
        lemma_count_occupied_bounds(s.drop_last());
    }
}

proof fn lemma_count_occupied_step(s: Seq<bool>, i: int)
    requires
        0 <= i < s.len(),
    ensures
        count_occupied(s.take(i + 1)) == count_occupied(s.take(i)) + if s[i] {
            1int
        } else {
            0int
        },
{
    assert(s.take(i + 1).drop_last() =~= s.take(i));
    assert(s.take(i + 1).last() == s[i]);
}

/// Count the occupied grid slots.
fn count_occupied_slots(v: &Vec<bool>) -> (n: usize)
    ensures
        n == count_occupied(v@),
        n <= v@.len(),
{
    let mut n: usize = 0;
    let mut i: usize = 0;
    while i < v.len()
        invariant
            i <= v@.len(),
            n == count_occupied(v@.take(i as int)),
            n <= i,
        decreases v@.len() - i,
    {
        proof {
            lemma_count_occupied_step(v@, i as int);
        }
        if v[i] {
            n = n + 1;
        }
        i = i + 1;
    }
    proof {
        assert(v@.take(v@.len() as int) =~= v@);
    }
    n
}

/// The lower edge of the random spawn interval: it grows with the number of
/// occupied slots, capped at ten.
pub open spec fn spawn_interval_lo(occupied: int) -> int {
    BLOCK_GENERATE * (if occupied <= 10 {
        occupied
    } else {
        10
    })
}

pub struct GameState {
    /// Cooldown after each launch; a launch is allowed while stopped.
    pub ball_ready_timer: Timer,
    /// Schedules block spawns; re-randomized after every spawn.
    pub block_generate_time_ticker: Timer,
    /// The power-charge bar, running while the pointer is held.
    pub power_record_bar: TimerBar,
    /// Explicit, seedable generator driving the spawn scheduler.
    pub rng: rand::rngs::StdRng,
    /// Pool of blocks; stopped entries are free storage.
    pub block_list: Vec<StateBlock>,
    /// Occupancy of the `BLOCK_NUM` grid slots.
    pub block_index: Vec<bool>,
    /// Pool of balls; inactive entries are free storage.
    pub ball_list: Vec<StateBall>,
    /// Grid cell side: the window height over the grid side plus margins.
    pub delta_length: i64,
    pub window_size: (i64, i64),
    pub status: GameStatus,
    pub score: u64,
    /// Remaining lives; each expired block costs one.
    pub left: u64,
}

/// Every non-stopped block of `blocks` occupies its slot in `grid`.
pub open spec fn occupancy_ok_of(blocks: Seq<StateBlock>, grid: Seq<bool>) -> bool {
    forall|j: int|
        0 <= j < blocks.len() && !(#[trigger] blocks[j]).block.timer_tick.stopped_state()
            ==> grid[blocks[j].index as int]
}

/// At most one live occupant per grid slot.
pub open spec fn slots_unique_of(blocks: Seq<StateBlock>) -> bool {
    forall|j: int, k: int|
        0 <= j < k < blocks.len() && !(#[trigger] blocks[j]).block.timer_tick.stopped_state()
            && !(#[trigger] blocks[k]).block.timer_tick.stopped_state() ==> blocks[j].index
            != blocks[k].index
}

/// Every pooled block is well-formed and names a real grid slot.
pub open spec fn blocks_wf_of(blocks: Seq<StateBlock>) -> bool {
    forall|j: int|
        0 <= j < blocks.len() ==> (#[trigger] blocks[j]).block.wf() && blocks[j].index < BLOCK_NUM
}

/// Every pooled ball carries a well-formed extra-life timer and a radius
/// in the world range.
pub open spec fn balls_wf_of(balls: Seq<StateBall>) -> bool {
    forall|j: int|
        0 <= j < balls.len() ==> (#[trigger] balls[j]).extra_live_timer.wf() && 0
            <= balls[j].ball.radius <= GEOM_LIMIT
}

impl GameState {
    /// Every non-stopped pooled block occupies its grid slot.
    pub open spec fn occupancy_ok(self) -> bool {
        occupancy_ok_of(self.block_list@, self.block_index@)
    }

    /// At most one live occupant per grid slot.
    pub open spec fn slots_unique(self) -> bool {
        slots_unique_of(self.block_list@)
    }

    pub open spec fn wf(self) -> bool {
        &&& self.ball_ready_timer.wf()
        &&& self.block_generate_time_ticker.wf()
        &&& self.power_record_bar.wf()
        &&& self.block_index@.len() == BLOCK_NUM
        &&& 16 <= self.window_size.1 <= GEOM_LIMIT
        &&& 1 <= self.window_size.0 <= GEOM_LIMIT
        &&& self.delta_length == self.window_size.1 / 16
        &&& blocks_wf_of(self.block_list@)
        &&& balls_wf_of(self.ball_list@)
        &&& self.left <= START_LIVES
        &&& (self.status == GameStatus::Running ==> self.left >= 1)
        &&& self.occupancy_ok()
        &&& self.slots_unique()
    }

    /// Left edge of the grid: the window width minus the grid, halved,
    /// rounding toward zero.
    pub open spec fn spec_left_point(self) -> int {
        let d = self.window_size.0 - 8 * self.delta_length;
        if d >= 0 {
            d / 2
        } else {
            -((-d) / 2)
        }
    }

    /// Top-left corner of grid slot `idx`: column and row scaled by the
    /// cell side, two margin rows above.
    pub open spec fn spec_slot_pos(self, idx: int) -> (int, int) {
        ((idx % 8) * self.delta_length + self.spec_left_point(), (idx / 8 + 2) * self.delta_length)
    }

    /// Maximum launch range: the diagonal from the launch point to the far
    /// grid corner, as a floor square root.
    pub open spec fn spec_max_range(self) -> int {
        vec_len_floor(4 * self.delta_length, 14 * self.delta_length)
    }

    /// Maximum launch speed: the maximum range crossed in `BALL_MAX_TIME`.
    pub open spec fn spec_max_vel(self) -> int {
        self.spec_max_range() / (BALL_MAX_TIME as int)
    }

    pub fn get_left_point(&self) -> (r: i64)
        requires
            self.wf(),
        ensures
            r == self.spec_left_point(),
            -GEOM_LIMIT <= r <= GEOM_LIMIT,
    {
        let grid = 8 * self.delta_length;
        if self.window_size.0 >= grid {
            (((self.window_size.0 - grid) as u64) / 2) as i64
        } else {
            -((((grid - self.window_size.0) as u64) / 2) as i64)
        }
    }

    /// Screen position of a grid slot.
    pub fn slot_pos(&self, index: usize) -> (p: (i64, i64))
        requires
            self.wf(),
            index < BLOCK_NUM,
        ensures
            (p.0 as int, p.1 as int) == self.spec_slot_pos(index as int),
            -BLOCK_POS_LIMIT <= p.0 <= BLOCK_POS_LIMIT,
            0 <= p.1 <= BLOCK_POS_LIMIT,
    {
        let lp = self.get_left_point();
        let col = (index % 8) as i64;
        let row = (index / 8) as i64;
        proof {
            vstd::arithmetic::mul::lemma_mul_upper_bound(
                col as int,
                7,
                self.delta_length as int,
                0x400_0000,
            );
            vstd::arithmetic::mul::lemma_mul_upper_bound(
                row as int + 2,
                9,
                self.delta_length as int,
                0x400_0000,
            );
            vstd::arithmetic::mul::lemma_mul_nonnegative(col as int, self.delta_length as int);
            vstd::arithmetic::mul::lemma_mul_nonnegative(
                row as int + 2,
                self.delta_length as int,
            );
        }
        (col * self.delta_length + lp, (row + 2) * self.delta_length)
    }

    /// Maximum launch range, in coordinate units.
    pub fn get_ball_max_range(&self) -> (r: i64)
        requires
            self.wf(),
        ensures
            r == self.spec_max_range(),
            0 <= r <= GEOM_LIMIT,
    {
        let w = (4 * self.delta_length) as u64;
        let h = (14 * self.delta_length) as u64;
        let range = isqrt64(sq_coord(w) + sq_coord(h));
        proof {
            crate::num::lemma_sqrt_floor_bounds((w * w + h * h) as int);
            assert(range * range <= (w * w + h * h)) by {};
            if range > GEOM_LIMIT {
                assert(range * range > (GEOM_LIMIT as u64) * (GEOM_LIMIT as u64))
                    by (nonlinear_arith)
                    requires
                        range > GEOM_LIMIT as u64,
                ;
                assert((w * w + h * h) <= (GEOM_LIMIT as u64) * (GEOM_LIMIT as u64))
                    by (nonlinear_arith)
                    requires
                        w <= 0x1000_0000u64,
                        h <= 0x3800_0000u64,
                ;
            }
        }
        range as i64
    }

    /// Maximum launch speed, in coordinate units per tick.
    pub fn get_ball_max_vel(&self) -> (r: i64)
        requires
            self.wf(),
        ensures
            r == self.spec_max_vel(),
            0 <= r <= GEOM_LIMIT,
    {
        let range = self.get_ball_max_range();
        ((range as u64) / BALL_MAX_TIME) as i64
    }

    /// Halt the spawn scheduler and the launch cooldown; after the game is
    /// over no timer ticks until a restart.
    pub fn game_over(&mut self)
        ensures
            *final(self) == (GameState {
                block_generate_time_ticker: spec_stopped(old(self).block_generate_time_ticker),
                ball_ready_timer: spec_stopped(old(self).ball_ready_timer),
                ..*old(self)
            }),
    {
        self.block_generate_time_ticker.stop();
        self.ball_ready_timer.stop();
    }

    /// Re-arm the spawn scheduler: a short fixed interval on an empty
    /// board, else a uniformly random interval from a window that widens
    /// with the number of occupied slots (capped at ten).
    pub fn restore_timer(&mut self)
        requires
            old(self).wf(),
        ensures
            final(self).wf(),
            ({
                let occ = count_occupied(old(self).block_index@);
                if occ == 0 {
                    final(self).block_generate_time_ticker == spec_restored(
                        old(self).block_generate_time_ticker,
                        SHORT_GENERATE,
                    ) && final(self).rng == old(self).rng
                } else {
                    exists|d: u64|
                        spawn_interval_lo(occ) <= d < spawn_interval_lo(occ) + GENERATE_SPREAD
                            && final(self).block_generate_time_ticker == spec_restored(
                            old(self).block_generate_time_ticker,
                            d,
                        )
                }
            }),
            final(self).ball_ready_timer == old(self).ball_ready_timer,
            final(self).power_record_bar == old(self).power_record_bar,
            final(self).block_list == old(self).block_list,
            final(self).block_index == old(self).block_index,
            final(self).ball_list == old(self).ball_list,
            final(self).delta_length == old(self).delta_length,
            final(self).window_size == old(self).window_size,
            final(self).status == old(self).status,
            final(self).score == old(self).score,
            final(self).left == old(self).left,
    {
        let count = count_occupied_slots(&self.block_index);
        if count == 0 {
            self.block_generate_time_ticker.restore(SHORT_GENERATE);
        } else {
            let c: u64 = if count < 10 {
                count as u64
            } else {
                10
            };
            let lo = BLOCK_GENERATE * c;
            let d = rng_range(&mut self.rng, lo, lo + GENERATE_SPREAD);
            self.block_generate_time_ticker.restore(d);
        }
    }

    /// Build a fresh game in the Ready state: empty board, empty pools,
    /// full lives, spawn scheduler armed with the short interval but not
    /// started, vertical power bar in increase mode.
    pub fn new(window_w: i64, window_h: i64, seed: u64) -> (s: GameState)
        requires
            1 <= window_w <= GEOM_LIMIT,
            16 <= window_h <= GEOM_LIMIT,
        ensures
            s.wf(),
            s.status == GameStatus::Ready,
            s.score == 0,
            s.left == START_LIVES,
            s.block_list@.len() == 0,
            s.ball_list@.len() == 0,
            forall|i: int| 0 <= i < BLOCK_NUM ==> !(#[trigger] s.block_index@[i]),
            s.window_size == (window_w, window_h),
            s.delta_length == window_h / 16,
            s.ball_ready_timer == spec_new(BALL_PERIOD),
            s.block_generate_time_ticker == spec_restored(spec_new(BLOCK_ALIVE), SHORT_GENERATE),
            s.power_record_bar.time_tick == spec_new(RELOADING_TIME),
            s.power_record_bar.mode == TimeBarMode::Increase,
            s.power_record_bar.bar.direction == BarDirection::Vertical,
    {
        let delta = ((window_h as u64) / 16) as i64;
        let bar_x = window_w - ((delta as u64) / 2) as i64;
        let bar_y = window_h - ((16 * (delta as u64)) / 5) as i64;
        let bar_len = 3 * delta;
        let bar_width = ((2 * (delta as u64)) / 5) as i64;
        let mut s = GameState {
            ball_ready_timer: Timer::new(BALL_PERIOD),
            block_generate_time_ticker: Timer::new(BLOCK_ALIVE),
            power_record_bar: TimerBar::new(RELOADING_TIME, bar_x, bar_y, bar_len, bar_width),
            rng: rng_from_seed(seed),
            block_list: Vec::new(),
            block_index: make_grid(),
            ball_list: Vec::new(),
            delta_length: delta,
            window_size: (window_w, window_h),
            status: GameStatus::Ready,
            score: 0,
            left: START_LIVES,
        };
        s.power_record_bar.set_direction(BarDirection::Vertical);
        s.power_record_bar.set_mode(TimeBarMode::Increase);
        proof {
            assert(count_occupied(s.block_index@) == 0) by {
                lemma_count_all_free(s.block_index@);
            }
        }
        s.restore_timer();
        s
    }
}

/// A pooled block re-armed for a new slot and started: the lifetime timer
/// is restored to `BLOCK_ALIVE` and started at `now`, the geometry moves to
/// the new cell.
pub open spec fn spec_respawned(b: Block, pos: (i64, i64), width: i64, now: u64) -> Block {
    let t = spec_restored(b.timer_tick, BLOCK_ALIVE);
    Block {
        pos,
        width,
        rect: spec_block_geometry(pos, width),
        time_bar: crate::block::spec_lifetime_mirror(
            crate::bar::spec_bar_restored(b.time_bar, pos.0, pos.1, width, (width / 10) as i64),
            t.value_spec(),
        ),
        timer_tick: spec_started(t, now),
    }
}

/// A newly allocated block, started at `now`.
pub open spec fn spec_fresh_spawn(pos: (i64, i64), width: i64, now: u64) -> Block {
    Block {
        timer_tick: spec_started(spec_new(BLOCK_ALIVE), now),
        ..spec_block_new(BLOCK_ALIVE, pos, width)
    }
}

/// The slot corner as machine integers.
pub open spec fn spec_slot_pos_i64(g: GameState, i: int) -> (i64, i64) {
    (g.spec_slot_pos(i).0 as i64, g.spec_slot_pos(i).1 as i64)
}

/// One spawn that reuses pool entry `j` for free slot `i`: the slot
/// becomes occupied and the first stopped entry is re-armed there and
/// started; nothing is allocated.
pub open spec fn spec_spawn_reuse(
    pre: GameState,
    post: GameState,
    now: u64,
    i: int,
    j: int,
) -> bool {
    &&& 0 <= i < BLOCK_NUM
    &&& !pre.block_index@[i]
    &&& post.block_index@ == pre.block_index@.update(i, true)
    &&& 0 <= j < pre.block_list@.len()
    &&& pre.block_list@[j].block.timer_tick.stopped_state()
    &&& forall|k: int|
        0 <= k < j ==> !(#[trigger] pre.block_list@[k]).block.timer_tick.stopped_state()
    &&& post.block_list@ == pre.block_list@.update(
        j,
        StateBlock {
            index: i as usize,
            block: spec_respawned(
                pre.block_list@[j].block,
                spec_slot_pos_i64(pre, i),
                pre.delta_length,
                now,
            ),
        },
    )
}

/// One spawn that allocates: no pool entry was free, so a new block is
/// pushed for free slot `i` and started.
pub open spec fn spec_spawn_push(pre: GameState, post: GameState, now: u64, i: int) -> bool {
    &&& 0 <= i < BLOCK_NUM
    &&& !pre.block_index@[i]
    &&& post.block_index@ == pre.block_index@.update(i, true)
    &&& forall|k: int|
        0 <= k < pre.block_list@.len() ==> !(#[trigger] pre.block_list@[k]).block.timer_tick
            .stopped_state()
    &&& post.block_list@ == pre.block_list@.push(
        StateBlock {
            index: i as usize,
            block: spec_fresh_spawn(spec_slot_pos_i64(pre, i), pre.delta_length, now),
        },
    )
}


/// Index of the `r`-th free slot (counting from zero, in slot order).
fn nth_free_slot(v: &Vec<bool>, r: usize) -> (idx: usize)
    requires
        r < count_free(v@),
    ensures
        idx < v@.len(),
        !v@[idx as int],
{
    let n = v.len();
    let mut i: usize = 0;
    let mut seen: usize = 0;
    let mut idx: usize = n;
    while i < n
        invariant
            n == v@.len(),
            i <= n,
            r < count_free(v@),
            idx <= n,
            idx == n ==> seen == count_free(v@.take(i as int)) && seen <= r,
            idx < n ==> !v@[idx as int],
        decreases n - i,
    {
        if idx == n {
            proof {
                lemma_count_occupied_step(v@, i as int);
            }
            if !v[i] {
                if seen == r {
                    idx = i;
                } else {
                    seen = seen + 1;
                }
            }
        }
        i = i + 1;
    }
    proof {
        if idx == n {
            assert(v@.take(n as int) =~= v@);
        }
    }
    idx
}

/// Position of the first stopped pool entry, if any.
fn first_stopped(list: &Vec<StateBlock>) -> (r: Option<usize>)
    ensures
        match r {
            Some(j) => j < list@.len() && list@[j as int].block.timer_tick.stopped_state()
                && forall|k: int|
                0 <= k < j ==> !(#[trigger] list@[k]).block.timer_tick.stopped_state(),
            None => forall|k: int|
                0 <= k < list@.len() ==> !(#[trigger] list@[k]).block.timer_tick.stopped_state(),
        },
{
    let n = list.len();
    let mut j: usize = 0;
    while j < n
        invariant
            n == list@.len(),
            j <= n,
            forall|k: int| 0 <= k < j ==> !(#[trigger] list@[k]).block.timer_tick.stopped_state(),
        decreases n - j,
    {
        if list[j].block.is_stopped() {
            return Some(j);
        }
        j = j + 1;
    }
    None
}

impl GameState {
    /// Spawn one block at a uniformly random free grid slot: mark the slot
    /// occupied and re-arm the first stopped pool entry there — allocating
    /// a new block only when no entry is free — and start its lifetime. On
    /// a full board nothing happens at all.
    #[verifier::rlimit(50)]
    pub fn random_block(&mut self, now: u64)
        requires
            old(self).wf(),
            now <= TIME_MAX,
        ensures
            final(self).wf(),
            final(self).ball_ready_timer == old(self).ball_ready_timer,
            final(self).block_generate_time_ticker == old(self).block_generate_time_ticker,
            final(self).power_record_bar == old(self).power_record_bar,
            final(self).ball_list == old(self).ball_list,
            final(self).delta_length == old(self).delta_length,
            final(self).window_size == old(self).window_size,
            final(self).status == old(self).status,
            final(self).score == old(self).score,
            final(self).left == old(self).left,
            count_free(old(self).block_index@) == 0 ==> *final(self) == *old(self),
            count_free(old(self).block_index@) > 0 ==> (exists|i: int, j: int|
                #[trigger] spec_spawn_reuse(*old(self), *final(self), now, i, j)) || (exists|
                i: int|
                #[trigger] spec_spawn_push(*old(self), *final(self), now, i)),
            // pool reuse: a stopped entry means the pool does not grow, and
            // the freshly spawned block's timer is running, not stopped
            count_free(old(self).block_index@) > 0 && (exists|j: int|
                0 <= j < old(self).block_list@.len()
                    && (#[trigger] old(self).block_list@[j]).block.timer_tick.stopped_state())
                ==> final(self).block_list@.len() == old(self).block_list@.len(),
            count_free(old(self).block_index@) > 0 ==> exists|j: int|
                0 <= j < final(self).block_list@.len()
                    && (#[trigger] final(self).block_list@[j]).block.timer_tick.running(),
    {
        let occ = count_occupied_slots(&self.block_index);
        proof {
            lemma_count_occupied_bounds(self.block_index@);
        }
        if occ >= BLOCK_NUM {
            return ;
        }
        let free = (BLOCK_NUM - occ) as u64;
        let r_raw = rng_range(&mut self.rng, 0, free);
        let idx = nth_free_slot(&self.block_index, r_raw as usize);
        let pos = self.slot_pos(idx);
        self.block_index[idx] = true;
        let found = first_stopped(&self.block_list);
        match found {
            Some(reuse) => {
                let mut sb = self.block_list[reuse];
                sb.block.restore(BLOCK_ALIVE, pos, self.delta_length);
                sb.block.start(now);
                sb.index = idx;
                self.block_list[reuse] = sb;
                proof {
                    self.lemma_spawn_wf(*old(self), idx as int, reuse as int);
                    assert(self.block_list@[reuse as int].block.timer_tick.running());
                    assert(spec_spawn_reuse(*old(self), *self, now, idx as int, reuse as int));
                }
            },
            None => {
                let mut item = StateBlock {
                    index: idx,
                    block: Block::new(BLOCK_ALIVE, pos, self.delta_length),
                };
                item.block.start(now);
                let ghost n = self.block_list@.len();
                self.block_list.push(item);
                proof {
                    self.lemma_spawn_wf(*old(self), idx as int, n as int);
                    assert(self.block_list@[n as int].block.timer_tick.running());
                    assert(spec_spawn_push(*old(self), *self, now, idx as int));
                }
            },
        }
    }

    /// The occupancy and uniqueness invariants survive a spawn at free slot
    /// `i`, with the spawned entry at list position `j` and every other
    /// entry unchanged.
    proof fn lemma_spawn_wf(self, pre: GameState, i: int, j: int)
        requires
            pre.wf(),
            0 <= i < BLOCK_NUM,
            !pre.block_index@[i],
            self.block_index@ == pre.block_index@.update(i, true),
            self.block_list@.len() == if j < pre.block_list@.len() {
                pre.block_list@.len()
            } else {
                pre.block_list@.len() + 1
            },
            0 <= j < self.block_list@.len(),
            forall|k: int|
                0 <= k < pre.block_list@.len() && k != j ==> #[trigger] self.block_list@[k]
                    == pre.block_list@[k],
            self.block_list@[j].index == i,
            self.block_list@[j].block.wf(),
        ensures
            self.occupancy_ok(),
            self.slots_unique(),
            forall|k: int| 0 <= k < self.block_list@.len() ==> (#[trigger] self.block_list@[k]).block.wf(),
            forall|k: int|
                0 <= k < self.block_list@.len() ==> (#[trigger] self.block_list@[k]).index
                    < BLOCK_NUM,
    {
        assert forall|k: int|
            0 <= k < self.block_list@.len() && !(#[trigger] self.block_list@[k]).block.timer_tick
                .stopped_state() implies self.block_index@[self.block_list@[k].index as int] by {
            if k != j {
                assert(self.block_list@[k] == pre.block_list@[k]);
                assert(pre.block_index@[pre.block_list@[k].index as int]);
            }
        }
        assert forall|k: int, l: int|
            0 <= k < l < self.block_list@.len() && !(#[trigger] self.block_list@[k]).block
                .timer_tick.stopped_state() && !(#[trigger] self.block_list@[l]).block.timer_tick
                .stopped_state() implies self.block_list@[k].index != self.block_list@[l].index by {
            if k == j {
                assert(pre.block_index@[pre.block_list@[l].index as int]);
            } else if l == j {
                assert(pre.block_index@[pre.block_list@[k].index as int]);
            }
        }
    }


    /// Full reset on a click after the game ended: score and lives back to
    /// their initial values, every pooled block stopped, the occupancy grid
    /// cleared, and the spawn scheduler re-armed with the short interval
    /// and started at `now`.
    #[verifier::rlimit(50)]
    pub fn game_restart(&mut self, now: u64)
        requires
            old(self).wf(),
            now <= TIME_MAX,
        ensures
            final(self).wf(),
            final(self).status == GameStatus::Running,
            final(self).score == 0,
            final(self).left == START_LIVES,
            forall|i: int| 0 <= i < BLOCK_NUM ==> !(#[trigger] final(self).block_index@[i]),
            final(self).block_list@.len() == old(self).block_list@.len(),
            forall|j: int|
                0 <= j < old(self).block_list@.len() ==> (#[trigger] final(self).block_list@[j])
                    == (StateBlock {
                    block: Block {
                        timer_tick: spec_stopped(old(self).block_list@[j].block.timer_tick),
                        ..old(self).block_list@[j].block
                    },
                    index: old(self).block_list@[j].index,
                }),
            final(self).ball_list == old(self).ball_list,
            final(self).ball_ready_timer == old(self).ball_ready_timer,
            final(self).power_record_bar == old(self).power_record_bar,
            final(self).rng == old(self).rng,
            final(self).window_size == old(self).window_size,
            final(self).delta_length == old(self).delta_length,
            final(self).block_generate_time_ticker == spec_started(
                spec_restored(old(self).block_generate_time_ticker, SHORT_GENERATE),
                now,
            ),
    {
        self.status = GameStatus::Running;
        self.score = 0;
        self.left = START_LIVES;
        let n = self.block_list.len();
        let mut j: usize = 0;
        while j < n
            invariant
                n == self.block_list@.len(),
                n == old(self).block_list@.len(),
                j <= n,
                forall|k: int|
                    0 <= k < j ==> (#[trigger] self.block_list@[k]) == (StateBlock {
                        block: Block {
                            timer_tick: spec_stopped(old(self).block_list@[k].block.timer_tick),
                            ..old(self).block_list@[k].block
                        },
                        index: old(self).block_list@[k].index,
                    }),
                forall|k: int|
                    j <= k < n ==> (#[trigger] self.block_list@[k]) == old(self).block_list@[k],
                self.block_index == old(self).block_index,
                self.ball_list == old(self).ball_list,
                self.ball_ready_timer == old(self).ball_ready_timer,
                self.block_generate_time_ticker == old(self).block_generate_time_ticker,
                self.power_record_bar == old(self).power_record_bar,
                self.rng == old(self).rng,
                self.window_size == old(self).window_size,
                self.delta_length == old(self).delta_length,
                self.status == GameStatus::Running,
                self.score == 0,
                self.left == START_LIVES,
            decreases n - j,
        {
            let mut sb = self.block_list[j];
            sb.block.stop();
            self.block_list[j] = sb;
            j = j + 1;
        }
        let mut i: usize = 0;
        while i < BLOCK_NUM
            invariant
                i <= BLOCK_NUM,
                self.block_index@.len() == BLOCK_NUM,
                old(self).block_index@.len() == BLOCK_NUM,
                forall|k: int| 0 <= k < i ==> !(#[trigger] self.block_index@[k]),
                n == self.block_list@.len(),
                n == old(self).block_list@.len(),
                forall|k: int|
                    0 <= k < n ==> (#[trigger] self.block_list@[k]) == (StateBlock {
                        block: Block {
                            timer_tick: spec_stopped(old(self).block_list@[k].block.timer_tick),
                            ..old(self).block_list@[k].block
                        },
                        index: old(self).block_list@[k].index,
                    }),
                self.ball_list == old(self).ball_list,
                self.ball_ready_timer == old(self).ball_ready_timer,
                self.block_generate_time_ticker == old(self).block_generate_time_ticker,
                self.power_record_bar == old(self).power_record_bar,
                self.rng == old(self).rng,
                self.window_size == old(self).window_size,
                self.delta_length == old(self).delta_length,
                self.status == GameStatus::Running,
                self.score == 0,
                self.left == START_LIVES,
            decreases BLOCK_NUM - i,
        {
            self.block_index[i] = false;
            i = i + 1;
        }
        proof {
            lemma_count_all_free(self.block_index@);
            assert(self.wf());
        }
        self.restore_timer();
        self.block_generate_time_ticker.start(now);
    }
}


/// Position of the first inactive pooled ball, if any.
fn first_inactive(list: &Vec<StateBall>) -> (r: Option<usize>)
    ensures
        match r {
            Some(j) => j < list@.len() && !list@[j as int].ball.alive && forall|k: int|
                0 <= k < j ==> (#[trigger] list@[k]).ball.alive,
            None => forall|k: int| 0 <= k < list@.len() ==> (#[trigger] list@[k]).ball.alive,
        },
{
    let n = list.len();
    let mut j: usize = 0;
    while j < n
        invariant
            n == list@.len(),
            j <= n,
            forall|k: int| 0 <= k < j ==> (#[trigger] list@[k]).ball.alive,
        decreases n - j,
    {
        if !list[j].ball.is_avtive() {
            return Some(j);
        }
        j = j + 1;
    }
    None
}

/// One launch that reuses inactive pool entry `j`: the first inactive ball
/// is re-armed as the launched ball; its extra-life timer is untouched.
pub open spec fn spec_ball_reuse(pre: GameState, post: GameState, x: i64, y: i64, j: int) -> bool {
    &&& 0 <= j < pre.ball_list@.len()
    &&& !pre.ball_list@[j].ball.alive
    &&& forall|k: int| 0 <= k < j ==> (#[trigger] pre.ball_list@[k]).ball.alive
    &&& post.ball_list@ == pre.ball_list@.update(
        j,
        StateBall {
            ball: pre.spec_launched_ball(x, y),
            extra_live_timer: pre.ball_list@[j].extra_live_timer,
        },
    )
}

/// One launch that allocates: every pooled ball was active, so the
/// launched ball is pushed with a fresh extra-life timer.
pub open spec fn spec_ball_push(pre: GameState, post: GameState, x: i64, y: i64) -> bool {
    &&& forall|k: int| 0 <= k < pre.ball_list@.len() ==> (#[trigger] pre.ball_list@[k]).ball.alive
    &&& post.ball_list@ == pre.ball_list@.push(
        StateBall {
            ball: pre.spec_launched_ball(x, y),
            extra_live_timer: spec_new(EXTRA_LIVE),
        },
    )
}

impl GameState {
    /// Drag vector of a pointer release at `(x, y)`: from the launch point
    /// at the bottom center of the window to the release point.
    pub open spec fn spec_drag(self, x: i64, y: i64) -> (int, int) {
        (x - self.window_size.0 / 2, y - self.window_size.1)
    }

    /// The ball launched by a release at `(x, y)`: it starts at the bottom
    /// center at launch height; its planar speed is the maximum speed
    /// scaled by the charge power (capped at full), pointed along the drag
    /// vector; its height velocity grows with the power alone.
    pub open spec fn spec_launched_ball(self, x: i64, y: i64) -> Ball {
        let dx = self.spec_drag(x, y).0;
        let dy = self.spec_drag(x, y).1;
        let len = vec_len_floor(dx, dy);
        let power = self.power_record_bar.time_tick.value_spec();
        let alpha = if power <= VALUE_SCALE {
            power
        } else {
            VALUE_SCALE as int
        };
        let speed = self.spec_max_vel() * alpha / (VALUE_SCALE as int);
        Ball {
            radius: (self.delta_length / 5) as i64,
            x: (self.window_size.0 / 2) as i64,
            y: self.window_size.1,
            height: crate::ball::BALL_HEIGHT_INIT,
            vx: rescaled(dx, speed, len) as i64,
            vy: rescaled(dy, speed, len) as i64,
            vz: ((HEIGHT_VEL_UNIT as int) * alpha) as i64,
            alive: true,
        }
    }

    /// Launch a ball toward the release point `point`, with the speed the
    /// charge power earned: the first inactive pooled ball is re-armed —
    /// allocating only when every ball is active — and the launch cooldown
    /// starts. A release exactly on the launch point has a zero drag
    /// vector and is silently ignored.
    #[verifier::rlimit(50)]
    pub fn throw_ball(&mut self, point: (i64, i64), now: u64)
        requires
            old(self).wf(),
            -GEOM_LIMIT <= point.0 <= GEOM_LIMIT,
            -GEOM_LIMIT <= point.1 <= GEOM_LIMIT,
            now <= TIME_MAX,
        ensures
            final(self).wf(),
            final(self).block_generate_time_ticker == old(self).block_generate_time_ticker,
            final(self).power_record_bar == old(self).power_record_bar,
            final(self).block_list == old(self).block_list,
            final(self).block_index == old(self).block_index,
            final(self).delta_length == old(self).delta_length,
            final(self).window_size == old(self).window_size,
            final(self).status == old(self).status,
            final(self).score == old(self).score,
            final(self).left == old(self).left,
            final(self).rng == old(self).rng,
            old(self).spec_drag(point.0, point.1) == (0int, 0int) ==> *final(self) == *old(self),
            old(self).spec_drag(point.0, point.1) != (0int, 0int) ==> ({
                &&& final(self).ball_ready_timer == spec_started(old(self).ball_ready_timer, now)
                &&& (exists|j: int|
                    #[trigger] spec_ball_reuse(*old(self), *final(self), point.0, point.1, j))
                    || spec_ball_push(*old(self), *final(self), point.0, point.1)
            }),
            // pool reuse: an inactive ball means the pool does not grow
            old(self).spec_drag(point.0, point.1) != (0int, 0int) && (exists|j: int|
                0 <= j < old(self).ball_list@.len() && !(#[trigger] old(
                    self,
                ).ball_list@[j]).ball.alive) ==> final(self).ball_list@.len() == old(
                self,
            ).ball_list@.len(),
    {
        let dx = point.0 - ((self.window_size.0 as u64) / 2) as i64;
        let dy = point.1 - self.window_size.1;
        if dx == 0 && dy == 0 {
            return ;
        }
        let ghost dx0 = dx as int;
        let ghost dy0 = dy as int;
        let dxa: u64 = if dx >= 0 {
            dx as u64
        } else {
            (-dx) as u64
        };
        let dya: u64 = if dy >= 0 {
            dy as u64
        } else {
            (-dy) as u64
        };
        let len = isqrt64(sq_coord(dxa) + sq_coord(dya));
        proof {
            assert(dxa * dxa + dya * dya >= 1) by (nonlinear_arith)
                requires
                    dxa >= 0,
                    dya >= 0,
                    dxa >= 1 || dya >= 1,
            ;
            crate::num::lemma_sqrt_floor_bounds((dxa * dxa + dya * dya) as int);
            if len == 0 {
                assert((len + 1) * (len + 1) == 1) by (nonlinear_arith)
                    requires
                        len == 0u64,
                ;
            }
            assert(len >= 1);
            assert(dxa as int * dxa as int == dx0 * dx0) by (nonlinear_arith)
                requires
                    dxa as int == dx0 || dxa as int == -dx0,
            ;
            assert(dya as int * dya as int == dy0 * dy0) by (nonlinear_arith)
                requires
                    dya as int == dy0 || dya as int == -dy0,
            ;
            assert(dx0 == old(self).spec_drag(point.0, point.1).0);
            assert(dy0 == old(self).spec_drag(point.0, point.1).1);
        }
        let max_vel = self.get_ball_max_vel();
        let power = self.power_record_bar.get_value();
        let alpha = Ball::get_vel_alpha(power);
        proof {
            vstd::arithmetic::mul::lemma_mul_upper_bound(
                max_vel as int,
                GEOM_LIMIT as int,
                alpha as int,
                VALUE_SCALE as int,
            );
            vstd::arithmetic::mul::lemma_mul_inequality(
                alpha as int,
                VALUE_SCALE as int,
                max_vel as int,
            );
            vstd::arithmetic::div_mod::lemma_div_is_ordered(
                max_vel as int * alpha as int,
                max_vel as int * VALUE_SCALE as int,
                VALUE_SCALE as int,
            );
            vstd::arithmetic::div_mod::lemma_div_multiples_vanish(
                max_vel as int,
                VALUE_SCALE as int,
            );
        }
        let speed = (max_vel as u64) * alpha / VALUE_SCALE;
        proof {
            vstd::arithmetic::mul::lemma_mul_upper_bound(
                dxa as int,
                2 * GEOM_LIMIT as int,
                speed as int,
                GEOM_LIMIT as int,
            );
            vstd::arithmetic::mul::lemma_mul_upper_bound(
                dya as int,
                2 * GEOM_LIMIT as int,
                speed as int,
                GEOM_LIMIT as int,
            );
            vstd::arithmetic::mul::lemma_mul_nonnegative(dxa as int, speed as int);
            vstd::arithmetic::mul::lemma_mul_nonnegative(dya as int, speed as int);
            vstd::arithmetic::div_mod::lemma_div_nonincreasing(
                dxa as int * speed as int,
                len as int,
            );
            vstd::arithmetic::div_mod::lemma_div_nonincreasing(
                dya as int * speed as int,
                len as int,
            );
            vstd::arithmetic::div_mod::lemma_div_is_ordered(
                0,
                dxa as int * speed as int,
                len as int,
            );
            vstd::arithmetic::div_mod::lemma_div_is_ordered(
                0,
                dya as int * speed as int,
                len as int,
            );
        }
        let sx = dxa * speed / len;
        let sy = dya * speed / len;
        let vx = if dx >= 0 {
            sx as i64
        } else {
            -(sx as i64)
        };
        let vy = if dy >= 0 {
            sy as i64
        } else {
            -(sy as i64)
        };
        let vz = (HEIGHT_VEL_UNIT * alpha) as i64;
        let radius = ((self.delta_length as u64) / 5) as i64;
        let bx = ((self.window_size.0 as u64) / 2) as i64;
        let by = self.window_size.1;
        self.ball_ready_timer.start(now);
        let found = first_inactive(&self.ball_list);
        match found {
            Some(j) => {
                let mut sb = self.ball_list[j];
                sb.ball.restore(radius, (bx, by), (vx, vy, vz));
                self.ball_list[j] = sb;
                proof {
                    assert(self.ball_list@[j as int].ball == old(self).spec_launched_ball(
                        point.0,
                        point.1,
                    ));
                    assert(spec_ball_reuse(*old(self), *self, point.0, point.1, j as int));
                    assert(balls_wf_of(self.ball_list@)) by {
                        assert(forall|k: int|
                            0 <= k < self.ball_list@.len() && k != j ==> self.ball_list@[k] == old(
                                self,
                            ).ball_list@[k]);
                    }
                }
            },
            None => {
                self.ball_list.push(
                    StateBall {
                        ball: Ball::new(radius, (bx, by), (vx, vy, vz)),
                        extra_live_timer: Timer::new(EXTRA_LIVE),
                    },
                );
                proof {
                    assert(self.ball_list@.last().ball == old(self).spec_launched_ball(
                        point.0,
                        point.1,
                    ));
                    assert(spec_ball_push(*old(self), *self, point.0, point.1));
                    assert(balls_wf_of(self.ball_list@)) by {
                        assert(forall|k: int|
                            0 <= k < self.ball_list@.len() - 1 ==> self.ball_list@[k] == old(
                                self,
                            ).ball_list@[k]);
                    }
                }
            },
        }
    }
}


/// Number of pool entries with an unconsumed expiry event.
pub open spec fn count_pending(s: Seq<StateBlock>) -> int
    decreases s.len(),
{
    if s.len() == 0 {
        0
    } else {
        count_pending(s.drop_last()) + if s.last().block.timer_tick.pending() {
            1int
        } else {
            0int
        }
    }
}

proof fn lemma_count_pending_bounds(s: Seq<StateBlock>)
    ensures
        0 <= count_pending(s) <= s.len(),
    decreases s.len(),
{
    if s.len() > 0 {
        lemma_count_pending_bounds(s.drop_last());
    }
}

proof fn lemma_count_pending_step(s: Seq<StateBlock>, j: int)
    requires
        0 <= j < s.len(),
    ensures
        count_pending(s.take(j + 1)) == count_pending(s.take(j)) + if s[j].block.timer_tick
            .pending() {
            1int
        } else {
            0int
        },
{
    assert(s.take(j + 1).drop_last() =~= s.take(j));
    assert(s.take(j + 1).last() == s[j]);
}

/// Slot `i` is freed by expiry processing: some pool entry there has an
/// unconsumed expiry event.
pub open spec fn slot_expired(blocks: Seq<StateBlock>, i: int) -> bool {
    exists|j: int|
        0 <= j < blocks.len() && (#[trigger] blocks[j]).block.timer_tick.pending()
            && blocks[j].index == i
}

proof fn lemma_slot_expired_step(blocks: Seq<StateBlock>, j: int, i: int)
    requires
        0 <= j < blocks.len(),
    ensures
        slot_expired(blocks.take(j + 1), i) == (slot_expired(blocks.take(j), i) || (
        blocks[j].block.timer_tick.pending() && blocks[j].index == i)),
{
    assert(blocks.take(j + 1) =~= blocks.take(j).push(blocks[j]));
    if slot_expired(blocks.take(j), i) {
        let k = choose|k: int|
            0 <= k < blocks.take(j).len() && (#[trigger] blocks.take(j)[k]).block.timer_tick
                .pending() && blocks.take(j)[k].index == i;
        assert(blocks.take(j + 1)[k] == blocks.take(j)[k]);
        assert(slot_expired(blocks.take(j + 1), i));
    }
    if blocks[j].block.timer_tick.pending() && blocks[j].index == i {
        assert(blocks.take(j + 1)[j] == blocks[j]);
        assert(slot_expired(blocks.take(j + 1), i));
    }
    if slot_expired(blocks.take(j + 1), i) {
        let k = choose|k: int|
            0 <= k < blocks.take(j + 1).len() && (#[trigger] blocks.take(j + 1)[k]).block
                .timer_tick.pending() && blocks.take(j + 1)[k].index == i;
        if k < j {
            assert(blocks.take(j)[k] == blocks.take(j + 1)[k]);
            assert(slot_expired(blocks.take(j), i));
        }
    }
}

impl GameState {
    /// Consume every pooled block's expiry event. Each expired block frees
    /// its grid slot; while the game is Running each expiry also costs one
    /// life, never going below zero, and the moment lives reach zero the
    /// game transitions to GameOver. Outside Running, lives and status are
    /// untouched.
    #[verifier::rlimit(50)]
    fn process_block_events(&mut self)
        requires
            old(self).wf(),
        ensures
            final(self).wf(),
            final(self).block_list@.len() == old(self).block_list@.len(),
            forall|k: int|
                0 <= k < old(self).block_list@.len() ==> (#[trigger] final(self).block_list@[k])
                    == (StateBlock {
                    block: Block {
                        timer_tick: spec_acked(old(self).block_list@[k].block.timer_tick),
                        ..old(self).block_list@[k].block
                    },
                    index: old(self).block_list@[k].index,
                }),
            final(self).block_index@.len() == BLOCK_NUM,
            forall|i: int|
                0 <= i < BLOCK_NUM ==> (#[trigger] final(self).block_index@[i]) == (old(
                    self,
                ).block_index@[i] && !slot_expired(old(self).block_list@, i)),
            ({
                let ex = count_pending(old(self).block_list@);
                if old(self).status == GameStatus::Running {
                    &&& final(self).left == if ex <= old(self).left {
                        old(self).left - ex
                    } else {
                        0int
                    }
                    &&& final(self).status == if ex >= old(self).left {
                        GameStatus::GameOver
                    } else {
                        GameStatus::Running
                    }
                } else {
                    final(self).left == old(self).left && final(self).status == old(self).status
                }
            }),
            final(self).score == old(self).score,
            final(self).ball_ready_timer == old(self).ball_ready_timer,
            final(self).block_generate_time_ticker == old(self).block_generate_time_ticker,
            final(self).power_record_bar == old(self).power_record_bar,
            final(self).ball_list == old(self).ball_list,
            final(self).rng == old(self).rng,
            final(self).window_size == old(self).window_size,
            final(self).delta_length == old(self).delta_length,
    {
        let n = self.block_list.len();
        let mut j: usize = 0;
        while j < n
            invariant
                old(self).wf(),
                n == self.block_list@.len(),
                n == old(self).block_list@.len(),
                j <= n,
                forall|k: int|
                    0 <= k < j ==> (#[trigger] self.block_list@[k]) == (StateBlock {
                        block: Block {
                            timer_tick: spec_acked(old(self).block_list@[k].block.timer_tick),
                            ..old(self).block_list@[k].block
                        },
                        index: old(self).block_list@[k].index,
                    }),
                forall|k: int|
                    j <= k < n ==> (#[trigger] self.block_list@[k]) == old(self).block_list@[k],
                self.block_index@.len() == BLOCK_NUM,
                forall|i: int|
                    0 <= i < BLOCK_NUM ==> (#[trigger] self.block_index@[i]) == (old(
                        self,
                    ).block_index@[i] && !slot_expired(old(self).block_list@.take(j as int), i)),
                ({
                    let ex = count_pending(old(self).block_list@.take(j as int));
                    if old(self).status == GameStatus::Running {
                        &&& self.left == if ex <= old(self).left {
                            old(self).left - ex
                        } else {
                            0int
                        }
                        &&& self.status == if ex >= old(self).left {
                            GameStatus::GameOver
                        } else {
                            GameStatus::Running
                        }
                    } else {
                        self.left == old(self).left && self.status == old(self).status
                    }
                }),
                self.score == old(self).score,
                self.ball_ready_timer == old(self).ball_ready_timer,
                self.block_generate_time_ticker == old(self).block_generate_time_ticker,
                self.power_record_bar == old(self).power_record_bar,
                self.ball_list == old(self).ball_list,
                self.rng == old(self).rng,
                self.window_size == old(self).window_size,
                self.delta_length == old(self).delta_length,
            decreases n - j,
        {
            proof {
                lemma_count_pending_step(old(self).block_list@, j as int);
                assert forall|i: int| 0 <= i < BLOCK_NUM implies slot_expired(
                    old(self).block_list@.take(j as int + 1),
                    i,
                ) == (slot_expired(old(self).block_list@.take(j as int), i) || (old(
                    self,
                ).block_list@[j as int].block.timer_tick.pending() && old(
                    self,
                ).block_list@[j as int].index == i)) by {
                    lemma_slot_expired_step(old(self).block_list@, j as int, i);
                }
            }
            let mut sb = self.block_list[j];
            let expired = sb.block.get_event();
            self.block_list[j] = sb;
            if expired {
                let slot = sb.index;
                self.block_index[slot] = false;
                if self.status == GameStatus::Running {
                    if self.left >= 1 {
                        self.left = self.left - 1;
                    }
                    if self.left == 0 {
                        self.status = GameStatus::GameOver;
                    }
                }
            }
            j = j + 1;
        }
        proof {
            assert(old(self).block_list@.take(n as int) =~= old(self).block_list@);
            lemma_count_pending_bounds(old(self).block_list@);
            lemma_expiry_wf(*old(self), *self);
        }
    }
}

/// The invariants survive expiry processing: acknowledging events only
/// turns pending blocks into stopped ones, and every slot that is freed
/// belonged to a pending block, which no other live block shares.
proof fn lemma_expiry_wf(pre: GameState, post: GameState)
    requires
        pre.wf(),
        post.block_list@.len() == pre.block_list@.len(),
        forall|k: int|
            0 <= k < pre.block_list@.len() ==> (#[trigger] post.block_list@[k]) == (StateBlock {
                block: Block {
                    timer_tick: spec_acked(pre.block_list@[k].block.timer_tick),
                    ..pre.block_list@[k].block
                },
                index: pre.block_list@[k].index,
            }),
        post.block_index@.len() == BLOCK_NUM,
        forall|i: int|
            0 <= i < BLOCK_NUM ==> (#[trigger] post.block_index@[i]) == (pre.block_index@[i]
                && !slot_expired(pre.block_list@, i)),
    ensures
        blocks_wf_of(post.block_list@),
        occupancy_ok_of(post.block_list@, post.block_index@),
        slots_unique_of(post.block_list@),
{
    assert forall|j: int|
        0 <= j < post.block_list@.len() implies (#[trigger] post.block_list@[j]).block.wf()
        && post.block_list@[j].index < BLOCK_NUM by {
        assert(pre.block_list@[j].block.wf());
    }
    assert forall|j: int|
        0 <= j < post.block_list@.len() && !(#[trigger] post.block_list@[j]).block.timer_tick
            .stopped_state() implies post.block_index@[post.block_list@[j].index as int] by {
        let b = pre.block_list@[j];
        assert(!b.block.timer_tick.stopped_state());
        assert(!b.block.timer_tick.pending());
        assert(pre.block_index@[b.index as int]);
        if slot_expired(pre.block_list@, b.index as int) {
            let k = choose|k: int|
                0 <= k < pre.block_list@.len() && (#[trigger] pre.block_list@[k]).block.timer_tick
                    .pending() && pre.block_list@[k].index == b.index;
            assert(k != j);
            assert(!pre.block_list@[k].block.timer_tick.stopped_state());
            assert(pre.block_list@[k].index != pre.block_list@[j].index);
        }
    }
    assert forall|j: int, k: int|
        0 <= j < k < post.block_list@.len() && !(#[trigger] post.block_list@[j]).block.timer_tick
            .stopped_state() && !(#[trigger] post.block_list@[k]).block.timer_tick.stopped_state()
        implies post.block_list@[j].index != post.block_list@[k].index by {
        assert(!pre.block_list@[j].block.timer_tick.stopped_state());
        assert(!pre.block_list@[k].block.timer_tick.stopped_state());
    }
}


/// A ball that has just landed: still alive, but on the ground.
pub open spec fn spec_landed(b: Ball) -> bool {
    b.alive && b.height <= 0
}

/// Number of pooled balls that have just landed.
pub open spec fn count_landed(s: Seq<StateBall>) -> int
    decreases s.len(),
{
    if s.len() == 0 {
        0
    } else {
        count_landed(s.drop_last()) + if spec_landed(s.last().ball) {
            1int
        } else {
            0int
        }
    }
}

proof fn lemma_count_landed_bounds(s: Seq<StateBall>)
    ensures
        0 <= count_landed(s) <= s.len(),
    decreases s.len(),
{
    if s.len() > 0 {
        lemma_count_landed_bounds(s.drop_last());
    }
}

proof fn lemma_count_landed_step(s: Seq<StateBall>, i: int)
    requires
        0 <= i < s.len(),
    ensures
        count_landed(s.take(i + 1)) == count_landed(s.take(i)) + if spec_landed(s[i].ball) {
            1int
        } else {
            0int
        },
{
    assert(s.take(i + 1).drop_last() =~= s.take(i));
    assert(s.take(i + 1).last() == s[i]);
}

/// Stopping one live block and freeing its slot keeps the pool invariants:
/// no other live block shares that slot.
proof fn lemma_stop_one_wf(pre: GameState, post: GameState, b: int)
    requires
        blocks_wf_of(pre.block_list@),
        occupancy_ok_of(pre.block_list@, pre.block_index@),
        slots_unique_of(pre.block_list@),
        pre.block_index@.len() == BLOCK_NUM,
        0 <= b < pre.block_list@.len(),
        !pre.block_list@[b].block.timer_tick.stopped_state(),
        post.block_list@ == pre.block_list@.update(
            b,
            StateBlock {
                block: Block {
                    timer_tick: spec_stopped(pre.block_list@[b].block.timer_tick),
                    ..pre.block_list@[b].block
                },
                index: pre.block_list@[b].index,
            },
        ),
        post.block_index@ == pre.block_index@.update(pre.block_list@[b].index as int, false),
    ensures
        blocks_wf_of(post.block_list@),
        occupancy_ok_of(post.block_list@, post.block_index@),
        slots_unique_of(post.block_list@),
{
    assert forall|j: int|
        0 <= j < post.block_list@.len() implies (#[trigger] post.block_list@[j]).block.wf()
        && post.block_list@[j].index < BLOCK_NUM by {
        assert(pre.block_list@[j].block.wf());
    }
    assert forall|j: int|
        0 <= j < post.block_list@.len() && !(#[trigger] post.block_list@[j]).block.timer_tick
            .stopped_state() implies post.block_index@[post.block_list@[j].index as int] by {
        assert(j != b);
        assert(post.block_list@[j] == pre.block_list@[j]);
        assert(pre.block_index@[pre.block_list@[j].index as int]);
        assert(pre.block_list@[j].index != pre.block_list@[b].index);
    }
    assert forall|j: int, k: int|
        0 <= j < k < post.block_list@.len() && !(#[trigger] post.block_list@[j]).block.timer_tick
            .stopped_state() && !(#[trigger] post.block_list@[k]).block.timer_tick.stopped_state()
        implies post.block_list@[j].index != post.block_list@[k].index by {
        assert(!pre.block_list@[j].block.timer_tick.stopped_state());
        assert(!pre.block_list@[k].block.timer_tick.stopped_state());
    }
}


/// Everything one landing-resolution pass guarantees, from state `pre` to
/// state `post`: every just-landed ball is disabled exactly once (its
/// extra-life timer started when it missed), blocks only ever get stopped
/// and only when some landed ball hit them, grid slots are only freed, the
/// score grows by at most one per landed ball, and the cue reports the
/// outcome: Quiet iff nothing landed, Boom iff something scored.
pub open spec fn spec_landing_rel(
    pre: GameState,
    post: GameState,
    now: u64,
    cue: LandingCue,
) -> bool {
    &&& post.ball_list@.len() == pre.ball_list@.len()
    &&& forall|j: int|
        0 <= j < pre.ball_list@.len() && spec_landed(pre.ball_list@[j].ball) ==> ((
        #[trigger] post.ball_list@[j]).ball == (Ball {
            alive: false,
            ..pre.ball_list@[j].ball
        }) && (post.ball_list@[j].extra_live_timer == pre.ball_list@[j].extra_live_timer
            || post.ball_list@[j].extra_live_timer == spec_started(
            pre.ball_list@[j].extra_live_timer,
            now,
        )))
    &&& forall|j: int|
        0 <= j < pre.ball_list@.len() && !spec_landed(pre.ball_list@[j].ball) ==> (
        #[trigger] post.ball_list@[j]) == pre.ball_list@[j]
    &&& post.block_list@.len() == pre.block_list@.len()
    &&& forall|b: int|
        0 <= b < pre.block_list@.len() ==> ((#[trigger] post.block_list@[b])
            == pre.block_list@[b] || post.block_list@[b] == (StateBlock {
            block: Block {
                timer_tick: spec_stopped(pre.block_list@[b].block.timer_tick),
                ..pre.block_list@[b].block
            },
            index: pre.block_list@[b].index,
        }))
    &&& forall|b: int|
        0 <= b < pre.block_list@.len() && (#[trigger] post.block_list@[b])
            != pre.block_list@[b] ==> !pre.block_list@[b].block.timer_tick.stopped_state() && (
        exists|j: int|
            0 <= j < pre.ball_list@.len() && spec_landed((#[trigger] pre.ball_list@[j]).ball)
                && spec_hit(
                pre.block_list@[b].block,
                (pre.ball_list@[j].ball.x, pre.ball_list@[j].ball.y),
                pre.ball_list@[j].ball.radius,
            ))
    &&& post.block_index@.len() == BLOCK_NUM
    &&& forall|i: int|
        0 <= i < BLOCK_NUM && (#[trigger] post.block_index@[i]) ==> pre.block_index@[i]
    &&& pre.score <= post.score <= pre.score + count_landed(pre.ball_list@)
    &&& (cue == LandingCue::Quiet) <==> count_landed(pre.ball_list@) == 0
    &&& (cue == LandingCue::Boom) <==> post.score > pre.score
    &&& (count_landed(pre.ball_list@) == 0 ==> post == pre)
    &&& post.status == pre.status
    &&& post.left == pre.left
    &&& post.ball_ready_timer == pre.ball_ready_timer
    &&& post.block_generate_time_ticker == pre.block_generate_time_ticker
    &&& post.power_record_bar == pre.power_record_bar
    &&& post.rng == pre.rng
    &&& post.window_size == pre.window_size
    &&& post.delta_length == pre.delta_length
}

impl GameState {
    /// First pooled block that is alive and hit by a circle at `point`
    /// with the given radius — the collision search order is pool order.
    pub fn find_hit_block(&self, point: (i64, i64), radius: i64) -> (r: Option<usize>)
        requires
            blocks_wf_of(self.block_list@),
            0 <= radius <= GEOM_LIMIT,
        ensures
            match r {
                Some(b) => {
                    &&& b < self.block_list@.len()
                    &&& !self.block_list@[b as int].block.timer_tick.stopped_state()
                    &&& spec_hit(self.block_list@[b as int].block, point, radius)
                    &&& forall|k: int|
                        0 <= k < b ==> ((#[trigger] self.block_list@[k]).block.timer_tick
                            .stopped_state() || !spec_hit(
                            self.block_list@[k].block,
                            point,
                            radius,
                        ))
                },
                None => forall|k: int|
                    0 <= k < self.block_list@.len() ==> ((#[trigger] self.block_list@[k]).block
                        .timer_tick.stopped_state() || !spec_hit(
                        self.block_list@[k].block,
                        point,
                        radius,
                    )),
            },
    {
        let n = self.block_list.len();
        let mut k: usize = 0;
        while k < n
            invariant
                n == self.block_list@.len(),
                k <= n,
                blocks_wf_of(self.block_list@),
                0 <= radius <= GEOM_LIMIT,
                forall|m: int|
                    0 <= m < k ==> ((#[trigger] self.block_list@[m]).block.timer_tick
                        .stopped_state() || !spec_hit(self.block_list@[m].block, point, radius)),
            decreases n - k,
        {
            let sb = self.block_list[k];
            if !sb.block.is_stopped() && sb.block.is_hit_cricle(point, radius) {
                return Some(k);
            }
            k = k + 1;
        }
        None
    }

    /// Resolve every ball that has just landed, in pool order: the ball is
    /// taken out of play, and the first live block it hits — if any — is
    /// destroyed, its slot freed and the score incremented; a ball that
    /// hits nothing keeps its landing spot visible by starting its
    /// extra-life timer. The returned cue tells the caller what to play.
    #[verifier::rlimit(100)]
    fn process_landings(&mut self, now: u64) -> (cue: LandingCue)
        requires
            old(self).wf(),
            now <= TIME_MAX,
            old(self).score + old(self).ball_list@.len() <= u64::MAX,
        ensures
            final(self).wf(),
            spec_landing_rel(*old(self), *final(self), now, cue),
    {
        let n = self.ball_list.len();
        let mut i: usize = 0;
        let mut any_landed = false;
        let mut any_hit = false;
        while i < n
            invariant
                old(self).wf(),
                self.wf(),
                now <= TIME_MAX,
                n == self.ball_list@.len(),
                n == old(self).ball_list@.len(),
                i <= n,
                old(self).score + n <= u64::MAX,
                forall|j: int|
                    0 <= j < i && spec_landed(old(self).ball_list@[j].ball) ==> ((
                    #[trigger] self.ball_list@[j]).ball == (Ball {
                        alive: false,
                        ..old(self).ball_list@[j].ball
                    }) && (self.ball_list@[j].extra_live_timer == old(
                        self,
                    ).ball_list@[j].extra_live_timer || self.ball_list@[j].extra_live_timer
                        == spec_started(old(self).ball_list@[j].extra_live_timer, now))),
                forall|j: int|
                    0 <= j < i && !spec_landed(old(self).ball_list@[j].ball) ==> (
                    #[trigger] self.ball_list@[j]) == old(self).ball_list@[j],
                forall|j: int|
                    i <= j < n ==> (#[trigger] self.ball_list@[j]) == old(self).ball_list@[j],
                self.block_list@.len() == old(self).block_list@.len(),
                forall|b: int|
                    0 <= b < old(self).block_list@.len() ==> ((#[trigger] self.block_list@[b])
                        == old(self).block_list@[b] || self.block_list@[b] == (StateBlock {
                        block: Block {
                            timer_tick: spec_stopped(old(self).block_list@[b].block.timer_tick),
                            ..old(self).block_list@[b].block
                        },
                        index: old(self).block_list@[b].index,
                    })),
                forall|b: int|
                    0 <= b < old(self).block_list@.len() && (#[trigger] self.block_list@[b])
                        != old(self).block_list@[b] ==> !old(self).block_list@[b].block.timer_tick
                        .stopped_state() && (exists|j: int|
                        0 <= j < i && spec_landed((#[trigger] old(self).ball_list@[j]).ball)
                            && spec_hit(
                            old(self).block_list@[b].block,
                            (old(self).ball_list@[j].ball.x, old(self).ball_list@[j].ball.y),
                            old(self).ball_list@[j].ball.radius,
                        )),
                self.block_index@.len() == BLOCK_NUM,
                forall|s2: int|
                    0 <= s2 < BLOCK_NUM && (#[trigger] self.block_index@[s2]) ==> old(
                        self,
                    ).block_index@[s2],
                old(self).score <= self.score <= old(self).score + count_landed(
                    old(self).ball_list@.take(i as int),
                ),
                any_landed == (count_landed(old(self).ball_list@.take(i as int)) > 0),
                any_hit == (self.score > old(self).score),
                !any_landed ==> *self == *old(self),
                self.status == old(self).status,
                self.left == old(self).left,
                self.ball_ready_timer == old(self).ball_ready_timer,
                self.block_generate_time_ticker == old(self).block_generate_time_ticker,
                self.power_record_bar == old(self).power_record_bar,
                self.rng == old(self).rng,
                self.window_size == old(self).window_size,
                self.delta_length == old(self).delta_length,
            decreases n - i,
        {
            proof {
                lemma_count_landed_step(old(self).ball_list@, i as int);
                lemma_count_landed_bounds(old(self).ball_list@.take(i as int));
            }
            let sb0 = self.ball_list[i];
            if sb0.ball.is_avtive() && sb0.ball.is_on_ground() {
                let mut sb = sb0;
                sb.ball.disable();
                any_landed = true;
                let hit = self.find_hit_block(sb.ball.get_pos(), sb.ball.get_radius());
                match hit {
                    Some(bidx) => {
                        let ghost pre_mid = *self;
                        let mut blk = self.block_list[bidx];
                        proof {
                            assert(blk == old(self).block_list@[bidx as int]);
                        }
                        blk.block.stop();
                        let slot = blk.index;
                        self.block_list[bidx] = blk;
                        self.block_index[slot] = false;
                        self.score = self.score + 1;
                        any_hit = true;
                        proof {
                            lemma_stop_one_wf(pre_mid, *self, bidx as int);
                        }
                    },
                    None => {
                        sb.extra_live_timer.start(now);
                    },
                }
                self.ball_list[i] = sb;
                proof {
                    assert forall|k: int|
                        0 <= k < n implies (#[trigger] self.ball_list@[k]).extra_live_timer.wf()
                        && 0 <= self.ball_list@[k].ball.radius <= GEOM_LIMIT by {
                        assert(balls_wf_of(old(self).ball_list@));
                        assert(old(self).ball_list@[k].extra_live_timer.wf());
                    }
                    assert(balls_wf_of(self.ball_list@));
                }
            }
            i = i + 1;
        }
        proof {
            assert(old(self).ball_list@.take(n as int) =~= old(self).ball_list@);
        }
        if !any_landed {
            LandingCue::Quiet
        } else if any_hit {
            LandingCue::Boom
        } else {
            LandingCue::Miss
        }
    }
}


/// One tick of a pooled ball: the flight advances by one Euler step, and
/// the extra-life timer advances with its event consumed unseen.
pub open spec fn spec_ball_ticked(sb: StateBall, now: u64, dt: int) -> StateBall {
    let b = if !in_flight(sb.ball) {
        sb.ball
    } else if step_fits(sb.ball, dt) {
        spec_stepped(sb.ball, dt)
    } else {
        Ball { alive: false, ..sb.ball }
    };
    StateBall {
        ball: b,
        extra_live_timer: spec_acked(crate::timer::spec_updated(sb.extra_live_timer, now)),
    }
}

impl StateBall {
    /// Advance the flight and the extra-life timer by one tick; the
    /// extra-life timer's event is consumed without anyone listening.
    fn update(&mut self, now: u64, time_delta: i64)
        requires
            old(self).extra_live_timer.wf(),
            now <= TIME_MAX,
            time_delta >= 0,
        ensures
            *final(self) == spec_ball_ticked(*old(self), now, time_delta as int),
            final(self).extra_live_timer.wf(),
            final(self).ball.radius == old(self).ball.radius,
    {
        self.ball.update(time_delta);
        self.extra_live_timer.update(now);
        let _ = self.extra_live_timer.get_event();
    }
}

impl GameState {
    /// Integrate every pooled ball by one tick.
    fn update_balls(&mut self, now: u64, time_delta: i64)
        requires
            old(self).wf(),
            now <= TIME_MAX,
            time_delta >= 0,
        ensures
            final(self).wf(),
            final(self).ball_list@.len() == old(self).ball_list@.len(),
            forall|j: int|
                0 <= j < old(self).ball_list@.len() ==> (#[trigger] final(self).ball_list@[j])
                    == spec_ball_ticked(old(self).ball_list@[j], now, time_delta as int),
            *final(self) == (GameState { ball_list: final(self).ball_list, ..*old(self) }),
    {
        let n = self.ball_list.len();
        let mut i: usize = 0;
        while i < n
            invariant
                old(self).wf(),
                now <= TIME_MAX,
                time_delta >= 0,
                n == self.ball_list@.len(),
                n == old(self).ball_list@.len(),
                i <= n,
                forall|j: int|
                    0 <= j < i ==> (#[trigger] self.ball_list@[j]) == spec_ball_ticked(
                        old(self).ball_list@[j],
                        now,
                        time_delta as int,
                    ),
                forall|j: int|
                    i <= j < n ==> (#[trigger] self.ball_list@[j]) == old(self).ball_list@[j],
                *self == (GameState { ball_list: self.ball_list, ..*old(self) }),
            decreases n - i,
        {
            let mut sb = self.ball_list[i];
            sb.update(now, time_delta);
            self.ball_list[i] = sb;
            i = i + 1;
        }
        proof {
            assert forall|j: int|
                0 <= j < n implies (#[trigger] self.ball_list@[j]).extra_live_timer.wf() && 0
                <= self.ball_list@[j].ball.radius <= GEOM_LIMIT by {
                assert(balls_wf_of(old(self).ball_list@));
                assert(old(self).ball_list@[j].extra_live_timer.wf());
            }
            assert(balls_wf_of(self.ball_list@));
        }
    }

    /// Advance every pooled block's lifetime timer by one tick.
    fn update_blocks(&mut self, now: u64)
        requires
            old(self).wf(),
            now <= TIME_MAX,
        ensures
            final(self).wf(),
            final(self).block_list@.len() == old(self).block_list@.len(),
            forall|j: int|
                0 <= j < old(self).block_list@.len() ==> (#[trigger] final(self).block_list@[j])
                    == (StateBlock {
                    block: crate::block::spec_block_updated(old(self).block_list@[j].block, now),
                    index: old(self).block_list@[j].index,
                }),
            *final(self) == (GameState { block_list: final(self).block_list, ..*old(self) }),
    {
        let n = self.block_list.len();
        let mut i: usize = 0;
        while i < n
            invariant
                old(self).wf(),
                now <= TIME_MAX,
                n == self.block_list@.len(),
                n == old(self).block_list@.len(),
                i <= n,
                forall|j: int|
                    0 <= j < i ==> (#[trigger] self.block_list@[j]) == (StateBlock {
                        block: crate::block::spec_block_updated(
                            old(self).block_list@[j].block,
                            now,
                        ),
                        index: old(self).block_list@[j].index,
                    }),
                forall|j: int|
                    i <= j < n ==> (#[trigger] self.block_list@[j]) == old(self).block_list@[j],
                *self == (GameState { block_list: self.block_list, ..*old(self) }),
            decreases n - i,
        {
            let mut sb = self.block_list[i];
            sb.block.update(now);
            self.block_list[i] = sb;
            i = i + 1;
        }
        proof {
            lemma_blocks_update_wf(*old(self), *self, now);
        }
    }
}

/// Advancing lifetime timers never changes whether a block is stopped, so
/// the pool invariants survive a block-update pass.
proof fn lemma_blocks_update_wf(pre: GameState, post: GameState, now: u64)
    requires
        pre.wf(),
        now <= TIME_MAX,
        post.block_list@.len() == pre.block_list@.len(),
        forall|j: int|
            0 <= j < pre.block_list@.len() ==> (#[trigger] post.block_list@[j]) == (StateBlock {
                block: crate::block::spec_block_updated(pre.block_list@[j].block, now),
                index: pre.block_list@[j].index,
            }),
        post.block_index@ == pre.block_index@,
    ensures
        blocks_wf_of(post.block_list@),
        occupancy_ok_of(post.block_list@, post.block_index@),
        slots_unique_of(post.block_list@),
{
    assert forall|j: int|
        0 <= j < post.block_list@.len() implies ((#[trigger] post.block_list@[j]).block.wf()
        && post.block_list@[j].index < BLOCK_NUM && (post.block_list@[j].block.timer_tick
        .stopped_state() == pre.block_list@[j].block.timer_tick.stopped_state())) by {
        assert(pre.block_list@[j].block.wf());
    }
    assert forall|j: int|
        0 <= j < post.block_list@.len() && !(#[trigger] post.block_list@[j]).block.timer_tick
            .stopped_state() implies post.block_index@[post.block_list@[j].index as int] by {
        assert(!pre.block_list@[j].block.timer_tick.stopped_state());
    }
    assert forall|j: int, k: int|
        0 <= j < k < post.block_list@.len() && !(#[trigger] post.block_list@[j]).block.timer_tick
            .stopped_state() && !(#[trigger] post.block_list@[k]).block.timer_tick.stopped_state()
        implies post.block_list@[j].index != post.block_list@[k].index by {
        assert(!pre.block_list@[j].block.timer_tick.stopped_state());
        assert(!pre.block_list@[k].block.timer_tick.stopped_state());
    }
}



/// What one tick does to the scheduler, the launch cooldown and the charge
/// bar before any spawn: each advances to `now` and its one-shot event is
/// consumed.
pub open spec fn spec_tick_prepared(pre: GameState, now: u64) -> GameState {
    let bar1 = crate::bar::spec_tb_updated(pre.power_record_bar, now);
    GameState {
        block_generate_time_ticker: spec_acked(
            crate::timer::spec_updated(pre.block_generate_time_ticker, now),
        ),
        ball_ready_timer: spec_acked(crate::timer::spec_updated(pre.ball_ready_timer, now)),
        power_record_bar: TimerBar { time_tick: spec_acked(bar1.time_tick), ..bar1 },
        ..pre
    }
}

/// The spawn phase of one tick, from `s1` to `s2`. When the scheduler did
/// not fire, nothing happens. When it fired, one block spawns at a free
/// slot — reusing the first stopped pool entry, pushing a new block only
/// when none is free, and changing nothing on a full board — and the
/// scheduler is re-armed to a duration drawn from the window that the new
/// occupancy dictates, then started at `now`. Only the block fields, the
/// scheduler and the generator may change.
pub open spec fn spec_spawn_step(s1: GameState, s2: GameState, now: u64, fired: bool) -> bool {
    if !fired {
        s2 == s1
    } else {
        &&& s2.ball_ready_timer == s1.ball_ready_timer
        &&& s2.power_record_bar == s1.power_record_bar
        &&& s2.ball_list == s1.ball_list
        &&& s2.status == s1.status
        &&& s2.score == s1.score
        &&& s2.left == s1.left
        &&& s2.window_size == s1.window_size
        &&& s2.delta_length == s1.delta_length
        &&& (count_free(s1.block_index@) == 0 ==> s2.block_index@ == s1.block_index@
            && s2.block_list@ == s1.block_list@)
        &&& (count_free(s1.block_index@) > 0 ==> ((exists|i: int, j: int|
            #[trigger] spec_spawn_reuse(s1, s2, now, i, j)) || (exists|i: int|
            #[trigger] spec_spawn_push(s1, s2, now, i))))
        &&& (exists|d: u64|
            {
                &&& (count_occupied(s2.block_index@) == 0 ==> d == SHORT_GENERATE)
                &&& (count_occupied(s2.block_index@) > 0 ==> spawn_interval_lo(
                    count_occupied(s2.block_index@),
                ) <= d < spawn_interval_lo(count_occupied(s2.block_index@)) + GENERATE_SPREAD)
                &&& s2.block_generate_time_ticker == #[trigger] spec_started(
                    spec_restored(s1.block_generate_time_ticker, d),
                    now,
                )
            })
    }
}

/// The resolution phase of one tick, from `s2` to `s3`: every pooled ball
/// advances by one Euler step, every block's lifetime ticks, each pending
/// expiry frees its slot and — while Running — costs one life, never below
/// zero; lives hitting zero flips the status to GameOver, and whenever the
/// status is GameOver afterwards both the scheduler and the launch
/// cooldown are halted.
pub open spec fn spec_resolve_step(s2: GameState, s3: GameState, now: u64, dt: int) -> bool {
    let balls2 = s2.ball_list@.map_values(|sb: StateBall| spec_ball_ticked(sb, now, dt));
    let blocks2 = s2.block_list@.map_values(
        |sb: StateBlock|
            StateBlock { block: crate::block::spec_block_updated(sb.block, now), index: sb.index },
    );
    let ex = count_pending(blocks2);
    let status3 = if s2.status == GameStatus::Running && ex >= s2.left {
        GameStatus::GameOver
    } else {
        s2.status
    };
    &&& s3.ball_list@ == balls2
    &&& s3.block_list@.len() == blocks2.len()
    &&& forall|k: int|
        0 <= k < blocks2.len() ==> (#[trigger] s3.block_list@[k]) == (StateBlock {
            block: Block {
                timer_tick: spec_acked(blocks2[k].block.timer_tick),
                ..blocks2[k].block
            },
            index: blocks2[k].index,
        })
    &&& s3.block_index@.len() == BLOCK_NUM
    &&& forall|i: int|
        0 <= i < BLOCK_NUM ==> (#[trigger] s3.block_index@[i]) == (s2.block_index@[i]
            && !slot_expired(blocks2, i))
    &&& s3.left == (if s2.status == GameStatus::Running {
        if ex <= s2.left {
            s2.left - ex
        } else {
            0int
        }
    } else {
        s2.left as int
    })
    &&& s3.status == status3
    &&& s3.score == s2.score
    &&& s3.ball_ready_timer == (if status3 == GameStatus::GameOver {
        spec_stopped(s2.ball_ready_timer)
    } else {
        s2.ball_ready_timer
    })
    &&& s3.block_generate_time_ticker == (if status3 == GameStatus::GameOver {
        spec_stopped(s2.block_generate_time_ticker)
    } else {
        s2.block_generate_time_ticker
    })
    &&& s3.power_record_bar == s2.power_record_bar
    &&& s3.window_size == s2.window_size
    &&& s3.delta_length == s2.delta_length
}

/// What a pointer release did.
#[derive(Clone, Copy, PartialEq, Eq, Structural, Debug)]
pub enum PointerUpAction {
    /// Nothing: wrong button, or the launch cooldown was still running.
    Ignored,
    /// A ball was launched (the shot cue should play).
    Shot,
    /// The game was restarted from Ready or GameOver.
    Restarted,
}

impl GameState {
    /// One simulation tick at instant `now` with frame delta `time_delta`:
    /// advance the scheduler, cooldown and charge bar; spawn on a fired
    /// scheduler and re-randomize it; integrate balls; tick block
    /// lifetimes; charge expiries to the player's lives; resolve landings
    /// and score hits. Runs in every status; lives only change while
    /// Running, and once the game is over both scheduler and cooldown are
    /// halted until a restart.
    #[verifier::rlimit(100)]
    pub fn update_running(&mut self, now: u64, time_delta: i64) -> (cues: TickCues)
        requires
            old(self).wf(),
            now <= TIME_MAX,
            time_delta >= 0,
            old(self).score + old(self).ball_list@.len() <= u64::MAX,
        ensures
            final(self).wf(),
            final(self).score >= old(self).score,
            final(self).left <= old(self).left,
            final(self).window_size == old(self).window_size,
            final(self).delta_length == old(self).delta_length,
            old(self).status != GameStatus::Running ==> final(self).status == old(self).status
                && final(self).left == old(self).left,
            old(self).status == GameStatus::Running ==> (final(self).status
                == GameStatus::GameOver <==> final(self).left == 0),
            final(self).status == GameStatus::GameOver
                ==> final(self).block_generate_time_ticker.stopped_state()
                && final(self).ball_ready_timer.stopped_state(),
            cues.power_full == crate::bar::spec_tb_updated(
                old(self).power_record_bar,
                now,
            ).time_tick.pending(),
            final(self).ball_list@.len() == old(self).ball_list@.len(),
            (cues.landing == LandingCue::Boom) <==> final(self).score > old(self).score,
            ({
                let r1 = spec_acked(crate::timer::spec_updated(old(self).ball_ready_timer, now));
                final(self).ball_ready_timer == if final(self).status == GameStatus::GameOver {
                    spec_stopped(r1)
                } else {
                    r1
                }
            }),
            ({
                let b1 = crate::bar::spec_tb_updated(old(self).power_record_bar, now);
                final(self).power_record_bar == (TimerBar {
                    time_tick: spec_acked(b1.time_tick),
                    ..b1
                })
            }),
            // the whole tick, phase by phase: after the scheduler, cooldown
            // and charge bar advance, a fired scheduler spawns exactly one
            // block and is re-armed; then every ball and block advances,
            // expiries are charged to the player, and landings are resolved
            exists|m1: GameState, m2: GameState|
                {
                    &&& #[trigger] spec_spawn_step(
                        spec_tick_prepared(*old(self), now),
                        m1,
                        now,
                        crate::timer::spec_updated(
                            old(self).block_generate_time_ticker,
                            now,
                        ).pending(),
                    )
                    &&& #[trigger] spec_resolve_step(m1, m2, now, time_delta as int)
                    &&& spec_landing_rel(m2, *final(self), now, cues.landing)
                },
    {
        self.block_generate_time_ticker.update(now);
        self.ball_ready_timer.update(now);
        let _ = self.ball_ready_timer.get_event();
        self.power_record_bar.update(now);
        let power_full = self.power_record_bar.get_event();
        let fired = self.block_generate_time_ticker.get_event();
        let ghost prepared = *self;
        proof {
            assert(prepared == spec_tick_prepared(*old(self), now));
        }
        if fired {
            self.random_block(now);
            let ghost s_rand = *self;
            self.restore_timer();
            let ghost s_rest = *self;
            self.block_generate_time_ticker.start(now);
            proof {
                if count_free(prepared.block_index@) > 0 {
                    if exists|i: int, j: int| #[trigger] spec_spawn_reuse(
                        prepared,
                        s_rand,
                        now,
                        i,
                        j,
                    ) {
                        let (i, j) = choose|i: int, j: int|
                            #[trigger] spec_spawn_reuse(prepared, s_rand, now, i, j);
                        assert(spec_spawn_reuse(prepared, *self, now, i, j));
                    } else {
                        let i = choose|i: int| #[trigger] spec_spawn_push(prepared, s_rand, now, i);
                        assert(spec_spawn_push(prepared, *self, now, i));
                    }
                }
                let occ2 = count_occupied(s_rand.block_index@);
                if occ2 == 0 {
                    assert(self.block_generate_time_ticker == spec_started(
                        spec_restored(prepared.block_generate_time_ticker, SHORT_GENERATE),
                        now,
                    ));
                } else {
                    let d = choose|d: u64|
                        spawn_interval_lo(occ2) <= d < spawn_interval_lo(occ2) + GENERATE_SPREAD
                            && s_rest.block_generate_time_ticker == #[trigger] spec_restored(
                            s_rand.block_generate_time_ticker,
                            d,
                        );
                    assert(self.block_generate_time_ticker == spec_started(
                        spec_restored(prepared.block_generate_time_ticker, d),
                        now,
                    ));
                }
                assert(spec_spawn_step(prepared, *self, now, true));
            }
        }
        let ghost m1 = *self;
        proof {
            assert(spec_spawn_step(prepared, m1, now, fired));
        }
        self.update_balls(now, time_delta);
        self.update_blocks(now);
        let ghost pre_expiry = *self;
        self.process_block_events();
        proof {
            lemma_count_pending_bounds(pre_expiry.block_list@);
        }
        if self.status == GameStatus::GameOver {
            self.game_over();
        }
        let ghost m2 = *self;
        proof {
            assert(m2.ball_list@ =~= m1.ball_list@.map_values(
                |sb: StateBall| spec_ball_ticked(sb, now, time_delta as int),
            ));
            assert(pre_expiry.block_list@ =~= m1.block_list@.map_values(
                |sb: StateBlock|
                    StateBlock {
                        block: crate::block::spec_block_updated(sb.block, now),
                        index: sb.index,
                    },
            ));
            assert(spec_resolve_step(m1, m2, now, time_delta as int));
        }
        let landing = self.process_landings(now);
        proof {
            assert(spec_spawn_step(
                spec_tick_prepared(*old(self), now),
                m1,
                now,
                crate::timer::spec_updated(old(self).block_generate_time_ticker, now).pending(),
            ));
            assert(spec_resolve_step(m1, m2, now, time_delta as int));
            assert(spec_landing_rel(m2, *self, now, landing));
        }
        TickCues { power_full, landing }
    }

    /// Pointer pressed: while Running, a left press starts the power
    /// charge; the result says whether the charge cue should play.
    pub fn mouse_button_down_event(&mut self, left_button: bool, now: u64) -> (charging: bool)
        requires
            old(self).wf(),
            now <= TIME_MAX,
        ensures
            final(self).wf(),
            charging == (old(self).status == GameStatus::Running && left_button),
            charging ==> *final(self) == (GameState {
                power_record_bar: spec_mirrored(
                    TimerBar {
                        time_tick: spec_started(old(self).power_record_bar.time_tick, now),
                        ..old(self).power_record_bar
                    },
                ),
                ..*old(self)
            }),
            !charging ==> *final(self) == *old(self),
    {
        if self.status == GameStatus::Running && left_button {
            self.power_record_bar.start(now);
            return true;
        }
        false
    }

    /// Pointer released at `(x, y)`: the charge bar is brought up to date
    /// and paused whatever the button; then a left release launches a ball
    /// while Running with a cold cooldown, or restarts the game when it is
    /// not Running.
    #[verifier::rlimit(50)]
    pub fn mouse_button_up_event(&mut self, left_button: bool, x: i64, y: i64, now: u64) -> (action:
        PointerUpAction)
        requires
            old(self).wf(),
            -GEOM_LIMIT <= x <= GEOM_LIMIT,
            -GEOM_LIMIT <= y <= GEOM_LIMIT,
            now <= TIME_MAX,
        ensures
            final(self).wf(),
            (action == PointerUpAction::Shot) == (old(self).status == GameStatus::Running
                && left_button && old(self).ball_ready_timer.stopped_state()),
            (action == PointerUpAction::Restarted) == (old(self).status != GameStatus::Running
                && left_button),
            ({
                let bar1 = crate::bar::spec_tb_updated(old(self).power_record_bar, now);
                let bar2 = TimerBar {
                    time_tick: crate::timer::spec_paused(bar1.time_tick),
                    ..bar1
                };
                let mid = GameState { power_record_bar: bar2, ..*old(self) };
                &&& final(self).power_record_bar == bar2
                &&& (action == PointerUpAction::Ignored ==> *final(self) == mid)
                &&& (action == PointerUpAction::Shot ==> ({
                    &&& mid.spec_drag(x, y) == (0int, 0int) ==> *final(self) == mid
                    &&& mid.spec_drag(x, y) != (0int, 0int) ==> ({
                        &&& final(self).ball_ready_timer == spec_started(
                            old(self).ball_ready_timer,
                            now,
                        )
                        &&& (exists|j: int|
                            #[trigger] spec_ball_reuse(mid, *final(self), x, y, j))
                            || spec_ball_push(mid, *final(self), x, y)
                    })
                }))
                &&& (action == PointerUpAction::Restarted ==> ({
                    &&& final(self).status == GameStatus::Running
                    &&& final(self).score == 0
                    &&& final(self).left == START_LIVES
                    &&& forall|i: int|
                        0 <= i < BLOCK_NUM ==> !(#[trigger] final(self).block_index@[i])
                    &&& final(self).block_generate_time_ticker == spec_started(
                        spec_restored(old(self).block_generate_time_ticker, SHORT_GENERATE),
                        now,
                    )
                }))
            }),
    {
        self.power_record_bar.update(now);
        self.power_record_bar.pause();
        if self.status == GameStatus::Running && left_button && self.ball_ready_timer.is_stopped(
        ) {
            self.throw_ball((x, y), now);
            return PointerUpAction::Shot;
        }
        if self.status != GameStatus::Running && left_button {
            self.game_restart(now);
            return PointerUpAction::Restarted;
        }
        PointerUpAction::Ignored
    }
}

/// Square of a coordinate within twice the geometry bound.
fn sq_coord(a: u64) -> (r: u64)
    requires
        a <= 2 * GEOM_LIMIT,
    ensures
        r == a * a,
        r <= 0x4000_0000_0000_0000,
{
    proof {
        vstd::arithmetic::mul::lemma_mul_upper_bound(
            a as int,
            2 * GEOM_LIMIT as int,
            a as int,
            2 * GEOM_LIMIT as int,
        );
    }
    a * a
}

/// A fresh all-free occupancy grid.
fn make_grid() -> (v: Vec<bool>)
    ensures
        v@.len() == BLOCK_NUM,
        forall|i: int| 0 <= i < BLOCK_NUM ==> !(#[trigger] v@[i]),
{
    let mut v: Vec<bool> = Vec::new();
    let mut i: usize = 0;
    while i < BLOCK_NUM
        invariant
            i <= BLOCK_NUM,
            v@.len() == i,
            forall|k: int| 0 <= k < i ==> !(#[trigger] v@[k]),
        decreases BLOCK_NUM - i,
    {
        v.push(false);
        i = i + 1;
    }
    v
}

/// An all-free grid has no occupied slot.
proof fn lemma_count_all_free(s: Seq<bool>)
    requires
        forall|i: int| 0 <= i < s.len() ==> !(#[trigger] s[i]),
    ensures
        count_occupied(s) == 0,
    decreases s.len(),
{
    if s.len() > 0 {
        lemma_count_all_free(s.drop_last());
    }
}

} // verus!
