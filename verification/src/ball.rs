//! The ball: a projectile with a planar position, a planar velocity and a
//! pseudo-3D "height" in `[0, BALL_HEIGHT_MAX]` driven by gravity.
//!
//! Integration is explicit Euler with no sub-stepping and only advances
//! while the ball is alive and above the ground. Heights and velocities are
//! integers; the step is exact whenever the ideal values fit the machine
//! range, and a ball whose ideal step would leave that range is dropped
//! from play instead of moving to a wrong position.

use vstd::prelude::*;
use crate::units::{VALUE_SCALE, GEOM_LIMIT};
use crate::num::isqrt64;
use crate::num::lemma_sqrt_floor_bounds;
use crate::num::sqrt_floor;

verus! {

/// Gravity, in height units per tick per tick; negative pulls down.
pub const GRAVITY: i64 = -3;

/// Full height of the pseudo-3D arc, in height units.
pub const BALL_HEIGHT_MAX: i64 = 2_000_000;

/// Height given to a freshly launched ball: half the full arc.
pub const BALL_HEIGHT_INIT: i64 = 1_000_000;

#[derive(Clone, Copy, PartialEq, Eq, Structural, Debug)]
pub struct Ball {
    pub radius: i64,
    /// Planar position.
    pub x: i64,
    pub y: i64,
    /// Pseudo-3D height; at or below 0 the ball is on the ground.
    pub height: i64,
    /// Planar velocity, in position units per tick.
    pub vx: i64,
    pub vy: i64,
    /// Height-axis velocity, in height units per tick, subject to gravity.
    pub vz: i64,
    pub alive: bool,
}

pub open spec fn fits_i64(x: int) -> bool {
    i64::MIN <= x <= i64::MAX
}

/// Integration advances only while the ball is alive and above ground.
pub open spec fn in_flight(b: Ball) -> bool {
    b.alive && b.height > 0
}

/// All intermediate values of one Euler step stay in the machine range.
pub open spec fn step_fits(b: Ball, dt: int) -> bool {
    &&& fits_i64(b.vx * dt)
    &&& fits_i64(b.vy * dt)
    &&& fits_i64(GRAVITY * dt)
    &&& fits_i64(b.x + b.vx * dt)
    &&& fits_i64(b.y + b.vy * dt)
    &&& fits_i64(b.vz + GRAVITY * dt)
    &&& fits_i64((b.vz + GRAVITY * dt) * dt)
    &&& fits_i64(b.height + (b.vz + GRAVITY * dt) * dt)
}

/// One exact Euler step: position moves by velocity, the height velocity
/// picks up gravity first, then moves the height.
pub open spec fn spec_stepped(b: Ball, dt: int) -> Ball {
    Ball {
        x: (b.x + b.vx * dt) as i64,
        y: (b.y + b.vy * dt) as i64,
        vz: (b.vz + GRAVITY * dt) as i64,
        height: (b.height + (b.vz + GRAVITY * dt) * dt) as i64,
        ..b
    }
}

/// The mathematical flight state, free of machine bounds; used to state
/// laws about the integration rule itself.
pub struct FlightState {
    pub x: int,
    pub y: int,
    pub height: int,
    pub vx: int,
    pub vy: int,
    pub vz: int,
}

pub open spec fn flight_of(b: Ball) -> FlightState {
    FlightState {
        x: b.x as int,
        y: b.y as int,
        height: b.height as int,
        vx: b.vx as int,
        vy: b.vy as int,
        vz: b.vz as int,
    }
}

/// One Euler step of the mathematical flight under gravity `g`; a state on
/// or under the ground does not move.
pub open spec fn flight_step(s: FlightState, g: int, dt: int) -> FlightState {
    if s.height > 0 {
        FlightState {
            x: s.x + s.vx * dt,
            y: s.y + s.vy * dt,
            vz: s.vz + g * dt,
            height: s.height + (s.vz + g * dt) * dt,
            ..s
        }
    } else {
        s
    }
}

/// `n` Euler steps of the mathematical flight.
pub open spec fn flight_steps(s: FlightState, g: int, dt: int, n: nat) -> FlightState
    decreases n,
{
    if n == 0 {
        s
    } else {
        flight_step(flight_steps(s, g, dt, (n - 1) as nat), g, dt)
    }
}

/// Law: under zero gravity and zero initial height velocity the flight is
/// purely kinematic — after `n` steps of size `dt` the planar displacement
/// is exactly `n * dt` times the velocity, and the height never moves.
pub proof fn lemma_flight_horizontal(s: FlightState, dt: int, n: nat)
    requires
        s.vz == 0,
        s.height > 0,
    ensures
        flight_steps(s, 0, dt, n).x == s.x + n * (s.vx * dt),
        flight_steps(s, 0, dt, n).y == s.y + n * (s.vy * dt),
        flight_steps(s, 0, dt, n).vx == s.vx,
        flight_steps(s, 0, dt, n).vy == s.vy,
        flight_steps(s, 0, dt, n).vz == 0,
        flight_steps(s, 0, dt, n).height == s.height,
    decreases n,
{
    if n == 0 {
        assert(n * (s.vx * dt) == 0) by (nonlinear_arith)
            requires
                n == 0,
        ;
        assert(n * (s.vy * dt) == 0) by (nonlinear_arith)
            requires
                n == 0,
        ;
    } else {
        lemma_flight_horizontal(s, dt, (n - 1) as nat);
        assert(n * (s.vx * dt) == (n - 1) * (s.vx * dt) + s.vx * dt) by (nonlinear_arith);
        assert(n * (s.vy * dt) == (n - 1) * (s.vy * dt) + s.vy * dt) by (nonlinear_arith);
    }
}

/// Law: a flight on or under the ground never moves again, whatever the
/// gravity or the step size — landing is terminal for the flight.
pub proof fn lemma_flight_grounded(s: FlightState, g: int, dt: int, n: nat)
    requires
        s.height <= 0,
    ensures
        flight_steps(s, g, dt, n) == s,
    decreases n,
{
    if n > 0 {
        lemma_flight_grounded(s, g, dt, (n - 1) as nat);
    }
}

/// `c` rescaled by the ratio `speed / len`, rounding toward zero.
pub open spec fn rescaled(c: int, speed: int, len: int) -> int {
    if c >= 0 {
        c * speed / len
    } else {
        -((-c) * speed / len)
    }
}

/// The floor square root of the squared length of a planar vector.
pub open spec fn vec_len_floor(x: int, y: int) -> int {
    sqrt_floor(x * x + y * y)
}

impl Ball {
    /// A freshly launched ball at launch height.
    pub fn new(radius: i64, pos: (i64, i64), velocity: (i64, i64, i64)) -> (b: Ball)
        ensures
            b == (Ball {
                radius,
                x: pos.0,
                y: pos.1,
                height: BALL_HEIGHT_INIT,
                vx: velocity.0,
                vy: velocity.1,
                vz: velocity.2,
                alive: true,
            }),
    {
        Ball {
            radius,
            x: pos.0,
            y: pos.1,
            height: BALL_HEIGHT_INIT,
            vx: velocity.0,
            vy: velocity.1,
            vz: velocity.2,
            alive: true,
        }
    }

    pub fn set_radius(&mut self, radius: i64)
        ensures
            *final(self) == (Ball { radius, ..*old(self) }),
    {
        self.radius = radius;
    }

    /// Re-arm a pooled ball: alive again, back at launch height, with new
    /// geometry and velocity.
    pub fn restore(&mut self, radius: i64, pos: (i64, i64), velocity: (i64, i64, i64))
        ensures
            *final(self) == (Ball {
                radius,
                x: pos.0,
                y: pos.1,
                height: BALL_HEIGHT_INIT,
                vx: velocity.0,
                vy: velocity.1,
                vz: velocity.2,
                alive: true,
            }),
    {
        self.alive = true;
        self.radius = radius;
        self.x = pos.0;
        self.y = pos.1;
        self.height = BALL_HEIGHT_INIT;
        self.vx = velocity.0;
        self.vy = velocity.1;
        self.vz = velocity.2;
    }

    pub fn get_pos(&self) -> (p: (i64, i64))
        ensures
            p == (self.x, self.y),
    {
        (self.x, self.y)
    }

    pub fn get_radius(&self) -> (r: i64)
        ensures
            r == self.radius,
    {
        self.radius
    }

    pub fn is_avtive(&self) -> (r: bool)
        ensures
            r == self.alive,
    {
        self.alive
    }

    /// On the ground: the height has reached or crossed zero — terminal for
    /// the current flight, independent of `alive`.
    pub fn is_on_ground(&self) -> (r: bool)
        ensures
            r == (self.height <= 0),
    {
        self.height <= 0
    }

    /// Return the ball to the pool.
    pub fn disable(&mut self)
        ensures
            *final(self) == (Ball { alive: false, ..*old(self) }),
    {
        self.alive = false;
    }

    /// Radius to draw with: grows with the height, from the base radius on
    /// the ground to 2.5 times the base radius at the top of the arc.
    pub fn get_draw_radius(&self) -> (r: i64)
        requires
            0 <= self.radius <= GEOM_LIMIT,
            0 <= self.height <= 2 * BALL_HEIGHT_MAX,
        ensures
            r == self.radius * (2 * BALL_HEIGHT_MAX + 3 * self.height) / (2 * BALL_HEIGHT_MAX),
    {
        let factor = (2 * BALL_HEIGHT_MAX + 3 * self.height) as u64;
        proof {
            vstd::arithmetic::mul::lemma_mul_upper_bound(
                self.radius as int,
                GEOM_LIMIT as int,
                factor as int,
                16_000_000,
            );
        }
        ((self.radius as u64) * factor / ((2 * BALL_HEIGHT_MAX) as u64)) as i64
    }

    /// Opacity to draw with, as a fraction of `VALUE_SCALE`: fades slightly
    /// with the height.
    pub fn get_draw_alpha(&self) -> (a: u64)
        requires
            0 <= self.height <= 2 * BALL_HEIGHT_MAX,
        ensures
            a == VALUE_SCALE - 100 * self.height / (BALL_HEIGHT_MAX as int),
    {
        let part = 100 * (self.height as u64) / (BALL_HEIGHT_MAX as u64);
        VALUE_SCALE - part
    }

    /// Point the planar velocity toward `vectory`, keeping the current
    /// speed (up to integer rounding). A zero-length vector is silently
    /// ignored: an exact no-op, neither an error nor a substitute
    /// direction.
    pub fn set_direction_vec(&mut self, vectory: (i64, i64))
        requires
            -GEOM_LIMIT <= old(self).vx <= GEOM_LIMIT,
            -GEOM_LIMIT <= old(self).vy <= GEOM_LIMIT,
            -GEOM_LIMIT <= vectory.0 <= GEOM_LIMIT,
            -GEOM_LIMIT <= vectory.1 <= GEOM_LIMIT,
        ensures
            vectory == (0i64, 0i64) ==> *final(self) == *old(self),
            vectory != (0i64, 0i64) ==> *final(self) == (Ball {
                vx: rescaled(
                    vectory.0 as int,
                    vec_len_floor(old(self).vx as int, old(self).vy as int),
                    vec_len_floor(vectory.0 as int, vectory.1 as int),
                ) as i64,
                vy: rescaled(
                    vectory.1 as int,
                    vec_len_floor(old(self).vx as int, old(self).vy as int),
                    vec_len_floor(vectory.0 as int, vectory.1 as int),
                ) as i64,
                ..*old(self)
            }),
    {
        let (dx, dy) = vectory;
        if dx == 0 && dy == 0 {
            return ;
        }
        let ghost vx0 = self.vx as int;
        let ghost vy0 = self.vy as int;
        let vxa = abs_bounded(self.vx);
        let vya = abs_bounded(self.vy);
        let speed = isqrt64(sq_bounded(vxa) + sq_bounded(vya));
        let dxa = abs_bounded(dx);
        let dya = abs_bounded(dy);
        let len = isqrt64(sq_bounded(dxa) + sq_bounded(dya));
        proof {
            assert(dxa * dxa + dya * dya >= 1) by (nonlinear_arith)
                requires
                    dxa >= 0,
                    dya >= 0,
                    dxa >= 1 || dya >= 1,
            ;
            lemma_sqrt_floor_bounds((dxa * dxa + dya * dya) as int);
            if len == 0 {
                assert((len + 1) * (len + 1) == 1) by (nonlinear_arith)
                    requires
                        len == 0u64,
                ;
            }
            assert(len >= 1);
            assert(vxa as int * vxa as int == vx0 * vx0) by (nonlinear_arith)
                requires
                    vxa as int == vx0 || vxa as int == -vx0,
            ;
            assert(vya as int * vya as int == vy0 * vy0) by (nonlinear_arith)
                requires
                    vya as int == vy0 || vya as int == -vy0,
            ;
            assert(dxa as int * dxa as int == dx as int * dx as int) by (nonlinear_arith)
                requires
                    dxa as int == dx as int || dxa as int == -(dx as int),
            ;
            assert(dya as int * dya as int == dy as int * dy as int) by (nonlinear_arith)
                requires
                    dya as int == dy as int || dya as int == -(dy as int),
            ;
            vstd::arithmetic::mul::lemma_mul_upper_bound(
                dxa as int,
                GEOM_LIMIT as int,
                speed as int,
                0xFFFF_FFFF,
            );
            vstd::arithmetic::mul::lemma_mul_upper_bound(
                dya as int,
                GEOM_LIMIT as int,
                speed as int,
                0xFFFF_FFFF,
            );
            vstd::arithmetic::div_mod::lemma_div_is_ordered(
                0,
                dxa as int * speed as int,
                len as int,
            );
            vstd::arithmetic::div_mod::lemma_div_is_ordered(
                dxa as int * speed as int,
                GEOM_LIMIT as int * 0xFFFF_FFFF,
                len as int,
            );
            vstd::arithmetic::div_mod::lemma_div_is_ordered(
                0,
                dya as int * speed as int,
                len as int,
            );
            vstd::arithmetic::div_mod::lemma_div_is_ordered(
                dya as int * speed as int,
                GEOM_LIMIT as int * 0xFFFF_FFFF,
                len as int,
            );
        }
        let sx = dxa * speed / len;
        let sy = dya * speed / len;
        self.vx = if dx >= 0 {
            sx as i64
        } else {
            -(sx as i64)
        };
        self.vy = if dy >= 0 {
            sy as i64
        } else {
            -(sy as i64)
        };
    }

    /// One Euler step of size `time_delta`, only while in flight. The step
    /// is exact whenever the ideal values fit `i64`; a ball whose step
    /// would overflow is dropped from play instead.
    pub fn update(&mut self, time_delta: i64)
        requires
            time_delta >= 0,
        ensures
            !in_flight(*old(self)) ==> *final(self) == *old(self),
            in_flight(*old(self)) && step_fits(*old(self), time_delta as int) ==> *final(self)
                == spec_stepped(*old(self), time_delta as int),
            in_flight(*old(self)) && step_fits(*old(self), time_delta as int) ==> flight_of(
                *final(self),
            ) == flight_step(flight_of(*old(self)), GRAVITY as int, time_delta as int),
            in_flight(*old(self)) && !step_fits(*old(self), time_delta as int) ==> *final(self)
                == (Ball { alive: false, ..*old(self) }),
    {
        if !(self.alive && self.height > 0) {
            return ;
        }
        let d = time_delta;
        match (self.vx.checked_mul(d), self.vy.checked_mul(d), GRAVITY.checked_mul(d)) {
            (Some(px), Some(py), Some(gz)) => {
                match (self.x.checked_add(px), self.y.checked_add(py), self.vz.checked_add(gz)) {
                    (Some(nx), Some(ny), Some(nvz)) => {
                        match nvz.checked_mul(d) {
                            Some(hd) => {
                                match self.height.checked_add(hd) {
                                    Some(nh) => {
                                        self.x = nx;
                                        self.y = ny;
                                        self.vz = nvz;
                                        self.height = nh;
                                    },
                                    _ => {
                                        self.alive = false;
                                    },
                                }
                            },
                            _ => {
                                self.alive = false;
                            },
                        }
                    },
                    _ => {
                        self.alive = false;
                    },
                }
            },
            _ => {
                self.alive = false;
            },
        }
    }

    /// Cap a charge value at full power: the launch power scalar grows with
    /// the hold time and saturates at `VALUE_SCALE`.
    pub fn get_vel_alpha(power: u64) -> (alpha: u64)
        ensures
            alpha == if power <= VALUE_SCALE {
                power as int
            } else {
                VALUE_SCALE as int
            },
    {
        if power <= VALUE_SCALE {
            power
        } else {
            VALUE_SCALE
        }
    }
}

/// Square of a bounded coordinate, kept well inside `u64`.
fn sq_bounded(a: u64) -> (r: u64)
    requires
        a <= GEOM_LIMIT,
    ensures
        r == a * a,
        r <= 0x1000_0000_0000_0000,
{
    proof {
        vstd::arithmetic::mul::lemma_mul_upper_bound(
            a as int,
            GEOM_LIMIT as int,
            a as int,
            GEOM_LIMIT as int,
        );
    }
    a * a
}

/// Absolute value of a coordinate within the geometry bound, as `u64`.
fn abs_bounded(a: i64) -> (r: u64)
    requires
        -GEOM_LIMIT <= a <= GEOM_LIMIT,
    ensures
        r == if a >= 0 {
            a as int
        } else {
            -a as int
        },
        r <= GEOM_LIMIT,
{
    if a >= 0 {
        a as u64
    } else {
        (-a) as u64
    }
}

} // verus!
