//! The data model: 2D vectors, the ball record with its role tag, the arena
//! bounds, and the constants of the simulation.
//!
//! Quantities are fixed-point: thousandths of a unit for lengths, thousandths
//! of a unit per second for velocities, milliseconds for durations.

use vstd::prelude::*;

verus! {

/// Downward acceleration, per second per second (-500 units/s^2).
pub const GRAVITY: i64 = -500_000;

/// Radius shared by every ball (12 units).
pub const BALL_RADIUS: i64 = 12_000;

/// Velocity added per pressed key per tick (50 units/s), not scaled by time.
pub const ACCELERATE: i64 = 50_000;

/// A bounce scales the reflected velocity component by -4/5 (friction 0.80).
pub const FRICTION_NUM: i64 = 4;

/// Denominator of the friction factor.
pub const FRICTION_DEN: i64 = 5;

/// Number of autonomous balls placed at startup.
pub const NUM_OF_BALLS: usize = 6;

/// Each component of a random initial velocity lies in `[-INIT_VEL, INIT_VEL)`.
pub const INIT_VEL: i64 = 1_000_000;

/// Largest position component (and arena half-extent) the integrator accepts.
pub const POS_LIMIT: i64 = 2_000_000_000_000_000;

/// Largest velocity component the integrator accepts.
pub const VEL_LIMIT: i64 = 9_000_000_000_000;

/// Largest tick duration the integrator accepts (600 s).
pub const DT_LIMIT: i64 = 600_000;

/// A 2D vector in fixed-point coordinates.
#[derive(Clone, Copy, Debug, PartialEq, Eq, Structural)]
pub struct Vec2 {
    pub x: i64,
    pub y: i64,
}

/// Both components of `v` lie within `[-cap, cap]`.
pub open spec fn comp_within(v: Vec2, cap: int) -> bool {
    -cap <= v.x <= cap && -cap <= v.y <= cap
}

/// Whether a ball answers to the keyboard or moves on its own.
#[derive(Clone, Copy, Debug, PartialEq, Eq, Structural)]
pub enum Role {
    Player,
    Ordinary,
}

/// A simulated ball. The radius never changes after creation.
#[derive(Clone, Copy, Debug, PartialEq, Eq, Structural)]
pub struct Ball {
    pub id: u64,
    pub pos: Vec2,
    pub vel: Vec2,
    pub radius: i64,
    pub role: Role,
}

impl Ball {
    /// A fresh ball with the shared radius.
    pub fn new(id: u64, pos: Vec2, vel: Vec2, role: Role) -> (b: Ball)
        ensures
            b == (Ball { id, pos, vel, radius: BALL_RADIUS, role }),
    {
        Ball { id, pos, vel, radius: BALL_RADIUS, role }
    }
}

/// Half-extents of the reflective simulation box, fixed at startup.
#[derive(Clone, Copy, Debug, PartialEq, Eq, Structural)]
pub struct Bounds {
    pub half_width: i64,
    pub half_height: i64,
}

impl Bounds {
    pub open spec fn wf(self) -> bool {
        0 <= self.half_width <= POS_LIMIT && 0 <= self.half_height <= POS_LIMIT
    }

    pub fn new(half_width: i64, half_height: i64) -> (b: Bounds)
        requires
            0 <= half_width <= POS_LIMIT,
            0 <= half_height <= POS_LIMIT,
        ensures
            b == (Bounds { half_width, half_height }),
            b.wf(),
    {
        Bounds { half_width, half_height }
    }
}

/// Pressed state of the four movement keys, sampled once per tick.
#[derive(Clone, Copy, Debug, PartialEq, Eq, Structural)]
pub struct KeyState {
    pub up: bool,
    pub down: bool,
    pub left: bool,
    pub right: bool,
}

} // verus!
