//! The integrator: once per ball and per tick, boundary reflection on the
//! position as it stands at tick start, then movement by `velocity * dt`,
//! then gravity on the vertical velocity. Gravity comes after the movement,
//! so a velocity change from gravity only moves the ball from the next tick
//! on, and a position pushed out of bounds by the movement step is only
//! reflected at the start of the next tick.

use vstd::prelude::*;
use crate::ball::{Ball, Bounds, Vec2, comp_within};
use crate::ball::{DT_LIMIT, FRICTION_DEN, FRICTION_NUM, GRAVITY, POS_LIMIT, VEL_LIMIT};
use crate::math::{div_trunc, iabs, mul_scaled, mul_div_scale};
use crate::math::{lemma_div_trunc_bound, lemma_div_trunc_exact};
use crate::registry::Registry;

verus! {

/// Boundary reflection of one axis: a position beyond either bound is
/// clamped to that bound and the velocity is flipped and scaled by the
/// friction factor. Returns (position, velocity).
pub open spec fn bounce_axis_spec(pos: int, vel: int, half: int) -> (int, int) {
    if pos < -half {
        (-half, -div_trunc(FRICTION_NUM as int * vel, FRICTION_DEN as int))
    } else if pos > half {
        (half, -div_trunc(FRICTION_NUM as int * vel, FRICTION_DEN as int))
    } else {
        (pos, vel)
    }
}

/// Boundary reflection of a ball, each axis independently.
pub open spec fn bounce_ball(b: Ball, bounds: Bounds) -> Ball {
    let bx = bounce_axis_spec(b.pos.x as int, b.vel.x as int, bounds.half_width as int);
    let by = bounce_axis_spec(b.pos.y as int, b.vel.y as int, bounds.half_height as int);
    Ball {
        pos: Vec2 { x: bx.0 as i64, y: by.0 as i64 },
        vel: Vec2 { x: bx.1 as i64, y: by.1 as i64 },
        ..b
    }
}

/// Movement: the position advances by `velocity * dt`.
pub open spec fn advance_ball(b: Ball, dt: int) -> Ball {
    Ball {
        pos: Vec2 {
            x: (b.pos.x + mul_scaled(b.vel.x as int, dt)) as i64,
            y: (b.pos.y + mul_scaled(b.vel.y as int, dt)) as i64,
        },
        ..b
    }
}

/// Gravity: the vertical velocity gains `GRAVITY * dt`.
pub open spec fn gravity_ball(b: Ball, dt: int) -> Ball {
    Ball {
        vel: Vec2 { x: b.vel.x, y: (b.vel.y + mul_scaled(GRAVITY as int, dt)) as i64 },
        ..b
    }
}

/// One integration pass over one ball: bounce, then move, then gravity.
pub open spec fn integrate_ball(b: Ball, bounds: Bounds, dt: int) -> Ball {
    gravity_ball(advance_ball(bounce_ball(b, bounds), dt), dt)
}

/// `-4/5` of a velocity component, rounded toward zero.
fn friction_flip(vel: i64) -> (r: i64)
    requires
        -2_000_000_000_000_000_000 <= vel <= 2_000_000_000_000_000_000,
    ensures
        r == -div_trunc(FRICTION_NUM as int * vel, FRICTION_DEN as int),
        iabs(r as int) <= iabs(vel as int),
{
    proof {
        lemma_div_trunc_bound(FRICTION_NUM as int * vel, FRICTION_DEN as int, iabs(vel as int));
    }
    if vel >= 0 {
        let p: i64 = FRICTION_NUM * vel;
        let q: u64 = (p as u64) / 5;
        -(q as i64)
    } else {
        let p: i64 = FRICTION_NUM * (-vel);
        let q: u64 = (p as u64) / 5;
        q as i64
    }
}

/// Boundary reflection of one axis, matching `bounce_axis_spec`.
fn bounce_axis(pos: i64, vel: i64, half: i64) -> (r: (i64, i64))
    requires
        0 <= half,
        -2_000_000_000_000_000_000 <= vel <= 2_000_000_000_000_000_000,
    ensures
        r.0 == bounce_axis_spec(pos as int, vel as int, half as int).0,
        r.1 == bounce_axis_spec(pos as int, vel as int, half as int).1,
        iabs(r.1 as int) <= iabs(vel as int),
        r.0 == pos || r.0 == -half || r.0 == half,
{
    if pos < -half {
        (-half, friction_flip(vel))
    } else if pos > half {
        (half, friction_flip(vel))
    } else {
        (pos, vel)
    }
}

/// One integration pass over one ball.
pub fn integrate_one(b: Ball, bounds: Bounds, dt: i64) -> (r: Ball)
    requires
        bounds.wf(),
        comp_within(b.pos, POS_LIMIT as int),
        comp_within(b.vel, VEL_LIMIT as int),
        0 < dt <= DT_LIMIT,
    ensures
        r == integrate_ball(b, bounds, dt as int),
        comp_within(r.pos, 8_000_000_000_000_000int),
        comp_within(r.vel, VEL_LIMIT + 300_000_000int),
{
    let bx = bounce_axis(b.pos.x, b.vel.x, bounds.half_width);
    let by = bounce_axis(b.pos.y, b.vel.y, bounds.half_height);
    proof {
        assert(-5_400_000_000_000_000_000 <= bx.1 * dt <= 5_400_000_000_000_000_000)
            by (nonlinear_arith)
            requires -9_000_000_000_000 <= bx.1 <= 9_000_000_000_000 && 0 < dt <= 600_000;
        assert(-5_400_000_000_000_000_000 <= by.1 * dt <= 5_400_000_000_000_000_000)
            by (nonlinear_arith)
            requires -9_000_000_000_000 <= by.1 <= 9_000_000_000_000 && 0 < dt <= 600_000;
        lemma_div_trunc_bound(bx.1 * dt, 1000, 5_400_000_000_000_000);
        lemma_div_trunc_bound(by.1 * dt, 1000, 5_400_000_000_000_000);
        assert(-300_000_000_000 <= GRAVITY * dt <= 300_000_000_000) by (nonlinear_arith)
            requires 0 < dt <= 600_000;
        lemma_div_trunc_bound(GRAVITY as int * dt, 1000, 300_000_000);
    }
    let mvx = mul_div_scale(bx.1, dt);
    let mvy = mul_div_scale(by.1, dt);
    let px = bx.0 + mvx;
    let py = by.0 + mvy;
    let gdy = mul_div_scale(GRAVITY, dt);
    let vy = by.1 + gdy;
    Ball { pos: Vec2 { x: px, y: py }, vel: Vec2 { x: bx.1, y: vy }, ..b }
}

/// The integration pass over the whole registry.
pub open spec fn integrate_all(balls: Seq<Ball>, bounds: Bounds, dt: int) -> Seq<Ball> {
    balls.map_values(|b: Ball| integrate_ball(b, bounds, dt))
}

/// One integration pass over every ball in the registry.
pub fn ball_movement(reg: &mut Registry, bounds: Bounds, dt: i64)
    requires
        bounds.wf(),
        0 < dt <= DT_LIMIT,
        forall|i: int|
            0 <= i < old(reg).balls@.len() ==> comp_within(
                (#[trigger] old(reg).balls@[i]).pos,
                POS_LIMIT as int,
            ) && comp_within(old(reg).balls@[i].vel, VEL_LIMIT as int),
    ensures
        final(reg).next_id == old(reg).next_id,
        final(reg).balls@ == integrate_all(old(reg).balls@, bounds, dt as int),
        forall|i: int|
            0 <= i < final(reg).balls@.len() ==> comp_within(
                (#[trigger] final(reg).balls@[i]).pos,
                8_000_000_000_000_000int,
            ) && comp_within(final(reg).balls@[i].vel, VEL_LIMIT + 300_000_000int),
{
    let n = reg.balls.len();
    let mut i: usize = 0;
    while i < n
        invariant
            i <= n,
            n == reg.balls@.len(),
            reg.balls@.len() == old(reg).balls@.len(),
            reg.next_id == old(reg).next_id,
            bounds.wf(),
            0 < dt <= DT_LIMIT,
            forall|k: int|
                0 <= k < old(reg).balls@.len() ==> comp_within(
                    (#[trigger] old(reg).balls@[k]).pos,
                    POS_LIMIT as int,
                ) && comp_within(old(reg).balls@[k].vel, VEL_LIMIT as int),
            forall|k: int|
                0 <= k < i ==> reg.balls@[k] == integrate_ball(old(reg).balls@[k], bounds, dt as int),
            forall|k: int|
                0 <= k < i ==> comp_within((#[trigger] reg.balls@[k]).pos, 8_000_000_000_000_000int)
                    && comp_within(reg.balls@[k].vel, VEL_LIMIT + 300_000_000int),
            forall|k: int| i <= k < n ==> reg.balls@[k] == old(reg).balls@[k],
        decreases n - i,
    {
        let b = reg.balls[i];
        reg.balls[i] = integrate_one(b, bounds, dt);
        i = i + 1;
    }
    proof {
        assert(reg.balls@ =~= integrate_all(old(reg).balls@, bounds, dt as int));
    }
}

/// Boundary clamp: a ball beyond an edge at tick start is clamped exactly to
/// that edge by the boundary step, with the corresponding velocity component
/// flipped in sign and its magnitude scaled by the friction factor 4/5.
pub proof fn lemma_boundary_clamp(b: Ball, bounds: Bounds)
    requires
        bounds.wf(),
    ensures
        b.pos.x < -bounds.half_width ==> (bounce_ball(b, bounds).pos.x == -bounds.half_width
            && iabs(bounce_ball(b, bounds).vel.x as int) == div_trunc(
            FRICTION_NUM as int * iabs(b.vel.x as int),
            FRICTION_DEN as int,
        ) && bounce_ball(b, bounds).vel.x as int * (b.vel.x as int) <= 0),
        b.pos.x > bounds.half_width ==> (bounce_ball(b, bounds).pos.x == bounds.half_width
            && iabs(bounce_ball(b, bounds).vel.x as int) == div_trunc(
            FRICTION_NUM as int * iabs(b.vel.x as int),
            FRICTION_DEN as int,
        ) && bounce_ball(b, bounds).vel.x as int * (b.vel.x as int) <= 0),
        b.pos.y < -bounds.half_height ==> (bounce_ball(b, bounds).pos.y == -bounds.half_height
            && iabs(bounce_ball(b, bounds).vel.y as int) == div_trunc(
            FRICTION_NUM as int * iabs(b.vel.y as int),
            FRICTION_DEN as int,
        ) && bounce_ball(b, bounds).vel.y as int * (b.vel.y as int) <= 0),
        b.pos.y > bounds.half_height ==> (bounce_ball(b, bounds).pos.y == bounds.half_height
            && iabs(bounce_ball(b, bounds).vel.y as int) == div_trunc(
            FRICTION_NUM as int * iabs(b.vel.y as int),
            FRICTION_DEN as int,
        ) && bounce_ball(b, bounds).vel.y as int * (b.vel.y as int) <= 0),
        -bounds.half_width <= b.pos.x <= bounds.half_width ==> bounce_ball(b, bounds).pos.x
            == b.pos.x && bounce_ball(b, bounds).vel.x == b.vel.x,
        -bounds.half_height <= b.pos.y <= bounds.half_height ==> bounce_ball(b, bounds).pos.y
            == b.pos.y && bounce_ball(b, bounds).vel.y == b.vel.y,
{
    lemma_bounce_axis_clamp(b.pos.x as int, b.vel.x as int, bounds.half_width as int);
    lemma_bounce_axis_clamp(b.pos.y as int, b.vel.y as int, bounds.half_height as int);
}

proof fn lemma_bounce_axis_clamp(pos: int, vel: int, half: int)
    requires
        0 <= half,
        -0x8000_0000_0000_0000 <= vel <= 0x7fff_ffff_ffff_ffff,
    ensures
        pos < -half || pos > half ==> (iabs(bounce_axis_spec(pos, vel, half).1) == div_trunc(
            FRICTION_NUM as int * iabs(vel),
            FRICTION_DEN as int,
        ) && bounce_axis_spec(pos, vel, half).1 * vel <= 0),
        -0x7fff_ffff_ffff_ffff <= bounce_axis_spec(pos, vel, half).1 <= 0x7fff_ffff_ffff_ffff
            || bounce_axis_spec(pos, vel, half).1 == vel,
{
    lemma_div_trunc_bound(FRICTION_NUM as int * vel, FRICTION_DEN as int, 0x7fff_ffff_ffff_ffff);
    lemma_div_trunc_bound(FRICTION_NUM as int * vel, FRICTION_DEN as int, iabs(vel));
    let q = div_trunc(FRICTION_NUM as int * vel, FRICTION_DEN as int);
    if vel >= 0 {
        vstd::arithmetic::div_mod::lemma_div_pos_is_pos(FRICTION_NUM as int * vel, FRICTION_DEN as int);
        assert((-q) * vel <= 0) by (nonlinear_arith)
            requires q >= 0 && vel >= 0;
    } else {
        vstd::arithmetic::div_mod::lemma_div_pos_is_pos(-(FRICTION_NUM as int * vel), FRICTION_DEN as int);
        assert((-q) * vel <= 0) by (nonlinear_arith)
            requires q <= 0 && vel < 0;
    }
}

/// Gravity lag: a ball with no vertical velocity that starts the tick inside
/// the vertical bounds keeps its vertical position through the whole pass,
/// while its vertical velocity becomes exactly `-500 * dt` (gravity acts on
/// the position only from the next tick on).
pub proof fn lemma_gravity_lag(b: Ball, bounds: Bounds, dt: int)
    requires
        bounds.wf(),
        -bounds.half_height <= b.pos.y <= bounds.half_height,
        b.vel.y == 0,
        0 <= dt <= DT_LIMIT,
    ensures
        integrate_ball(b, bounds, dt).pos.y == b.pos.y,
        integrate_ball(b, bounds, dt).vel.y as int == -500 * dt,
{
    let bb = bounce_ball(b, bounds);
    assert(bb.pos.y == b.pos.y && bb.vel.y == 0);
    assert(mul_scaled(0, dt) == 0) by {
        assert(0 * dt == 0) by (nonlinear_arith);
        lemma_div_trunc_exact(0, 1000);
        assert(0 * 1000 == 0) by (nonlinear_arith);
    }
    assert(mul_scaled(GRAVITY as int, dt) == -500 * dt) by {
        assert(GRAVITY as int * dt == (-500 * dt) * 1000) by (nonlinear_arith);
        lemma_div_trunc_exact(-500 * dt, 1000);
    }
}

} // verus!
