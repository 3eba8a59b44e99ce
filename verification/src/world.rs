//! One logical tick of the playground: input steering, integration,
//! collision detection and collision resolution, in that strict order, all
//! against the same registry. No state but the registry survives the tick.

use vstd::prelude::*;
use crate::ball::{comp_within, Ball, Bounds, KeyState, DT_LIMIT, POS_LIMIT};
use crate::collision::{ball_collision_detection, detect_spec, lemma_detect_upto_len};
use crate::input::{player_movement, steer_all, steer_ball};
use crate::integrate::{ball_movement, integrate_all, integrate_ball};
use crate::math::{iabs, lemma_div_trunc_bound};
use crate::registry::{unique_ids, Registry};
use crate::resolve::{ball_collision, lemma_max_vel, lemma_max_vel_le, lemma_vel_cap_grows, lemma_vel_cap_mono_m, max_vel, resolve_all, vel_cap_after, vels_bounded};

verus! {

/// Largest position component and arena half-extent one tick accepts.
pub const TICK_POS_LIMIT: i64 = 1_000_000_000_000_000;

/// Largest velocity component one tick accepts.
pub const TICK_VEL_LIMIT: i64 = 100_000_000;

/// Largest ball count one tick accepts (the player and `NUM_OF_BALLS`).
pub const TICK_BALLS_LIMIT: usize = 7;

/// What one tick leaves in the registry: the steered, integrated balls,
/// with this tick's collision records resolved in order.
pub open spec fn tick_spec(balls: Seq<Ball>, bounds: Bounds, keys: KeyState, dt: int) -> Seq<
    Ball,
> {
    let moved = integrate_all(steer_all(balls, keys), bounds, dt);
    resolve_all(moved, detect_spec(moved))
}

/// Under the tick's caps, integration keeps positions within the detector's
/// bounds and velocities within the resolver's starting bound.
proof fn lemma_integrate_ball_caps(b: Ball, bounds: Bounds, dt: int)
    requires
        bounds.wf(),
        bounds.half_width <= TICK_POS_LIMIT,
        bounds.half_height <= TICK_POS_LIMIT,
        comp_within(b.pos, TICK_POS_LIMIT as int),
        comp_within(b.vel, 100_050_000int),
        0 < dt <= DT_LIMIT,
    ensures
        comp_within(integrate_ball(b, bounds, dt).pos, POS_LIMIT as int),
        comp_within(integrate_ball(b, bounds, dt).vel, 400_050_000int),
{
    lemma_div_trunc_bound(4 * (b.vel.x as int), 5, iabs(b.vel.x as int));
    lemma_div_trunc_bound(4 * (b.vel.y as int), 5, iabs(b.vel.y as int));
    let bb = crate::integrate::bounce_ball(b, bounds);
    assert(comp_within(bb.pos, TICK_POS_LIMIT as int));
    assert(comp_within(bb.vel, 100_050_000int));
    assert(-60_030_000_000_000_000 <= bb.vel.x as int * dt <= 60_030_000_000_000_000)
        by (nonlinear_arith)
        requires -100_050_000 <= bb.vel.x as int <= 100_050_000 && 0 < dt <= 600_000;
    assert(-60_030_000_000_000_000 <= bb.vel.y as int * dt <= 60_030_000_000_000_000)
        by (nonlinear_arith)
        requires -100_050_000 <= bb.vel.y as int <= 100_050_000 && 0 < dt <= 600_000;
    lemma_div_trunc_bound(bb.vel.x as int * dt, 1000, 60_030_000_000_000);
    lemma_div_trunc_bound(bb.vel.y as int * dt, 1000, 60_030_000_000_000);
    assert(-300_000_000_000 <= -500_000 * dt <= 300_000_000_000) by (nonlinear_arith)
        requires 0 < dt <= 600_000;
    lemma_div_trunc_bound(-500_000 * dt, 1000, 300_000_000);
}

/// Runs one full tick: steering, integration, detection, resolution.
pub fn tick(reg: &mut Registry, bounds: Bounds, keys: KeyState, dt: i64)
    requires
        old(reg).wf(),
        old(reg).balls@.len() <= TICK_BALLS_LIMIT,
        bounds.wf(),
        bounds.half_width <= TICK_POS_LIMIT,
        bounds.half_height <= TICK_POS_LIMIT,
        0 < dt <= DT_LIMIT,
        forall|i: int|
            0 <= i < old(reg).balls@.len() ==> comp_within(
                (#[trigger] old(reg).balls@[i]).pos,
                TICK_POS_LIMIT as int,
            ) && comp_within(old(reg).balls@[i].vel, TICK_VEL_LIMIT as int) && 0 <= old(
                reg,
            ).balls@[i].radius <= POS_LIMIT,
    ensures
        final(reg).wf(),
        final(reg).next_id == old(reg).next_id,
        final(reg).balls@ == tick_spec(old(reg).balls@, bounds, keys, dt as int),
{
    let ghost orig = reg.balls@;
    player_movement(reg, keys);
    proof {
        let steered = steer_all(orig, keys);
        assert(reg.balls@ == steered);
        assert forall|i: int| 0 <= i < steered.len() implies comp_within(
            (#[trigger] steered[i]).pos,
            TICK_POS_LIMIT as int,
        ) && comp_within(steered[i].vel, 100_050_000int) && 0 <= steered[i].radius <= POS_LIMIT
            && steered[i].id == orig[i].id && steered[i].radius == orig[i].radius
            && steered[i].role == orig[i].role by {
            assert(steered[i] == steer_ball(orig[i], keys));
        }
    }
    ball_movement(reg, bounds, dt);
    proof {
        let steered = steer_all(orig, keys);
        let moved = integrate_all(steered, bounds, dt as int);
        assert(reg.balls@ == moved);
        assert forall|i: int| 0 <= i < moved.len() implies comp_within(
            (#[trigger] moved[i]).pos,
            POS_LIMIT as int,
        ) && comp_within(moved[i].vel, 400_050_000int) && 0 <= moved[i].radius <= POS_LIMIT
            && moved[i].id == orig[i].id by {
            assert(moved[i] == integrate_ball(steered[i], bounds, dt as int));
            lemma_integrate_ball_caps(steered[i], bounds, dt as int);
        }
        assert(unique_ids(reg.balls@));
        assert(reg.wf());
        assert(vels_bounded(reg.balls@, 400_050_000int));
    }
    let evs = ball_collision_detection(reg);
    proof {
        lemma_detect_upto_len(reg.balls@, reg.balls@.len(), 0);
        assert(reg.balls@.len() * reg.balls@.len() <= 49) by (nonlinear_arith)
            requires reg.balls@.len() <= 7;
        assert(evs@.len() <= 49);
        lemma_max_vel_le(reg.balls@, 400_050_000int);
        lemma_max_vel(reg.balls@);
        lemma_vel_cap_mono_m(max_vel(reg.balls@), 400_050_000int, evs@.len());
        lemma_vel_cap_grows(400_050_000int, evs@.len(), 49nat);
        reveal_with_fuel(vel_cap_after, 51);
        assert(vel_cap_after(400_050_000int, 49nat) <= 0x7fff_ffff_ffff_ffff);
    }
    ball_collision(reg, &evs);
}

} // verus!
