//! The input translator: the pressed movement keys add `ACCELERATE` to the
//! player ball's velocity, one increment per pressed key per tick, never
//! scaled by elapsed time (input response is frame-rate dependent by design
//! — no tick duration even reaches this pass).

use vstd::prelude::*;
use crate::ball::{comp_within, Ball, KeyState, Role, Vec2, ACCELERATE};
use crate::registry::Registry;

verus! {

/// Net velocity change the pressed keys deal the player this tick.
pub open spec fn key_delta(keys: KeyState) -> (int, int) {
    (
        (if keys.right {
            ACCELERATE as int
        } else {
            0
        }) - (if keys.left {
            ACCELERATE as int
        } else {
            0
        }),
        (if keys.up {
            ACCELERATE as int
        } else {
            0
        }) - (if keys.down {
            ACCELERATE as int
        } else {
            0
        }),
    )
}

/// Steering applied to one ball: only a player ball reacts.
pub open spec fn steer_ball(b: Ball, keys: KeyState) -> Ball {
    if b.role == Role::Player {
        Ball {
            vel: Vec2 {
                x: (b.vel.x + key_delta(keys).0) as i64,
                y: (b.vel.y + key_delta(keys).1) as i64,
            },
            ..b
        }
    } else {
        b
    }
}

/// The whole registry steered.
pub open spec fn steer_all(balls: Seq<Ball>, keys: KeyState) -> Seq<Ball> {
    balls.map_values(|b: Ball| steer_ball(b, keys))
}

/// Applies the pressed keys to every player-tagged ball.
pub fn player_movement(reg: &mut Registry, keys: KeyState)
    requires
        forall|i: int|
            0 <= i < old(reg).balls@.len() ==> comp_within(
                (#[trigger] old(reg).balls@[i]).vel,
                9_223_372_036_854_675_807int,
            ),
    ensures
        final(reg).next_id == old(reg).next_id,
        final(reg).balls@ == steer_all(old(reg).balls@, keys),
{
    let n = reg.balls.len();
    let mut i: usize = 0;
    while i < n
        invariant
            i <= n,
            n == reg.balls@.len(),
            reg.balls@.len() == old(reg).balls@.len(),
            reg.next_id == old(reg).next_id,
            forall|k: int|
                0 <= k < old(reg).balls@.len() ==> comp_within(
                    (#[trigger] old(reg).balls@[k]).vel,
                    9_223_372_036_854_675_807int,
                ),
            forall|k: int| 0 <= k < i ==> reg.balls@[k] == steer_ball(old(reg).balls@[k], keys),
            forall|k: int| i <= k < n ==> reg.balls@[k] == old(reg).balls@[k],
        decreases n - i,
    {
        let b = reg.balls[i];
        if matches!(b.role, Role::Player) {
            let mut v = b.vel;
            if keys.down {
                v.y = v.y - ACCELERATE;
            }
            if keys.up {
                v.y = v.y + ACCELERATE;
            }
            if keys.left {
                v.x = v.x - ACCELERATE;
            }
            if keys.right {
                v.x = v.x + ACCELERATE;
            }
            reg.balls[i] = Ball { vel: v, ..b };
        }
        i = i + 1;
    }
    proof {
        assert(reg.balls@ =~= steer_all(old(reg).balls@, keys));
    }
}

} // verus!
