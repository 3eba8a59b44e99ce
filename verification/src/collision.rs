//! The collision detector: every ordered pair of distinct balls is tested —
//! both (A, B) and (B, A) — by comparing the squared center distance with
//! the squared radius sum. Strict inequality means collided; touching does
//! not. A colliding pair yields a transient record carrying the center
//! delta, which stands for the contact angle `atan2(dx, dy)`: that angle's
//! sine and cosine are `dx/d` and `dy/d` for `d = sqrt(dx^2 + dy^2)`, and
//! the resolver consumes the angle only through them.

use vstd::prelude::*;
use crate::ball::{comp_within, Ball, Vec2, POS_LIMIT};
use crate::registry::Registry;

verus! {

/// The squared center distance.
pub open spec fn sq_dist(pa: Vec2, pb: Vec2) -> int {
    (pb.x - pa.x) * (pb.x - pa.x) + (pb.y - pa.y) * (pb.y - pa.y)
}

/// The strict overlap test: balls whose centers are exactly a radius sum
/// apart are not collided.
pub open spec fn spec_collided(pa: Vec2, ra: int, pb: Vec2, rb: int) -> bool {
    sq_dist(pa, pb) < (ra + rb) * (ra + rb)
}

/// Touching is not colliding: centers exactly a radius sum apart fail the
/// strict overlap test.
pub proof fn lemma_touching_not_collided(pa: Vec2, ra: int, pb: Vec2, rb: int)
    requires
        sq_dist(pa, pb) == (ra + rb) * (ra + rb),
    ensures
        !spec_collided(pa, ra, pb, rb),
{
}

/// A transient record of one tested ordered pair, emitted by detection for
/// colliding pairs and drained by resolution within the same tick.
#[derive(Clone, Copy, Debug, PartialEq, Eq, Structural)]
pub struct BallCollision {
    pub ent_a: u64,
    pub pos_a: Vec2,
    pub ent_b: u64,
    pub pos_b: Vec2,
    pub is_collided: bool,
    pub dx: i64,
    pub dy: i64,
}

impl BallCollision {
    /// Classifies one ordered pair and captures the center delta.
    pub fn new(
        ent_a: u64,
        pos_a: Vec2,
        radius_a: i64,
        ent_b: u64,
        pos_b: Vec2,
        radius_b: i64,
    ) -> (r: BallCollision)
        requires
            comp_within(pos_a, POS_LIMIT as int),
            comp_within(pos_b, POS_LIMIT as int),
            0 <= radius_a <= POS_LIMIT,
            0 <= radius_b <= POS_LIMIT,
        ensures
            r.ent_a == ent_a,
            r.pos_a == pos_a,
            r.ent_b == ent_b,
            r.pos_b == pos_b,
            r.dx == pos_b.x - pos_a.x,
            r.dy == pos_b.y - pos_a.y,
            r.is_collided == spec_collided(pos_a, radius_a as int, pos_b, radius_b as int),
    {
        let dx: i64 = pos_b.x - pos_a.x;
        let dy: i64 = pos_b.y - pos_a.y;
        proof {
            assert(-4_000_000_000_000_000 <= dx <= 4_000_000_000_000_000);
            assert((dx as i128) * (dx as i128) <= 16_000_000_000_000_000_000_000_000_000_000int
                && 0 <= (dx as i128) * (dx as i128)) by (nonlinear_arith)
                requires -4_000_000_000_000_000 <= dx as i128 <= 4_000_000_000_000_000;
            assert((dy as i128) * (dy as i128) <= 16_000_000_000_000_000_000_000_000_000_000int
                && 0 <= (dy as i128) * (dy as i128)) by (nonlinear_arith)
                requires -4_000_000_000_000_000 <= dy as i128 <= 4_000_000_000_000_000;
            assert(0 <= (radius_a + radius_b as i128) * (radius_a + radius_b as i128)
                <= 16_000_000_000_000_000_000_000_000_000_000int) by (nonlinear_arith)
                requires 0 <= radius_a + radius_b as i128 <= 4_000_000_000_000_000;
        }
        let dx2: i128 = (dx as i128) * (dx as i128);
        let dy2: i128 = (dy as i128) * (dy as i128);
        let ar: i128 = (radius_a as i128) + (radius_b as i128);
        let ar2: i128 = ar * ar;
        let is_collided = dx2 + dy2 < ar2;
        BallCollision { ent_a, pos_a, ent_b, pos_b, is_collided, dx, dy }
    }
}

/// The record detection emits for the ordered pair (a, b).
pub open spec fn record_of(a: Ball, b: Ball) -> BallCollision {
    BallCollision {
        ent_a: a.id,
        pos_a: a.pos,
        ent_b: b.id,
        pos_b: b.pos,
        is_collided: true,
        dx: (b.pos.x - a.pos.x) as i64,
        dy: (b.pos.y - a.pos.y) as i64,
    }
}

/// What the pair (i, j) contributes: one record when the balls are distinct
/// and overlap, nothing otherwise.
pub open spec fn pair_records(balls: Seq<Ball>, i: int, j: int) -> Seq<BallCollision> {
    if i != j && spec_collided(
        balls[i].pos,
        balls[i].radius as int,
        balls[j].pos,
        balls[j].radius as int,
    ) {
        seq![record_of(balls[i], balls[j])]
    } else {
        Seq::empty()
    }
}

/// Records from every ordered pair enumerated row-major before (i, j):
/// all pairs whose first index is below `i`, then those with first index
/// `i` and second index below `j`.
pub open spec fn detect_upto(balls: Seq<Ball>, i: nat, j: nat) -> Seq<BallCollision>
    decreases i, j,
{
    if j == 0 {
        if i == 0 {
            Seq::empty()
        } else {
            detect_upto(balls, (i - 1) as nat, balls.len())
        }
    } else {
        detect_upto(balls, i, (j - 1) as nat) + pair_records(balls, i as int, j as int - 1)
    }
}

/// Every record of the tick, in the deterministic row-major pair order.
pub open spec fn detect_spec(balls: Seq<Ball>) -> Seq<BallCollision> {
    detect_upto(balls, balls.len(), 0)
}

/// Detection emits at most one record per ordered pair.
pub proof fn lemma_detect_upto_len(balls: Seq<Ball>, i: nat, j: nat)
    ensures
        detect_upto(balls, i, j).len() <= i * balls.len() + j,
    decreases i, j,
{
    if j == 0 {
        if i != 0 {
            lemma_detect_upto_len(balls, (i - 1) as nat, balls.len());
            assert((i - 1) * balls.len() + balls.len() == i * balls.len()) by (nonlinear_arith);
        }
    } else {
        lemma_detect_upto_len(balls, i, (j - 1) as nat);
    }
}

/// Scans all ordered pairs of distinct balls and emits one record for every
/// overlapping pair, in the deterministic row-major order.
pub fn ball_collision_detection(reg: &Registry) -> (evs: Vec<BallCollision>)
    requires
        forall|i: int|
            0 <= i < reg.balls@.len() ==> comp_within(
                (#[trigger] reg.balls@[i]).pos,
                POS_LIMIT as int,
            ) && 0 <= reg.balls@[i].radius <= POS_LIMIT,
    ensures
        evs@ == detect_spec(reg.balls@),
{
    let n = reg.balls.len();
    let mut evs: Vec<BallCollision> = Vec::new();
    let mut i: usize = 0;
    while i < n
        invariant
            i <= n,
            n == reg.balls@.len(),
            forall|k: int|
                0 <= k < reg.balls@.len() ==> comp_within(
                    (#[trigger] reg.balls@[k]).pos,
                    POS_LIMIT as int,
                ) && 0 <= reg.balls@[k].radius <= POS_LIMIT,
            evs@ == detect_upto(reg.balls@, i as nat, 0),
        decreases n - i,
    {
        let mut j: usize = 0;
        while j < n
            invariant
                i < n,
                j <= n,
                n == reg.balls@.len(),
                forall|k: int|
                    0 <= k < reg.balls@.len() ==> comp_within(
                        (#[trigger] reg.balls@[k]).pos,
                        POS_LIMIT as int,
                    ) && 0 <= reg.balls@[k].radius <= POS_LIMIT,
                evs@ == detect_upto(reg.balls@, i as nat, j as nat),
            decreases n - j,
        {
            let ghost pre = evs@;
            if i != j {
                let a = reg.balls[i];
                let b = reg.balls[j];
                let bc = BallCollision::new(a.id, a.pos, a.radius, b.id, b.pos, b.radius);
                if bc.is_collided {
                    proof {
                        assert(bc == record_of(reg.balls@[i as int], reg.balls@[j as int]));
                    }
                    evs.push(bc);
                }
            }
            proof {
                assert(evs@ =~= pre + pair_records(reg.balls@, i as int, j as int));
                assert(detect_upto(reg.balls@, i as nat, (j + 1) as nat) == detect_upto(
                    reg.balls@,
                    i as nat,
                    j as nat,
                ) + pair_records(reg.balls@, i as int, j as int));
            }
            j = j + 1;
        }
        proof {
            assert(detect_upto(reg.balls@, (i + 1) as nat, 0) == detect_upto(
                reg.balls@,
                i as nat,
                n as nat,
            ));
        }
        i = i + 1;
    }
    evs
}

} // verus!
