//! The entity registry: owns the simulated balls, hands out stable unique
//! ids, and offers id-keyed lookup and velocity mutation. Looking up an id
//! that is not present is a quiet failure, never an error.

use vstd::prelude::*;
use crate::ball::{Ball, Role, Vec2, BALL_RADIUS, INIT_VEL, NUM_OF_BALLS};
use crate::ball::Bounds;
use crate::rng::random_in_range;

verus! {

/// No two balls share an id.
pub open spec fn unique_ids(balls: Seq<Ball>) -> bool {
    forall|i: int, j: int|
        0 <= i < balls.len() && 0 <= j < balls.len() && i != j ==> balls[i].id != balls[j].id
}

/// Index of the first ball carrying `id`, or -1 when none does.
pub open spec fn find_index(balls: Seq<Ball>, id: u64) -> int
    decreases balls.len(),
{
    if balls.len() == 0 {
        -1
    } else if balls[0].id == id {
        0
    } else {
        let r = find_index(balls.drop_first(), id);
        if r == -1 {
            -1
        } else {
            r + 1
        }
    }
}

/// What `find_index` finds: the first matching index, or no match at all.
pub proof fn lemma_find_index(balls: Seq<Ball>, id: u64)
    ensures
        find_index(balls, id) == -1 ==> forall|i: int|
            0 <= i < balls.len() ==> balls[i].id != id,
        find_index(balls, id) != -1 ==> 0 <= find_index(balls, id) < balls.len() && balls[
            find_index(balls, id)
        ].id == id && forall|i: int| 0 <= i < find_index(balls, id) ==> balls[i].id != id,
    decreases balls.len(),
{
    if balls.len() == 0 {
    } else if balls[0].id == id {
    } else {
        let rest = balls.drop_first();
        lemma_find_index(rest, id);
        let r = find_index(rest, id);
        if r == -1 {
            assert forall|i: int| 0 <= i < balls.len() implies balls[i].id != id by {
                if i > 0 {
                    assert(rest[i - 1] == balls[i]);
                }
            }
        } else {
            assert(balls[r + 1] == rest[r]);
            assert forall|i: int| 0 <= i < r + 1 implies balls[i].id != id by {
                if i > 0 {
                    assert(rest[i - 1] == balls[i]);
                }
            }
        }
    }
}

/// What is known of a freshly placed autonomous ball: its role, the shared
/// radius, a position within the arena, and a starting velocity within
/// `[-INIT_VEL, INIT_VEL)` on each axis.
pub open spec fn fresh_ordinary(b: Ball, bounds: Bounds) -> bool {
    &&& b.role == Role::Ordinary
    &&& b.radius == BALL_RADIUS
    &&& -bounds.half_width <= b.pos.x < bounds.half_width
    &&& -bounds.half_height <= b.pos.y < bounds.half_height
    &&& -INIT_VEL <= b.vel.x < INIT_VEL
    &&& -INIT_VEL <= b.vel.y < INIT_VEL
}

/// The entity registry.
pub struct Registry {
    pub balls: Vec<Ball>,
    pub next_id: u64,
}

impl Registry {
    /// Ids are unique and stay below the counter that hands out fresh ones.
    pub open spec fn wf(self) -> bool {
        &&& unique_ids(self.balls@)
        &&& forall|i: int| 0 <= i < self.balls@.len() ==> self.balls@[i].id < self.next_id
    }

    /// An empty registry.
    pub fn new() -> (r: Registry)
        ensures
            r.balls@.len() == 0,
            r.next_id == 0,
            r.wf(),
    {
        Registry { balls: Vec::new(), next_id: 0 }
    }

    /// Index of the ball carrying `id`, if it is present.
    pub fn index_of(&self, id: u64) -> (r: Option<usize>)
        ensures
            ({
                let fi = find_index(self.balls@, id);
                if fi == -1 {
                    r is None
                } else {
                    r == Some(fi as usize)
                }
            }),
    {
        proof {
            lemma_find_index(self.balls@, id);
        }
        let n = self.balls.len();
        let mut i: usize = 0;
        while i < n
            invariant
                i <= n,
                n == self.balls@.len(),
                forall|k: int| 0 <= k < i ==> self.balls@[k].id != id,
                find_index(self.balls@, id) == -1 ==> forall|k: int|
                    0 <= k < n ==> self.balls@[k].id != id,
                find_index(self.balls@, id) != -1 ==> 0 <= find_index(self.balls@, id) < n
                    && self.balls@[find_index(self.balls@, id)].id == id && forall|k: int|
                    0 <= k < find_index(self.balls@, id) ==> self.balls@[k].id != id,
            decreases n - i,
        {
            if self.balls[i].id == id {
                return Some(i);
            }
            i = i + 1;
        }
        None
    }

    /// Current velocity of the ball carrying `id`, if it is present.
    pub fn get_vel(&self, id: u64) -> (r: Option<Vec2>)
        ensures
            ({
                let fi = find_index(self.balls@, id);
                if fi == -1 {
                    r is None
                } else {
                    r == Some(self.balls@[fi].vel)
                }
            }),
    {
        proof {
            lemma_find_index(self.balls@, id);
        }
        let _n = self.balls.len();
        match self.index_of(id) {
            Some(i) => Some(self.balls[i].vel),
            None => None,
        }
    }

    /// Overwrites the velocity of the ball carrying `id`. A missing id is a
    /// no-op failure.
    pub fn set_vel(&mut self, id: u64, vel: Vec2) -> (found: bool)
        ensures
            final(self).next_id == old(self).next_id,
            ({
                let fi = find_index(old(self).balls@, id);
                if fi == -1 {
                    final(self).balls@ == old(self).balls@ && !found
                } else {
                    final(self).balls@ == old(self).balls@.update(
                        fi,
                        Ball { vel, ..old(self).balls@[fi] },
                    ) && found
                }
            }),
    {
        proof {
            lemma_find_index(self.balls@, id);
        }
        let _n = self.balls.len();
        match self.index_of(id) {
            Some(i) => {
                let mut b = self.balls[i];
                b.vel = vel;
                self.balls[i] = b;
                true
            },
            None => false,
        }
    }

    /// Adds a ball with a fresh id; returns that id.
    pub fn add_ball(&mut self, pos: Vec2, vel: Vec2, role: Role) -> (id: u64)
        requires
            old(self).wf(),
            old(self).next_id < u64::MAX,
        ensures
            id == old(self).next_id,
            final(self).next_id == old(self).next_id + 1,
            final(self).balls@ == old(self).balls@.push(
                Ball { id, pos, vel, radius: BALL_RADIUS, role },
            ),
            final(self).wf(),
    {
        let id = self.next_id;
        let b = Ball::new(id, pos, vel, role);
        self.balls.push(b);
        self.next_id = id + 1;
        proof {
            assert forall|i: int, j: int|
                0 <= i < self.balls@.len() && 0 <= j < self.balls@.len() && i != j implies self
                .balls@[i].id != self.balls@[j].id by {
                assert(i < self.balls@.len() - 1 ==> self.balls@[i] == old(self).balls@[i]);
                assert(j < self.balls@.len() - 1 ==> self.balls@[j] == old(self).balls@[j]);
            }
        }
        id
    }

    /// Places the player ball at the origin, at rest.
    pub fn spawn_player(&mut self) -> (id: u64)
        requires
            old(self).wf(),
            old(self).next_id < u64::MAX,
        ensures
            id == old(self).next_id,
            final(self).next_id == old(self).next_id + 1,
            final(self).balls@ == old(self).balls@.push(
                Ball {
                    id,
                    pos: Vec2 { x: 0, y: 0 },
                    vel: Vec2 { x: 0, y: 0 },
                    radius: BALL_RADIUS,
                    role: Role::Player,
                },
            ),
            final(self).wf(),
    {
        self.add_ball(Vec2 { x: 0, y: 0 }, Vec2 { x: 0, y: 0 }, Role::Player)
    }

    /// Places `NUM_OF_BALLS` autonomous balls, positioned uniformly within
    /// the arena and with each velocity component uniform in
    /// `[-INIT_VEL, INIT_VEL)`.
    pub fn spawn_balls(&mut self, bounds: Bounds)
        requires
            old(self).wf(),
            old(self).next_id + NUM_OF_BALLS < u64::MAX,
            0 < bounds.half_width,
            0 < bounds.half_height,
        ensures
            final(self).wf(),
            final(self).next_id == old(self).next_id + NUM_OF_BALLS,
            final(self).balls@.len() == old(self).balls@.len() + NUM_OF_BALLS,
            forall|i: int|
                0 <= i < old(self).balls@.len() ==> final(self).balls@[i] == old(self).balls@[i],
            forall|i: int|
                old(self).balls@.len() <= i < final(self).balls@.len() ==> fresh_ordinary(
                    #[trigger] final(self).balls@[i],
                    bounds,
                ),
    {
        let ghost orig = self.balls@;
        let ghost orig_next = self.next_id;
        let mut k: usize = 0;
        while k < NUM_OF_BALLS
            invariant
                k <= NUM_OF_BALLS,
                self.wf(),
                0 < bounds.half_width,
                0 < bounds.half_height,
                self.next_id == orig_next + k,
                orig_next + NUM_OF_BALLS < u64::MAX,
                self.balls@.len() == orig.len() + k,
                forall|i: int| 0 <= i < orig.len() ==> self.balls@[i] == orig[i],
                forall|i: int|
                    orig.len() <= i < self.balls@.len() ==> fresh_ordinary(
                        #[trigger] self.balls@[i],
                        bounds,
                    ),
            decreases NUM_OF_BALLS - k,
        {
            let px = random_in_range(-bounds.half_width, bounds.half_width);
            let py = random_in_range(-bounds.half_height, bounds.half_height);
            let vx = random_in_range(-INIT_VEL, INIT_VEL);
            let vy = random_in_range(-INIT_VEL, INIT_VEL);
            self.add_ball(Vec2 { x: px, y: py }, Vec2 { x: vx, y: vy }, Role::Ordinary);
            k = k + 1;
        }
    }
}

} // verus!
