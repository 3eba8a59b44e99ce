// Detection, resolution and registry behaviour.

use ball_arena::ball::{Bounds, Role, Vec2, BALL_RADIUS, INIT_VEL, NUM_OF_BALLS};
use ball_arena::collision::{ball_collision_detection, BallCollision};
use ball_arena::registry::Registry;
use ball_arena::resolve::ball_collision;

#[test]
fn touching_is_not_collided() {
    // radius 12 each, center distance exactly 24: strict inequality fails
    let r = BallCollision::new(
        1,
        Vec2 { x: 0, y: 0 },
        12_000,
        2,
        Vec2 { x: 24_000, y: 0 },
        12_000,
    );
    assert!(!r.is_collided);
}

#[test]
fn slightly_closer_is_collided() {
    // center distance 23.999 overlaps
    let r = BallCollision::new(
        1,
        Vec2 { x: 0, y: 0 },
        12_000,
        2,
        Vec2 { x: 23_999, y: 0 },
        12_000,
    );
    assert!(r.is_collided);
}

#[test]
fn contact_angle_from_horizontal_delta() {
    // A at (0,0), B at (10,0): dx = 10, dy = 0, so the contact angle is
    // atan2(10, 0), a right angle; the record carries that direction
    let r = BallCollision::new(
        1,
        Vec2 { x: 0, y: 0 },
        12_000,
        2,
        Vec2 { x: 10_000, y: 0 },
        12_000,
    );
    assert!(r.is_collided);
    assert_eq!(r.dx, 10_000);
    assert_eq!(r.dy, 0);
}

#[test]
fn detection_emits_both_orders() {
    let mut reg = Registry::new();
    let a = reg.add_ball(Vec2 { x: 0, y: 0 }, Vec2 { x: 0, y: 0 }, Role::Ordinary);
    let b = reg.add_ball(Vec2 { x: 10_000, y: 0 }, Vec2 { x: 0, y: 0 }, Role::Ordinary);
    let far = reg.add_ball(Vec2 { x: 200_000, y: 0 }, Vec2 { x: 0, y: 0 }, Role::Ordinary);
    let evs = ball_collision_detection(&reg);
    // both (a, b) and (b, a), in row-major pair order, nothing for `far`
    assert_eq!(evs.len(), 2);
    assert_eq!(evs[0].ent_a, a);
    assert_eq!(evs[0].ent_b, b);
    assert_eq!(evs[1].ent_a, b);
    assert_eq!(evs[1].ent_b, a);
    assert!(evs.iter().all(|e| e.ent_a != far && e.ent_b != far));
}

#[test]
fn resolver_asymmetry() {
    // speeds 3 and 5, contact angle atan2(10, 0) (a right angle):
    // B's velocity becomes (sin * 4, cos * 4) = (4, 0); A keeps its
    // velocity bit-identical
    let mut reg = Registry::new();
    let a = reg.add_ball(Vec2 { x: 0, y: 0 }, Vec2 { x: 0, y: 3_000 }, Role::Ordinary);
    let b = reg.add_ball(Vec2 { x: 10_000, y: 0 }, Vec2 { x: 0, y: 5_000 }, Role::Ordinary);
    let ev = BallCollision::new(a, Vec2 { x: 0, y: 0 }, 12_000, b, Vec2 { x: 10_000, y: 0 }, 12_000);
    let evs = vec![ev];
    ball_collision(&mut reg, &evs);
    assert_eq!(reg.balls[0].vel, Vec2 { x: 0, y: 3_000 });
    assert_eq!(reg.balls[1].vel, Vec2 { x: 4_000, y: 0 });
    // positions are never the resolver's business
    assert_eq!(reg.balls[1].pos, Vec2 { x: 10_000, y: 0 });
}

#[test]
fn resolution_is_order_dependent() {
    // the second record reads the velocity the first one wrote
    let mut reg = Registry::new();
    let a = reg.add_ball(Vec2 { x: 0, y: 0 }, Vec2 { x: 0, y: 3_000 }, Role::Ordinary);
    let b = reg.add_ball(Vec2 { x: 10_000, y: 0 }, Vec2 { x: 0, y: 5_000 }, Role::Ordinary);
    let ev1 = BallCollision::new(a, Vec2 { x: 0, y: 0 }, 12_000, b, Vec2 { x: 10_000, y: 0 }, 12_000);
    let ev2 = BallCollision::new(b, Vec2 { x: 10_000, y: 0 }, 12_000, a, Vec2 { x: 0, y: 0 }, 12_000);
    let evs = vec![ev1, ev2];
    ball_collision(&mut reg, &evs);
    // first: B <- (4, 0); second reads speeds 3 and 4: A <- (-3.5, 0)
    assert_eq!(reg.balls[1].vel, Vec2 { x: 4_000, y: 0 });
    assert_eq!(reg.balls[0].vel, Vec2 { x: -3_500, y: 0 });
}

#[test]
fn coincident_centers_push_straight_up() {
    // dx = dy = 0 is still collided; atan2(0, 0) is 0, so the push is
    // (sin 0, cos 0) scaled: (0, s)
    let mut reg = Registry::new();
    let a = reg.add_ball(Vec2 { x: 5_000, y: 5_000 }, Vec2 { x: 0, y: 3_000 }, Role::Ordinary);
    let b = reg.add_ball(Vec2 { x: 5_000, y: 5_000 }, Vec2 { x: 0, y: 5_000 }, Role::Ordinary);
    let ev = BallCollision::new(
        a,
        Vec2 { x: 5_000, y: 5_000 },
        12_000,
        b,
        Vec2 { x: 5_000, y: 5_000 },
        12_000,
    );
    assert!(ev.is_collided);
    let evs = vec![ev];
    ball_collision(&mut reg, &evs);
    assert_eq!(reg.balls[1].vel, Vec2 { x: 0, y: 4_000 });
}

#[test]
fn missing_ids_skip_the_record() {
    let mut reg = Registry::new();
    let a = reg.add_ball(Vec2 { x: 0, y: 0 }, Vec2 { x: 0, y: 3_000 }, Role::Ordinary);
    let b = reg.add_ball(Vec2 { x: 10_000, y: 0 }, Vec2 { x: 0, y: 5_000 }, Role::Ordinary);
    let mut gone_a = BallCollision::new(
        a,
        Vec2 { x: 0, y: 0 },
        12_000,
        b,
        Vec2 { x: 10_000, y: 0 },
        12_000,
    );
    gone_a.ent_a = 99;
    let mut gone_b = gone_a;
    gone_b.ent_a = a;
    gone_b.ent_b = 99;
    let evs = vec![gone_a, gone_b];
    ball_collision(&mut reg, &evs);
    // both records were skipped whole
    assert_eq!(reg.balls[0].vel, Vec2 { x: 0, y: 3_000 });
    assert_eq!(reg.balls[1].vel, Vec2 { x: 0, y: 5_000 });
}

#[test]
fn registry_lookup_and_velocity_write() {
    let mut reg = Registry::new();
    let a = reg.add_ball(Vec2 { x: 1, y: 2 }, Vec2 { x: 3, y: 4 }, Role::Ordinary);
    assert_eq!(reg.get_vel(a), Some(Vec2 { x: 3, y: 4 }));
    assert_eq!(reg.get_vel(77), None);
    assert!(reg.set_vel(a, Vec2 { x: 9, y: 9 }));
    assert_eq!(reg.get_vel(a), Some(Vec2 { x: 9, y: 9 }));
    // a write to a missing id changes nothing
    assert!(!reg.set_vel(77, Vec2 { x: 0, y: 0 }));
    assert_eq!(reg.get_vel(a), Some(Vec2 { x: 9, y: 9 }));
    assert_eq!(reg.balls[0].pos, Vec2 { x: 1, y: 2 });
}

#[test]
fn spawn_player_at_origin_at_rest() {
    let mut reg = Registry::new();
    let id = reg.spawn_player();
    assert_eq!(reg.balls.len(), 1);
    assert_eq!(reg.balls[0].id, id);
    assert_eq!(reg.balls[0].pos, Vec2 { x: 0, y: 0 });
    assert_eq!(reg.balls[0].vel, Vec2 { x: 0, y: 0 });
    assert_eq!(reg.balls[0].role, Role::Player);
    assert_eq!(reg.balls[0].radius, BALL_RADIUS);
}

#[test]
fn spawn_balls_within_ranges() {
    let bounds = Bounds::new(400_000, 300_000);
    let mut reg = Registry::new();
    reg.spawn_player();
    reg.spawn_balls(bounds);
    assert_eq!(reg.balls.len(), 1 + NUM_OF_BALLS);
    for i in 1..reg.balls.len() {
        let b = reg.balls[i];
        assert_eq!(b.role, Role::Ordinary);
        assert_eq!(b.radius, BALL_RADIUS);
        assert!(-400_000 <= b.pos.x && b.pos.x < 400_000);
        assert!(-300_000 <= b.pos.y && b.pos.y < 300_000);
        assert!(-INIT_VEL <= b.vel.x && b.vel.x < INIT_VEL);
        assert!(-INIT_VEL <= b.vel.y && b.vel.y < INIT_VEL);
        // ids are fresh and unique
        for j in 0..i {
            assert_ne!(reg.balls[j].id, b.id);
        }
    }
}

#[test]
fn diagonal_contact_direction() {
    // a 3-4-5 direction: sin = 3/5, cos = 4/5, so speeds 3 and 5 push B to
    // (2.4, 3.2) — magnitude 4 along the contact direction
    let mut reg = Registry::new();
    let a = reg.add_ball(Vec2 { x: 0, y: 0 }, Vec2 { x: 0, y: 3_000 }, Role::Ordinary);
    let b = reg.add_ball(Vec2 { x: 3_000, y: 4_000 }, Vec2 { x: 0, y: 5_000 }, Role::Ordinary);
    let ev = BallCollision::new(
        a,
        Vec2 { x: 0, y: 0 },
        12_000,
        b,
        Vec2 { x: 3_000, y: 4_000 },
        12_000,
    );
    assert!(ev.is_collided);
    assert_eq!((ev.dx, ev.dy), (3_000, 4_000));
    let evs = vec![ev];
    ball_collision(&mut reg, &evs);
    assert_eq!(reg.balls[1].vel, Vec2 { x: 2_400, y: 3_200 });
}

#[test]
fn empty_registry_is_a_no_op() {
    let mut reg = Registry::new();
    let evs = ball_collision_detection(&reg);
    assert!(evs.is_empty());
    ball_collision(&mut reg, &evs);
    assert!(reg.balls.is_empty());
}
