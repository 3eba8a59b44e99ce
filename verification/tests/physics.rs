// Integrator, input and whole-tick behaviour, in fixed-point units
// (thousandths): a position of 400_000 is 400 units, a dt of 16 is 16 ms.

use ball_arena::ball::{Bounds, KeyState, Role, Vec2};
use ball_arena::integrate::ball_movement;
use ball_arena::input::player_movement;
use ball_arena::registry::Registry;
use ball_arena::world::tick;

fn arena() -> Bounds {
    Bounds::new(400_000, 300_000)
}

fn no_keys() -> KeyState {
    KeyState { up: false, down: false, left: false, right: false }
}

#[test]
fn boundary_clamp_left() {
    let mut reg = Registry::new();
    reg.add_ball(Vec2 { x: -400_100, y: 0 }, Vec2 { x: -50_000, y: 0 }, Role::Ordinary);
    ball_movement(&mut reg, arena(), 16);
    // clamped to the left edge, velocity flipped and scaled by 0.80, then
    // the clamped position advances by the new velocity
    assert_eq!(reg.balls[0].vel.x, 40_000);
    assert_eq!(reg.balls[0].pos.x, -400_000 + 640);
    assert_eq!(reg.balls[0].vel.y, -8_000);
}

#[test]
fn boundary_clamp_right() {
    let mut reg = Registry::new();
    reg.add_ball(Vec2 { x: 400_100, y: 0 }, Vec2 { x: 50_000, y: 0 }, Role::Ordinary);
    ball_movement(&mut reg, arena(), 16);
    assert_eq!(reg.balls[0].vel.x, -40_000);
    assert_eq!(reg.balls[0].pos.x, 400_000 - 640);
}

#[test]
fn boundary_clamp_bottom() {
    let mut reg = Registry::new();
    reg.add_ball(Vec2 { x: 0, y: -300_500 }, Vec2 { x: 0, y: -10_000 }, Role::Ordinary);
    ball_movement(&mut reg, arena(), 100);
    // flipped to 8_000, position advances by 8_000 * 0.1 = 800, then
    // gravity takes the velocity down by 50_000
    assert_eq!(reg.balls[0].pos.y, -300_000 + 800);
    assert_eq!(reg.balls[0].vel.y, 8_000 - 50_000);
}

#[test]
fn boundary_clamp_top() {
    let mut reg = Registry::new();
    reg.add_ball(Vec2 { x: 0, y: 300_500 }, Vec2 { x: 0, y: 10_000 }, Role::Ordinary);
    ball_movement(&mut reg, arena(), 100);
    assert_eq!(reg.balls[0].pos.y, 300_000 - 800);
    assert_eq!(reg.balls[0].vel.y, -8_000 - 50_000);
}

#[test]
fn gravity_lag() {
    // velocity.y = 0, dt = 0.1 s: the position does not move this tick,
    // while velocity.y becomes -50 units/s
    let mut reg = Registry::new();
    reg.add_ball(Vec2 { x: 1_000, y: 2_000 }, Vec2 { x: 0, y: 0 }, Role::Ordinary);
    ball_movement(&mut reg, arena(), 100);
    assert_eq!(reg.balls[0].pos, Vec2 { x: 1_000, y: 2_000 });
    assert_eq!(reg.balls[0].vel, Vec2 { x: 0, y: -50_000 });
}

#[test]
fn movement_overshoot_tolerated_one_tick() {
    // a ball inside the arena may end the tick beyond the edge: the bounce
    // only happens at the start of the next tick
    let mut reg = Registry::new();
    reg.add_ball(Vec2 { x: 399_000, y: 0 }, Vec2 { x: 200_000, y: 0 }, Role::Ordinary);
    ball_movement(&mut reg, arena(), 100);
    assert_eq!(reg.balls[0].pos.x, 399_000 + 20_000);
    assert_eq!(reg.balls[0].vel.x, 200_000);
    ball_movement(&mut reg, arena(), 100);
    assert_eq!(reg.balls[0].vel.x, -160_000);
    assert_eq!(reg.balls[0].pos.x, 400_000 - 16_000);
}

#[test]
fn input_up_not_scaled_by_time() {
    let mut reg = Registry::new();
    reg.spawn_player();
    let keys = KeyState { up: true, down: false, left: false, right: false };
    // no tick duration even reaches the input pass
    player_movement(&mut reg, keys);
    assert_eq!(reg.balls[0].vel.y, 50_000);
    player_movement(&mut reg, keys);
    assert_eq!(reg.balls[0].vel.y, 100_000);
}

#[test]
fn input_all_directions() {
    let mut reg = Registry::new();
    reg.spawn_player();
    player_movement(&mut reg, KeyState { up: false, down: true, left: true, right: false });
    assert_eq!(reg.balls[0].vel, Vec2 { x: -50_000, y: -50_000 });
    player_movement(&mut reg, KeyState { up: false, down: false, left: false, right: true });
    assert_eq!(reg.balls[0].vel, Vec2 { x: 0, y: -50_000 });
    // opposite keys cancel
    player_movement(&mut reg, KeyState { up: true, down: true, left: false, right: false });
    assert_eq!(reg.balls[0].vel, Vec2 { x: 0, y: -50_000 });
}

#[test]
fn input_ignores_ordinary_balls() {
    let mut reg = Registry::new();
    reg.add_ball(Vec2 { x: 0, y: 0 }, Vec2 { x: 1_000, y: 1_000 }, Role::Ordinary);
    player_movement(&mut reg, KeyState { up: true, down: false, left: false, right: true });
    assert_eq!(reg.balls[0].vel, Vec2 { x: 1_000, y: 1_000 });
}

#[test]
fn end_to_end_scenario() {
    // arena half-extents (400, 300); one ball at (405, 0) with velocity
    // (50, 0); dt = 16 ms. Expected: velocity.x = -40, position.x clamped
    // to 400 then advanced by -0.64 to 399.36, velocity.y = -8.
    let mut reg = Registry::new();
    reg.add_ball(Vec2 { x: 405_000, y: 0 }, Vec2 { x: 50_000, y: 0 }, Role::Ordinary);
    tick(&mut reg, arena(), no_keys(), 16);
    assert_eq!(reg.balls[0].vel.x, -40_000);
    assert_eq!(reg.balls[0].pos.x, 399_360);
    assert_eq!(reg.balls[0].vel.y, -8_000);
    assert_eq!(reg.balls[0].pos.y, 0);
}

#[test]
fn tick_runs_input_before_integration() {
    let mut reg = Registry::new();
    reg.spawn_player();
    let keys = KeyState { up: false, down: false, left: false, right: true };
    // the velocity gained from the key already moves the ball this tick
    tick(&mut reg, arena(), keys, 1_000);
    assert_eq!(reg.balls[0].vel.x, 50_000);
    assert_eq!(reg.balls[0].pos.x, 50_000);
}

#[test]
fn empty_registry_tick_is_a_no_op() {
    let mut reg = Registry::new();
    tick(&mut reg, arena(), no_keys(), 16);
    assert!(reg.balls.is_empty());
}
