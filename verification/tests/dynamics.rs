use asteroids::components::{
    get_new_game_state, Exhaust, Explosion, FlyingPoint, GameState, GRAVITY_Y, SCREEN_HEIGHT,
    SCREEN_WIDTH,
};
use asteroids::engine::update;
use asteroids::utils::Vec2;

fn v(x: i64, y: i64) -> Vec2 {
    Vec2 { x, y }
}

fn quiet() -> GameState {
    let mut gs = get_new_game_state(SCREEN_WIDTH, SCREEN_HEIGHT, 5);
    // Keep one far-away static asteroid so the stage does not complete.
    gs.asteroids.truncate(1);
    gs.asteroids[0].pos = v(10_000, 10_000);
    gs.asteroids[0].vel = v(0, 0);
    gs
}

#[test]
fn asteroid_moves_and_spins_per_frame() {
    let mut gs = quiet();
    gs.asteroids[0].vel = v(2000, -1000);
    gs.asteroids[0].angle = 100;
    let pos = gs.asteroids[0].pos;
    update(&mut gs, 500, 1000);
    // Delta-scaled integration: half a second moves half the velocity.
    assert_eq!(gs.asteroids[0].pos, v(pos.x + 1000, pos.y - 500));
    // Spin advances by 1.5 degrees divided by the size class (3 here).
    assert_eq!(gs.asteroids[0].angle, 600);
}

#[test]
fn flying_point_falls_under_gravity() {
    let mut gs = quiet();
    gs.flying_points.push(FlyingPoint {
        pos: v(50_000, 50_000),
        vel: v(400, -200),
        val: 32,
        created_at: 900,
    });
    update(&mut gs, 1000, 1000);
    assert_eq!(gs.flying_points.len(), 1);
    let f = &gs.flying_points[0];
    // Gravity accumulates into the velocity once per frame, then the
    // position advances by one delta-scaled velocity step.
    assert_eq!(f.vel, v(400, -200 + GRAVITY_Y));
    assert_eq!(f.pos, v(50_000 + 400, 50_000 + (-200 + GRAVITY_Y)));
}

#[test]
fn exhaust_decays_and_is_pruned_at_zero_size() {
    let mut gs = quiet();
    gs.exhaust.push(Exhaust { pos: v(50_000, 50_000), created_at: 990, vel: v(0, 0), size: 400 });
    gs.exhaust.push(Exhaust { pos: v(60_000, 50_000), created_at: 990, vel: v(0, 0), size: 90 });
    // Shrink rate is half a unit per second: 100 milli-units in 200 ms.
    // The second particle decays to zero and is pruned the same frame.
    update(&mut gs, 200, 1000);
    assert_eq!(gs.exhaust.len(), 1);
    assert_eq!(gs.exhaust[0].size, 300);
    update(&mut gs, 200, 1100);
    assert_eq!(gs.exhaust.len(), 1);
    assert_eq!(gs.exhaust[0].size, 200);
}

#[test]
fn exhaust_expires_by_lifetime() {
    let mut gs = quiet();
    gs.exhaust.push(Exhaust { pos: v(50_000, 50_000), created_at: 0, vel: v(0, 0), size: 400 });
    update(&mut gs, 16, 2500);
    assert_eq!(gs.exhaust.len(), 0);
}

#[test]
fn explosions_expire_by_lifetime() {
    let mut gs = quiet();
    gs.explosions.push(Explosion { pos: v(50_000, 50_000), width: 3000, size: 2, created_at: 900 });
    update(&mut gs, 16, 1000);
    assert_eq!(gs.explosions.len(), 1);
    update(&mut gs, 16, 1300);
    assert_eq!(gs.explosions.len(), 0);
}

#[test]
fn player_friction_pulls_velocity_toward_zero() {
    let mut gs = quiet();
    gs.player.vel = v(1000, -1000);
    // One second of friction removes FRICT milli-pixels per second.
    update(&mut gs, 1000, 1000);
    assert_eq!(gs.player.vel, v(250, -250));
    // Friction never overshoots past zero.
    update(&mut gs, 1000, 2000);
    assert_eq!(gs.player.vel, v(0, 0));
}

#[test]
fn combo_resets_when_window_expires() {
    let mut gs = quiet();
    gs.combo = 4;
    gs.score_multiplier = 1;
    gs.combo_time = 100;
    update(&mut gs, 200, 1000);
    // The window decayed to zero but was positive this frame: the combo
    // survives the frame and resets on the next one.
    assert_eq!(gs.combo_time, 0);
    assert_eq!(gs.combo, 4);
    update(&mut gs, 200, 1200);
    assert_eq!(gs.combo, 0);
    assert_eq!(gs.score_multiplier, 1);
}
