use asteroids::components::{
    get_new_game_state, Asteroid, Bullet, GameState, RunState, MAX_PLAYER_LIVES, SCORE_BASE,
    SCREEN_HEIGHT, SCREEN_WIDTH,
};
use asteroids::engine::update;
use asteroids::input::{handle_input, InputFrame};
use asteroids::utils::Vec2;

fn v(x: i64, y: i64) -> Vec2 {
    Vec2 { x, y }
}

fn fresh() -> GameState {
    get_new_game_state(SCREEN_WIDTH, SCREEN_HEIGHT, 99)
}

fn fire_frame() -> InputFrame {
    let mut inp = InputFrame::none();
    inp.fire = true;
    inp
}

/// A square asteroid of half-extent `ext` centered at `pos`, not moving.
fn square_asteroid(pos: Vec2, ext: i64, size: i64) -> Asteroid {
    Asteroid {
        pos,
        vel: v(0, 0),
        angle: 0,
        size,
        points: vec![v(-ext, -ext), v(ext, -ext), v(ext, ext), v(-ext, ext)],
        w: 2 * ext,
        collision: false,
    }
}

#[test]
fn firing_respects_turret_cooldown() {
    let mut gs = fresh();
    handle_input(&mut gs, &fire_frame(), 16, 1000, 7);
    assert_eq!(gs.bullets.len(), 1);
    // A second fire intent within the cooldown window is ignored.
    handle_input(&mut gs, &fire_frame(), 16, 1200, 7);
    assert_eq!(gs.bullets.len(), 1);
    // After the cooldown elapses a second bullet is enqueued.
    handle_input(&mut gs, &fire_frame(), 16, 1600, 7);
    assert_eq!(gs.bullets.len(), 2);
}

#[test]
fn thrust_emits_rate_limited_exhaust() {
    let mut gs = fresh();
    let mut inp = InputFrame::none();
    inp.up = true;
    handle_input(&mut gs, &inp, 16, 1000, 7);
    assert_eq!(gs.exhaust.len(), 3);
    for e in gs.exhaust.iter() {
        assert_eq!(e.created_at, 1000);
        assert!(50 <= e.size && e.size <= 500);
    }
    // Within the exhaust cooldown: no new burst.
    handle_input(&mut gs, &inp, 16, 1100, 7);
    assert_eq!(gs.exhaust.len(), 3);
    // Past the cooldown: one more burst of three.
    handle_input(&mut gs, &inp, 16, 1300, 7);
    assert_eq!(gs.exhaust.len(), 6);
}

#[test]
fn bullet_hit_scores_and_fragments() {
    let mut gs = fresh();
    gs.asteroids.clear();
    gs.asteroids.push(square_asteroid(v(10_000, 10_000), 2000, 2));
    gs.bullets.push(Bullet {
        pos: v(10_000, 4000),
        created_at: 990,
        vel: v(0, 600_000),
        collision: false,
    });
    let events = update(&mut gs, 16, 1000);
    // The bullet's frame segment (10000,4000) -> (10000,13600) crosses the
    // asteroid's top edge: both are marked and removed this frame, one
    // explosion appears, and a size-2 parent fragments into 2 children of
    // size 1.
    assert_eq!(gs.bullets.len(), 0);
    assert_eq!(gs.asteroids.len(), 2);
    for child in gs.asteroids.iter() {
        assert_eq!(child.size, 1);
        assert!(!child.collision);
    }
    assert_eq!(gs.explosions.len(), 1);
    // First-ever hit: award is SCORE_BASE * size * 1.
    assert_eq!(gs.score, SCORE_BASE * 2);
    assert_eq!(gs.combo, 1);
    assert_eq!(gs.score_multiplier, 1);
    assert_eq!(gs.flying_points.len(), 1);
    assert_eq!(gs.flying_points[0].val, SCORE_BASE * 2);
    assert_eq!(events.len(), 1);
    assert_eq!(events[0], asteroids::components::GameSound::ExplosionMedium);
    assert_eq!(gs.lives, MAX_PLAYER_LIVES);
    assert_eq!(gs.run_state, RunState::Running);
}

#[test]
fn destroying_smallest_asteroid_leaves_no_children() {
    let mut gs = fresh();
    gs.asteroids.clear();
    gs.asteroids.push(square_asteroid(v(10_000, 10_000), 2000, 1));
    gs.bullets.push(Bullet {
        pos: v(10_000, 4000),
        created_at: 990,
        vel: v(0, 600_000),
        collision: false,
    });
    let events = update(&mut gs, 16, 1000);
    assert_eq!(gs.asteroids.len(), 0);
    assert_eq!(gs.score, SCORE_BASE);
    assert_eq!(events.len(), 1);
    assert_eq!(events[0], asteroids::components::GameSound::ExplosionSmall);
    // With the field empty the stage completes.
    assert_eq!(gs.run_state, RunState::StageComplete);
}

#[test]
fn player_collision_with_lives_left_respawns() {
    let mut gs = fresh();
    gs.asteroids.clear();
    let center = v(SCREEN_WIDTH / 2, SCREEN_HEIGHT / 2);
    gs.asteroids.push(square_asteroid(center, 5000, 3));
    gs.player.vel = v(123, 456);
    gs.player.angle = 0;
    let lives_before = gs.lives;
    update(&mut gs, 16, 1000);
    assert_eq!(gs.lives, lives_before - 1);
    assert_eq!(gs.run_state, RunState::Death);
    assert_eq!(gs.player.pos, center);
    assert_eq!(gs.player.vel, v(0, 0));
    assert_eq!(gs.player.angle, 0);
    // The session goes on: the asteroid is still there.
    assert_eq!(gs.asteroids.len(), 1);
}

#[test]
fn player_collision_on_last_life_ends_stage() {
    let mut gs = fresh();
    gs.asteroids.clear();
    let center = v(SCREEN_WIDTH / 2, SCREEN_HEIGHT / 2);
    gs.asteroids.push(square_asteroid(center, 5000, 3));
    gs.lives = 1;
    update(&mut gs, 16, 1000);
    assert_eq!(gs.lives, 0);
    assert_eq!(gs.run_state, RunState::StageComplete);
}

#[test]
fn menu_state_is_inert() {
    let mut gs = fresh();
    gs.run_state = RunState::Menu;
    let score = gs.score;
    let events = update(&mut gs, 16, 1000);
    assert_eq!(events.len(), 0);
    assert_eq!(gs.score, score);
    assert_eq!(gs.run_state, RunState::Menu);
}

#[test]
fn death_state_resumes_on_fire() {
    let mut gs = fresh();
    gs.run_state = RunState::Death;
    handle_input(&mut gs, &fire_frame(), 16, 1000, 7);
    assert_eq!(gs.run_state, RunState::Running);
    // No bullet is fired by the resume keypress itself.
    assert_eq!(gs.bullets.len(), 0);
}

#[test]
fn restart_on_completed_stage_builds_fresh_session() {
    let mut gs = fresh();
    gs.run_state = RunState::StageComplete;
    gs.score = 999;
    gs.lives = 0;
    let mut inp = InputFrame::none();
    inp.restart = true;
    handle_input(&mut gs, &inp, 16, 1000, 7);
    assert_eq!(gs.run_state, RunState::Running);
    assert_eq!(gs.score, 0);
    assert_eq!(gs.lives, MAX_PLAYER_LIVES);
    assert_eq!(gs.asteroids.len(), 3);
}

#[test]
fn combo_multiplier_rises_on_fifth_hit() {
    // Five consecutive hits inside the combo window: the fifth raises the
    // multiplier, and its award uses the raised multiplier.
    let mut gs = fresh();
    gs.asteroids.clear();
    let mut expected: i64 = 0;
    for hit in 1..=5i64 {
        gs.asteroids.clear();
        gs.asteroids.push(square_asteroid(v(10_000, 10_000), 2000, 1));
        gs.bullets.clear();
        gs.bullets.push(Bullet {
            pos: v(10_000, 4000),
            created_at: 990,
            vel: v(0, 600_000),
            collision: false,
        });
        let mult = if hit == 5 { 2 } else { 1 };
        expected += SCORE_BASE * 1 * mult;
        update(&mut gs, 16, 1000 + hit);
        assert_eq!(gs.combo, hit);
        assert_eq!(gs.score_multiplier, mult);
        assert_eq!(gs.score, expected);
        // Each hit refreshes the combo window.
        assert_eq!(gs.combo_time, asteroids::components::COMBO_TIMER);
        gs.run_state = RunState::Running;
    }
}

#[test]
fn bullets_expire_after_lifetime() {
    let mut gs = fresh();
    gs.asteroids.clear();
    gs.asteroids.push(square_asteroid(v(350_000, 10_000), 2000, 1));
    gs.bullets.push(Bullet {
        pos: v(10_000, 200_000),
        created_at: 0,
        vel: v(0, -1000),
        collision: false,
    });
    // Young bullet survives an update well within its lifetime.
    update(&mut gs, 16, 100);
    assert_eq!(gs.bullets.len(), 1);
    // Past its lifetime it is pruned.
    update(&mut gs, 16, 800);
    assert_eq!(gs.bullets.len(), 0);
}
