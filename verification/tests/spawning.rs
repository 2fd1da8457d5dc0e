use asteroids::components::{
    get_new_game_state, RunState, ASTEROID_MAX_SIZE, ASTEROID_VEL, MAX_PLAYER_LIVES,
    PLAYER_HEIGHT, PLAYER_WIDTH, SCREEN_HEIGHT, SCREEN_WIDTH, UNITS,
};
use asteroids::spawner::{asteroids, polygon, stars};
use asteroids::utils::Vec2;

#[test]
fn polygon_has_exact_count_within_radius() {
    let size: i64 = 56_250;
    let pts = polygon(Vec2 { x: 0, y: 0 }, 8, size);
    assert_eq!(pts.len(), 8);
    for p in pts.iter() {
        assert!(p.x.abs() <= size && p.y.abs() <= size);
        let dist = ((p.x as f64).powi(2) + (p.y as f64).powi(2)).sqrt();
        assert!(dist <= 1.01 * size as f64, "dist {} too large", dist);
        assert!(dist >= 0.45 * size as f64, "dist {} too small", dist);
    }
}

#[test]
fn asteroid_field_counts_and_sizes() {
    let field = asteroids(
        Vec2 { x: 200_000, y: 150_000 },
        SCREEN_WIDTH / ASTEROID_MAX_SIZE,
        3,
        ASTEROID_MAX_SIZE,
        SCREEN_HEIGHT / UNITS,
    );
    let ring = SCREEN_WIDTH / ASTEROID_MAX_SIZE;
    assert_eq!(field.len(), 3);
    for a in field.iter() {
        assert_eq!(a.size, ASTEROID_MAX_SIZE);
        assert_eq!(a.points.len(), 8);
        assert!(!a.collision);
        assert!(a.w >= 0);
        assert!((a.pos.x - 200_000).abs() <= ring);
        assert!((a.pos.y - 150_000).abs() <= ring);
        // Velocity is proportional to the position and inverse in size.
        assert_eq!(a.vel.x, a.pos.x * ASTEROID_VEL / (20_000 * a.size));
        assert_eq!(a.vel.y, a.pos.y * ASTEROID_VEL / (20_000 * a.size));
        // The width is the rounded distance between opposite vertices.
        let dx = a.points[0].x - a.points[4].x;
        let dy = a.points[0].y - a.points[4].y;
        assert!(a.w * a.w <= dx * dx + dy * dy);
        assert!(dx * dx + dy * dy < (a.w + 1) * (a.w + 1));
        // The spawn sits on the ring, up to the fixed-point trig rounding.
        let ddx = (a.pos.x - 200_000) as f64;
        let ddy = (a.pos.y - 150_000) as f64;
        let dist = (ddx * ddx + ddy * ddy).sqrt();
        assert!((dist - ring as f64).abs() <= 0.01 * ring as f64, "ring dist {}", dist);
    }
}

#[test]
fn star_field_is_reproducible_and_in_bounds() {
    let a = stars(50, SCREEN_WIDTH, SCREEN_HEIGHT, 12345);
    let b = stars(50, SCREEN_WIDTH, SCREEN_HEIGHT, 67890);
    assert_eq!(a.len(), 50);
    assert_eq!(b.len(), 50);
    // The fixed seed makes the layout identical across sessions, whatever
    // seed is restored afterwards.
    for (x, y) in a.iter().zip(b.iter()) {
        assert_eq!(x.pos, y.pos);
        assert_eq!(x.size, y.size);
    }
    for s in a.iter() {
        assert!(0 <= s.pos.x && s.pos.x <= SCREEN_WIDTH);
        assert!(0 <= s.pos.y && s.pos.y <= SCREEN_HEIGHT);
        assert!(s.size == 1000 || s.size == 2000 || s.size == 3000);
    }
    // A real generator scatters the field: the stars are not all at one
    // spot, and the common size class dominates.
    assert!(a.iter().any(|s| s.pos != a[0].pos));
    assert!(a.iter().any(|s| s.size == 1000));
}

#[test]
fn fresh_state_has_initial_field_and_zeroed_scoring() {
    let gs = get_new_game_state(SCREEN_WIDTH, SCREEN_HEIGHT, 42);
    assert_eq!(gs.asteroids.len(), 3);
    for a in gs.asteroids.iter() {
        assert_eq!(a.size, ASTEROID_MAX_SIZE);
        assert!(!a.collision);
    }
    assert_eq!(gs.bullets.len(), 0);
    assert_eq!(gs.exhaust.len(), 0);
    assert_eq!(gs.explosions.len(), 0);
    assert_eq!(gs.flying_points.len(), 0);
    assert_eq!(gs.background.len(), 50);
    assert_eq!(gs.lives, MAX_PLAYER_LIVES);
    assert_eq!(gs.score, 0);
    assert_eq!(gs.combo, 0);
    assert_eq!(gs.score_multiplier, 1);
    assert_eq!(gs.play_time, 0);
    assert_eq!(gs.run_state, RunState::Running);
    assert_eq!(gs.player.w, PLAYER_WIDTH);
    assert_eq!(gs.player.h, PLAYER_HEIGHT);
    assert_eq!(gs.player.pos, Vec2 { x: SCREEN_WIDTH / 2, y: SCREEN_HEIGHT / 2 });
    assert_eq!(gs.player.vel, Vec2 { x: 0, y: 0 });
    assert_eq!(gs.player.angle, 0);
    assert_eq!(gs.scl, SCREEN_HEIGHT / UNITS);
}
