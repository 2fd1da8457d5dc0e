use asteroids::utils::{ccw, cos_mdeg, intersects, isqrt, sin_mdeg, wrap, Vec2};

fn v(x: i64, y: i64) -> Vec2 {
    Vec2 { x, y }
}

#[test]
fn wrap_relocates_past_bounds() {
    // Past the right bound: reappear one extent left of the origin.
    let r = wrap(v(450_000, 150_000), 1000, 1000, 400_000, 300_000);
    assert_eq!(r, v(-1000, 150_000));
    // Past the top margin: reappear at the bottom bound.
    let r = wrap(v(200_000, -2000), 1000, 1000, 400_000, 300_000);
    assert_eq!(r, v(200_000, 300_000));
    // Both axes at once.
    let r = wrap(v(-5000, 310_000), 1000, 1000, 400_000, 300_000);
    assert_eq!(r, v(400_000, -1000));
}

#[test]
fn wrap_is_idempotent_inside_bounds() {
    let inside = v(123_456, 78_910);
    assert_eq!(wrap(inside, 1000, 1000, 400_000, 300_000), inside);
    let once = wrap(v(450_000, -9999), 1000, 1000, 400_000, 300_000);
    let twice = wrap(once, 1000, 1000, 400_000, 300_000);
    assert_eq!(once, twice);
}

#[test]
fn crossing_segments_intersect() {
    // The two diagonals of a square cross.
    assert!(intersects(v(0, 0), v(10, 10), v(0, 10), v(10, 0)));
}

#[test]
fn parallel_segments_do_not_intersect() {
    assert!(!intersects(v(0, 0), v(10, 0), v(0, 5), v(10, 5)));
}

#[test]
fn intersects_is_symmetric_in_its_segments() {
    let cases = [
        (v(0, 0), v(10, 10), v(0, 10), v(10, 0)),
        (v(0, 0), v(10, 0), v(0, 5), v(10, 5)),
        (v(-3, 7), v(12, -2), v(1, 1), v(4, 9)),
        (v(5, 5), v(6, 6), v(100, 0), v(0, 100)),
    ];
    for (a, b, c, d) in cases {
        assert_eq!(intersects(a, b, c, d), intersects(c, d, a, b));
    }
}

#[test]
fn intersects_ignores_endpoint_order_off_collinear() {
    // Non-degenerate configurations: reversing either segment's endpoint
    // order does not change the verdict.
    let cases = [
        (v(0, 0), v(10, 10), v(0, 10), v(10, 0)),
        (v(0, 0), v(10, 0), v(0, 5), v(10, 5)),
        (v(-3, 7), v(12, -2), v(1, 1), v(4, 9)),
    ];
    for (a, b, c, d) in cases {
        let base = intersects(a, b, c, d);
        assert_eq!(base, intersects(b, a, c, d));
        assert_eq!(base, intersects(a, b, d, c));
        assert_eq!(base, intersects(b, a, d, c));
    }
}

#[test]
fn ccw_orientation_sign() {
    // In y-down screen coordinates, (0,0) -> (10,0) -> (0,10) turns
    // counterclockwise per the cross-product sign convention.
    assert!(ccw(v(0, 0), v(10, 0), v(0, 10)));
    assert!(!ccw(v(0, 0), v(0, 10), v(10, 0)));
}

#[test]
fn fixed_point_trig_anchor_values() {
    assert_eq!(sin_mdeg(0), 0);
    assert_eq!(sin_mdeg(90_000), 1000);
    assert_eq!(sin_mdeg(180_000), 0);
    assert_eq!(sin_mdeg(270_000), -1000);
    assert_eq!(cos_mdeg(0), 1000);
    assert_eq!(cos_mdeg(90_000), 0);
    assert_eq!(cos_mdeg(180_000), -1000);
    // Bounded everywhere, and the 30-degree value is close to 1/2.
    for a in (0..=360).map(|d| d * 1000) {
        let s = sin_mdeg(a);
        assert!(-1000 <= s && s <= 1000);
    }
    let s30 = sin_mdeg(30_000);
    assert!((s30 - 500).abs() <= 10, "sin 30 deg was {}", s30);
}

#[test]
fn isqrt_exact_and_floor() {
    assert_eq!(isqrt(0), 0);
    assert_eq!(isqrt(1), 1);
    assert_eq!(isqrt(15), 3);
    assert_eq!(isqrt(16), 4);
    assert_eq!(isqrt(1_000_000), 1000);
    assert_eq!(isqrt(999_999), 999);
}
