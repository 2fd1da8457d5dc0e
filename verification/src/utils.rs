//! Geometry utilities: the toroidal screen-wrap transform and the
//! CCW-based segment-intersection predicate.

use vstd::prelude::*;

verus! {

/// Coordinate magnitude accepted by the intersection predicates; large
/// enough for every position the simulation produces, small enough that
/// the cross products fit in an `i128`.
pub const COORD_LIMIT: i64 = 0x1_0000_0000_0000;

/// A two-dimensional point or velocity in fixed-point milli-units.
#[derive(Clone, Copy, PartialEq, Eq, Structural, Debug)]
pub struct Vec2 {
    pub x: i64,
    pub y: i64,
}

impl Vec2 {
    /// Both components bounded by `m` in magnitude.
    pub open spec fn norm_le(self, m: int) -> bool {
        -m <= self.x <= m && -m <= self.y <= m
    }

    pub fn new(x: i64, y: i64) -> (v: Vec2)
        ensures
            v == (Vec2 { x, y }),
    {
        Vec2 { x, y }
    }
}

/// Quotient of `a` by `b`, rounding toward zero: the semantics of Rust's
/// `/` on signed integers, used for all fixed-point scaling.
pub open spec fn div_tz(a: int, b: int) -> int {
    if a >= 0 {
        a / b
    } else {
        -((-a) / b)
    }
}

/// A product of bounded factors is bounded by the product of the bounds.
pub proof fn lemma_mul_bound(x: int, y: int, mx: int, my: int)
    by (nonlinear_arith)
    requires
        -mx <= x <= mx,
        -my <= y <= my,
        0 <= mx,
        0 <= my,
    ensures
        -(mx * my) <= x * y <= mx * my,
{
}

/// Filtering a sequence extended by one element keeps the element exactly
/// when it satisfies the predicate.
pub proof fn lemma_filter_push<A>(s: Seq<A>, x: A, pred: spec_fn(A) -> bool)
    ensures
        s.push(x).filter(pred) == (if pred(x) {
            s.filter(pred).push(x)
        } else {
            s.filter(pred)
        }),
{
    reveal_with_fuel(Seq::filter, 2);
    assert(s.push(x).drop_last() =~= s);
    assert(s.push(x).last() == x);
}

/// Filtering keeps a sequence unchanged when every element satisfies the
/// predicate.
pub proof fn lemma_filter_all_pass<A>(s: Seq<A>, pred: spec_fn(A) -> bool)
    requires
        forall|j: int| 0 <= j < s.len() ==> pred(#[trigger] s[j]),
    ensures
        s.filter(pred) == s,
    decreases s.len(),
{
    reveal_with_fuel(Seq::filter, 2);
    if s.len() == 0 {
        assert(s.filter(pred) =~= s);
    } else {
        let rest = s.drop_last();
        lemma_filter_all_pass(rest, pred);
        assert(pred(s.last()));
        assert(s.filter(pred) =~= s);
    }
}

/// Filtering removes exactly one element when exactly one fails the
/// predicate: the survivors are everything before it followed by
/// everything after it.
pub proof fn lemma_filter_except_one<A>(s: Seq<A>, pred: spec_fn(A) -> bool, k: int)
    requires
        0 <= k < s.len(),
        !pred(s[k]),
        forall|j: int| 0 <= j < s.len() && j != k ==> pred(#[trigger] s[j]),
    ensures
        s.filter(pred) == s.remove(k),
    decreases s.len(),
{
    reveal_with_fuel(Seq::filter, 2);
    let rest = s.drop_last();
    if k == s.len() - 1 {
        lemma_filter_all_pass(rest, pred);
        assert(s.filter(pred) =~= s.remove(k));
    } else {
        assert(rest[k] == s[k]);
        lemma_filter_except_one(rest, pred, k);
        assert(pred(s.last()));
        assert(s.filter(pred) =~= rest.remove(k).push(s.last()));
        assert(s.remove(k) =~= rest.remove(k).push(s.last()));
    }
}

/// Flattening a family in which at most the batch at `k` is nonempty
/// yields exactly that batch.
pub proof fn lemma_flatten_single_nonempty<A>(bs: Seq<Seq<A>>, k: int)
    requires
        0 <= k < bs.len(),
        forall|j: int| 0 <= j < bs.len() && j != k ==> (#[trigger] bs[j]).len() == 0,
    ensures
        bs.flatten() == bs[k],
    decreases bs.len(),
{
    reveal_with_fuel(Seq::flatten, 2);
    let rest = bs.drop_first();
    if k == 0 {
        lemma_flatten_all_empty(rest);
        assert(bs.flatten() =~= bs[0]);
    } else {
        assert(bs.first().len() == 0);
        assert(rest[k - 1] == bs[k]);
        lemma_flatten_single_nonempty(rest, k - 1);
        assert(bs.flatten() =~= bs[k]);
    }
}

/// Flattening a family of empty batches yields the empty sequence.
pub proof fn lemma_flatten_all_empty<A>(bs: Seq<Seq<A>>)
    requires
        forall|j: int| 0 <= j < bs.len() ==> (#[trigger] bs[j]).len() == 0,
    ensures
        bs.flatten().len() == 0,
    decreases bs.len(),
{
    reveal_with_fuel(Seq::flatten, 2);
    if bs.len() != 0 {
        lemma_flatten_all_empty(bs.drop_first());
    }
}

/// A square is never negative.
pub proof fn lemma_square_nonneg(x: int)
    by (nonlinear_arith)
    ensures
        x * x >= 0,
{
}

/// A quotient by `b` of a value bounded by `m * b` is bounded by `m`.
pub proof fn lemma_div_tz_bound(a: int, b: int, m: int)
    requires
        1 <= b,
        0 <= m,
        -(m * b) <= a <= m * b,
    ensures
        -m <= div_tz(a, b) <= m,
{
    vstd::arithmetic::div_mod::lemma_div_multiples_vanish(m, b);
    assert(m * b == b * m);
    if a >= 0 {
        vstd::arithmetic::div_mod::lemma_div_pos_is_pos(a, b);
        vstd::arithmetic::div_mod::lemma_div_is_ordered(a, m * b, b);
    } else {
        vstd::arithmetic::div_mod::lemma_div_pos_is_pos(-a, b);
        vstd::arithmetic::div_mod::lemma_div_is_ordered(-a, m * b, b);
    }
}

/// One axis of the toroidal wrap: past the far bound, reappear just
/// outside the near edge by the object's extent, and symmetrically.
pub open spec fn wrap_axis(p: int, extent: int, bound: int) -> int {
    if p > bound {
        -extent
    } else if p < -extent {
        bound
    } else {
        p
    }
}

/// The wrapped position of a point on a `bounds_w` by `bounds_h` screen,
/// for an object of half-extents `width` and `height`.
pub open spec fn wrap_spec(pos: Vec2, width: i64, height: i64, bounds_w: i64, bounds_h: i64) -> Vec2 {
    Vec2 {
        x: wrap_axis(pos.x as int, width as int, bounds_w as int) as i64,
        y: wrap_axis(pos.y as int, height as int, bounds_h as int) as i64,
    }
}

/// Toroidal wrap of `pos`: a position beyond the right/bottom bound is
/// relocated to just left of/above the opposite edge, and symmetrically.
pub fn wrap(pos: Vec2, width: i64, height: i64, bounds_w: i64, bounds_h: i64) -> (r: Vec2)
    requires
        0 <= width <= COORD_LIMIT,
        0 <= height <= COORD_LIMIT,
        0 <= bounds_w <= COORD_LIMIT,
        0 <= bounds_h <= COORD_LIMIT,
    ensures
        r == wrap_spec(pos, width, height, bounds_w, bounds_h),
        -width <= r.x <= bounds_w,
        -height <= r.y <= bounds_h,
{
    let mut new_pos = pos;
    if pos.x > bounds_w {
        new_pos.x = 0 - width;
    } else if new_pos.x < 0 - width {
        new_pos.x = bounds_w;
    }

    if new_pos.y > bounds_h {
        new_pos.y = 0 - height;
    } else if new_pos.y < 0 - height {
        new_pos.y = bounds_h;
    }

    new_pos
}

/// Wrapping keeps a position inside `[-w, W] x [-h, H]`, and a position
/// already inside is left unchanged, so the wrap is idempotent.
pub proof fn lemma_wrap_bounds_and_idempotent(pos: Vec2, w: i64, h: i64, bw: i64, bh: i64)
    requires
        0 <= w,
        0 <= h,
        0 <= bw,
        0 <= bh,
    ensures
        -w <= wrap_spec(pos, w, h, bw, bh).x <= bw,
        -h <= wrap_spec(pos, w, h, bw, bh).y <= bh,
        -w <= pos.x <= bw && -h <= pos.y <= bh ==> wrap_spec(pos, w, h, bw, bh) == pos,
{
}

/// Twice the signed area of the triangle `a b c`; positive exactly when
/// the traversal a -> b -> c is counterclockwise in screen coordinates.
pub open spec fn cross3(a: Vec2, b: Vec2, c: Vec2) -> int {
    (c.y - a.y) * (b.x - a.x) - (b.y - a.y) * (c.x - a.x)
}

pub open spec fn ccw_spec(a: Vec2, b: Vec2, c: Vec2) -> bool {
    cross3(a, b, c) > 0
}

/// True when traversing a -> b -> c turns counterclockwise (in y-down
/// screen coordinates), by the sign of the cross product.
pub fn ccw(a: Vec2, b: Vec2, c: Vec2) -> (r: bool)
    requires
        a.norm_le(COORD_LIMIT as int),
        b.norm_le(COORD_LIMIT as int),
        c.norm_le(COORD_LIMIT as int),
    ensures
        r == ccw_spec(a, b, c),
{
    let d1 = c.y as i128 - a.y as i128;
    let d2 = b.x as i128 - a.x as i128;
    let d3 = b.y as i128 - a.y as i128;
    let d4 = c.x as i128 - a.x as i128;
    proof {
        lemma_mul_bound(d1 as int, d2 as int, 2 * COORD_LIMIT as int, 2 * COORD_LIMIT as int);
        lemma_mul_bound(d3 as int, d4 as int, 2 * COORD_LIMIT as int, 2 * COORD_LIMIT as int);
    }
    d1 * d2 > d3 * d4
}

/// Segments ab and cd cross exactly when a and b lie on opposite sides of
/// the line through cd, and c and d on opposite sides of the line through
/// ab. Collinear/degenerate configurations are not treated specially:
/// they fall through to whatever the sign comparisons yield.
pub open spec fn intersects_spec(a: Vec2, b: Vec2, c: Vec2, d: Vec2) -> bool {
    ccw_spec(a, c, d) != ccw_spec(b, c, d) && ccw_spec(a, b, c) != ccw_spec(a, b, d)
}

/// Segment-intersection test for segments ab and cd.
pub fn intersects(a: Vec2, b: Vec2, c: Vec2, d: Vec2) -> (r: bool)
    requires
        a.norm_le(COORD_LIMIT as int),
        b.norm_le(COORD_LIMIT as int),
        c.norm_le(COORD_LIMIT as int),
        d.norm_le(COORD_LIMIT as int),
    ensures
        r == intersects_spec(a, b, c, d),
{
    ccw(a, c, d) != ccw(b, c, d) && ccw(a, b, c) != ccw(a, b, d)
}

/// The cross product is invariant under cyclic rotation of its arguments.
proof fn lemma_cross3_cyclic(a: Vec2, b: Vec2, c: Vec2)
    ensures
        cross3(a, b, c) == cross3(b, c, a),
{
    let ax = a.x as int;
    let ay = a.y as int;
    let bx = b.x as int;
    let by = b.y as int;
    let cx = c.x as int;
    let cy = c.y as int;
    assert((cy - ay) * (bx - ax) - (by - ay) * (cx - ax) == (ay - by) * (cx - bx) - (cy - by) * (ax
        - bx)) by (nonlinear_arith);
}

/// Swapping the last two arguments flips the sign of the cross product.
proof fn lemma_cross3_swap(a: Vec2, b: Vec2, c: Vec2)
    ensures
        cross3(a, b, c) == -cross3(a, c, b),
{
    let ax = a.x as int;
    let ay = a.y as int;
    let bx = b.x as int;
    let by = b.y as int;
    let cx = c.x as int;
    let cy = c.y as int;
    assert((cy - ay) * (bx - ax) - (by - ay) * (cx - ax) == -((by - ay) * (cx - ax) - (cy - ay) * (
    bx - ax))) by (nonlinear_arith);
}

/// The intersection test is symmetric in its two segments: testing ab
/// against cd and testing cd against ab agree, on all inputs.
pub proof fn lemma_intersects_swap(a: Vec2, b: Vec2, c: Vec2, d: Vec2)
    ensures
        intersects_spec(a, b, c, d) == intersects_spec(c, d, a, b),
{
    lemma_cross3_cyclic(c, a, b);
    lemma_cross3_cyclic(d, a, b);
    lemma_cross3_cyclic(c, d, a);
    lemma_cross3_cyclic(d, a, c);
    lemma_cross3_cyclic(c, d, b);
    lemma_cross3_cyclic(d, b, c);
}

/// Reversing the endpoint order of either segment does not change the
/// intersection test, provided no endpoint is collinear with the other
/// segment (on collinear inputs the unmodified test is ambiguous by
/// design, and reversal can change its verdict).
pub proof fn lemma_intersects_reverse(a: Vec2, b: Vec2, c: Vec2, d: Vec2)
    requires
        cross3(a, b, c) != 0,
        cross3(a, b, d) != 0,
        cross3(a, c, d) != 0,
        cross3(b, c, d) != 0,
    ensures
        intersects_spec(a, b, c, d) == intersects_spec(b, a, c, d),
        intersects_spec(a, b, c, d) == intersects_spec(a, b, d, c),
{
    // Segment ab reversed: the side tests of c and d flip sign together.
    lemma_cross3_cyclic(b, a, c);
    lemma_cross3_swap(a, c, b);
    lemma_cross3_cyclic(b, a, d);
    lemma_cross3_swap(a, d, b);
    // Segment cd reversed: the side tests of a and b flip sign together.
    lemma_cross3_swap(a, c, d);
    lemma_cross3_swap(b, c, d);
}

/// Clamping a value into `[lo, hi]`.
pub open spec fn clamp_spec(v: int, lo: int, hi: int) -> int {
    if v < lo {
        lo
    } else if v > hi {
        hi
    } else {
        v
    }
}

pub fn clamp(v: i64, lo: i64, hi: i64) -> (r: i64)
    requires
        lo <= hi,
    ensures
        r == clamp_spec(v as int, lo as int, hi as int),
{
    if v < lo {
        lo
    } else if v > hi {
        hi
    } else {
        v
    }
}

/// Milli-degrees in a full turn.
pub const DEG_FULL: i64 = 360_000;

/// Milli-degrees in a half turn.
pub const DEG_HALF: i64 = 180_000;

/// Fixed-point scale of the sine/cosine values: 1000 stands for 1.
pub const TRIG_ONE: i64 = 1000;

/// Sine on `[0, 180_000]` milli-degrees, scaled by `TRIG_ONE`, as the
/// rational approximation `4 t / (40500 - t)` of `sin` (with `t = x (180 - x)`
/// in degrees), evaluated in milli-degrees. This approximation *is* the
/// model's definition of the sine; it is exact at 0, 90 and 180 degrees
/// and within 0.2% of the real sine elsewhere.
pub open spec fn sin_half_spec(md: int) -> int {
    let t = md * (180_000 - md);
    4000 * t / (40_500_000_000 - t)
}

/// Sine of an angle in `[0, 360_000]` milli-degrees, scaled by `TRIG_ONE`.
pub open spec fn sin_mdeg_spec(md: int) -> int {
    if md <= 180_000 {
        sin_half_spec(md)
    } else {
        -sin_half_spec(md - 180_000)
    }
}

/// Cosine of an angle in `[0, 360_000]` milli-degrees, scaled by `TRIG_ONE`.
pub open spec fn cos_mdeg_spec(md: int) -> int {
    sin_mdeg_spec((md + 90_000) % 360_000)
}

/// The half-turn sine lies in `[0, TRIG_ONE]`.
pub proof fn lemma_sin_half_bounds(md: int)
    requires
        0 <= md <= 180_000,
    ensures
        0 <= sin_half_spec(md) <= 1000,
{
    assert(0 <= md * (180_000 - md) <= 8_100_000_000) by (nonlinear_arith)
        requires
            0 <= md <= 180_000,
    ;
    let t = md * (180_000 - md);
    let d = 40_500_000_000 - t;
    assert(4000 * t >= 0);
    assert(d >= 32_400_000_000);
    vstd::arithmetic::div_mod::lemma_div_pos_is_pos(4000 * t, d);
    assert(4000 * t <= 1000 * d);
    vstd::arithmetic::div_mod::lemma_div_multiples_vanish(1000, d);
    assert(1000 * d == d * 1000);
    vstd::arithmetic::div_mod::lemma_div_is_ordered(4000 * t, 1000 * d, d);
}

/// The sine of any angle lies in `[-TRIG_ONE, TRIG_ONE]`.
pub proof fn lemma_sin_bounds(md: int)
    requires
        0 <= md <= 360_000,
    ensures
        -1000 <= sin_mdeg_spec(md) <= 1000,
{
    if md <= 180_000 {
        lemma_sin_half_bounds(md);
    } else {
        lemma_sin_half_bounds(md - 180_000);
    }
}

/// The cosine of any angle lies in `[-TRIG_ONE, TRIG_ONE]`.
pub proof fn lemma_cos_bounds(md: int)
    requires
        0 <= md <= 360_000,
    ensures
        -1000 <= cos_mdeg_spec(md) <= 1000,
{
    lemma_sin_bounds((md + 90_000) % 360_000);
}

fn sin_half(md: i64) -> (r: i64)
    requires
        0 <= md <= 180_000,
    ensures
        r == sin_half_spec(md as int),
        0 <= r <= 1000,
{
    proof {
        lemma_sin_half_bounds(md as int);
        assert(0 <= md * (180_000 - md) <= 8_100_000_000) by (nonlinear_arith)
            requires
                0 <= md <= 180_000,
        ;
    }
    let t = md * (180_000 - md);
    (4000 * t) / (40_500_000_000 - t)
}

/// Fixed-point sine of `md` milli-degrees.
pub fn sin_mdeg(md: i64) -> (r: i64)
    requires
        0 <= md <= 360_000,
    ensures
        r == sin_mdeg_spec(md as int),
        -1000 <= r <= 1000,
{
    if md <= 180_000 {
        sin_half(md)
    } else {
        -(sin_half(md - 180_000))
    }
}

/// Fixed-point cosine of `md` milli-degrees.
pub fn cos_mdeg(md: i64) -> (r: i64)
    requires
        0 <= md <= 360_000,
    ensures
        r == cos_mdeg_spec(md as int),
        -1000 <= r <= 1000,
{
    sin_mdeg((md + 90_000) % 360_000)
}

/// A length scaled by a fixed-point sine or cosine value.
pub open spec fn trig_mul_spec(t: int, len: int) -> int {
    div_tz(t * len, 1000)
}

/// Scale the length `len` by the fixed-point factor `t` (a sine or
/// cosine value in `[-TRIG_ONE, TRIG_ONE]`).
pub fn trig_mul(t: i64, len: i64) -> (r: i64)
    requires
        -1000 <= t <= 1000,
        -0x1_0000_0000 <= len <= 0x1_0000_0000,
    ensures
        r == trig_mul_spec(t as int, len as int),
        len >= 0 ==> -len <= r <= len,
        len < 0 ==> len <= r <= -len,
{
    proof {
        if len >= 0 {
            lemma_mul_bound(t as int, len as int, 1000, len as int);
            vstd::arithmetic::mul::lemma_mul_is_commutative(1000, len as int);
            lemma_div_tz_bound(t as int * len as int, 1000, len as int);
        } else {
            lemma_mul_bound(t as int, len as int, 1000, -(len as int));
            vstd::arithmetic::mul::lemma_mul_is_commutative(1000, -(len as int));
            lemma_div_tz_bound(t as int * len as int, 1000, -(len as int));
        }
    }
    (t * len) / 1000
}

/// A local-frame point rotated by `angle` milli-degrees and translated to
/// `pos`: the one transform shared by rendering and collision geometry.
pub open spec fn rotate_spec(pos: Vec2, p: Vec2, angle: int) -> Vec2 {
    let c = cos_mdeg_spec(angle);
    let s = sin_mdeg_spec(angle);
    Vec2 {
        x: (pos.x + div_tz(p.x * c - p.y * s, 1000)) as i64,
        y: (pos.y + div_tz(p.x * s + p.y * c, 1000)) as i64,
    }
}

/// World-space position of the local-frame point `p` of an object sitting
/// at `pos` with rotation `angle` milli-degrees.
pub fn rotate_point(pos: Vec2, p: Vec2, angle: i64) -> (r: Vec2)
    requires
        0 <= angle <= 360_000,
        pos.norm_le(0x800_0000_0000),
        p.norm_le(0x4000_0000),
    ensures
        r == rotate_spec(pos, p, angle as int),
        r.norm_le(0x800_8000_0000int),
{
    let c = cos_mdeg(angle);
    let s = sin_mdeg(angle);
    proof {
        lemma_mul_bound(p.x as int, c as int, 0x4000_0000, 1000);
        lemma_mul_bound(p.y as int, s as int, 0x4000_0000, 1000);
        lemma_mul_bound(p.x as int, s as int, 0x4000_0000, 1000);
        lemma_mul_bound(p.y as int, c as int, 0x4000_0000, 1000);
        lemma_div_tz_bound(p.x as int * c as int - p.y as int * s as int, 1000, 0x8000_0000);
        lemma_div_tz_bound(p.x as int * s as int + p.y as int * c as int, 1000, 0x8000_0000);
    }
    let dx = (p.x * c - p.y * s) / 1000;
    let dy = (p.x * s + p.y * c) / 1000;
    Vec2 { x: pos.x + dx, y: pos.y + dy }
}

/// Integer square root: the greatest `r` with `r * r <= n`.
pub fn isqrt(n: i64) -> (r: i64)
    requires
        0 <= n <= 0x4_0000_0000_0000,
    ensures
        0 <= r,
        r * r <= n,
        n < (r + 1) * (r + 1),
{
    let mut lo: i64 = 0;
    let mut hi: i64 = 0x200_0000;
    assert((0x200_0000 + 1) * (0x200_0000 + 1) > 0x4_0000_0000_0000int) by (nonlinear_arith);
    while lo < hi
        invariant
            0 <= lo <= hi <= 0x200_0000,
            lo * lo <= n,
            n < (hi + 1) * (hi + 1),
        decreases hi - lo,
    {
        let mid = lo + (hi - lo + 1) / 2;
        proof {
            lemma_mul_bound(mid as int, mid as int, 0x200_0000, 0x200_0000);
        }
        if mid * mid <= n {
            lo = mid;
        } else {
            hi = mid - 1;
        }
    }
    lo
}

} // verus!
