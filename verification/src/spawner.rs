//! Spawner: procedural generation of irregular asteroid polygons,
//! asteroid fields placed on a ring, the deterministic background star
//! field, and thruster exhaust bursts.

use vstd::prelude::*;

use crate::components::{
    Asteroid, Exhaust, GameState, Spaceship, Star, ASTEROID_MAX_SIZE, ASTEROID_VEL, BOUND_LIMIT,
    EXHAUST_COOLDOWN, PLAYER_WIDTH, POS_LIMIT, SCALE_LIMIT, TIME_LIMIT,
};
use crate::utils::{
    clamp, clamp_spec, cos_mdeg, cos_mdeg_spec, div_tz, isqrt, lemma_div_tz_bound, lemma_mul_bound,
    sin_mdeg, sin_mdeg_spec, trig_mul, trig_mul_spec, Vec2,
};

verus! {

/// Fixed seed of the background star field: the layout is reproducible
/// across sessions, while all other randomness stays time-seeded.
pub const STAR_SEED: u64 = 421337421337;

/// Relies on macroquad::rand::gen_range::<i64>: a pseudo-random value
/// drawn between the given bounds. The draw depends on hidden generator
/// state, so nothing beyond the range is promised.
#[verifier::external_body]
fn gen_range_i64(low: i64, high: i64) -> (r: i64)
    requires
        0 <= low <= high <= 0x4_0000_0000_0000,
    ensures
        low <= r <= high,
{
    macroquad::rand::gen_range(low, high)
}

/// Relies on macroquad::rand::srand: reseeds the global pseudo-random
/// generator. Star-field generation seeds it with `STAR_SEED` for a
/// reproducible layout and afterwards restores a caller-supplied seed.
#[verifier::external_body]
fn seed_rng(seed: u64) {
    macroquad::rand::srand(seed);
}

/// Spacing of the generated polygon's vertices, in milli-degrees.
pub open spec fn polygon_angle_inc(amount: int) -> int {
    360_000int / amount
}

/// The vertex of index `idx` (1-based) of a generated polygon, for the
/// per-mille radius draw `rp`: at angle `angle_inc * idx`, at distance
/// `rp/1000 * size` from the center.
pub open spec fn polygon_point_spec(origo: Vec2, angle_inc: int, idx: int, rp: int, size: int) -> Vec2 {
    let rot = angle_inc * idx;
    let radius = div_tz(PLAYER_WIDTH * rp * size, 1_000_000);
    Vec2 {
        x: (origo.x + trig_mul_spec(sin_mdeg_spec(rot), radius)) as i64,
        y: (origo.y - trig_mul_spec(cos_mdeg_spec(rot), radius)) as i64,
    }
}

/// An irregular closed polygon around `origo`: `amount` vertices spaced
/// `360/amount` degrees apart, each at an independently random radius
/// between half `size` and `size` (consumers connect consecutive points
/// and wrap the last to the first).
pub fn polygon(origo: Vec2, amount: i64, size: i64) -> (r: Vec<Vec2>)
    requires
        3 <= amount <= 100_000,
        0 < size <= 0x40_0000,
        origo.norm_le(POS_LIMIT as int),
    ensures
        r@.len() == amount,
        exists|rads: Seq<int>|
            {
                &&& #[trigger] rads.len() == amount
                &&& (forall|j: int| 0 <= j < amount ==> 500 <= #[trigger] rads[j] <= 1000)
                &&& (forall|j: int|
                    #![trigger r@[j]]
                    0 <= j < amount ==> r@[j] == polygon_point_spec(
                        origo,
                        polygon_angle_inc(amount as int),
                        j + 1,
                        rads[j],
                        size as int,
                    ))
            },
        forall|j: int|
            0 <= j < amount ==> origo.x - size <= (#[trigger] r@[j]).x <= origo.x + size
                && origo.y - size <= r@[j].y <= origo.y + size,
{
    let mut r: Vec<Vec2> = Vec::new();
    let ghost mut draws: Seq<int> = Seq::empty();
    let angle_inc = 360_000 / amount;
    proof {
        vstd::arithmetic::div_mod::lemma_fundamental_div_mod(360_000, amount as int);
        vstd::arithmetic::div_mod::lemma_div_pos_is_pos(360_000, amount as int);
        vstd::arithmetic::div_mod::lemma_mod_bound(360_000, amount as int);
        vstd::arithmetic::mul::lemma_mul_is_commutative(amount as int, 360_000int / amount as int);
    }
    let mut i: i64 = 1;
    while i <= amount
        invariant
            3 <= amount <= 100_000,
            0 < size <= 0x40_0000,
            origo.norm_le(POS_LIMIT as int),
            angle_inc == polygon_angle_inc(amount as int),
            0 <= angle_inc,
            angle_inc * amount <= 360_000,
            1 <= i <= amount + 1,
            r@.len() == i - 1,
            draws.len() == i - 1,
            forall|j: int| 0 <= j < i - 1 ==> 500 <= #[trigger] draws[j] <= 1000,
            forall|j: int|
                #![trigger r@[j]]
                0 <= j < i - 1 ==> r@[j] == polygon_point_spec(
                    origo,
                    polygon_angle_inc(amount as int),
                    j + 1,
                    draws[j],
                    size as int,
                ),
            forall|j: int|
                0 <= j < i - 1 ==> origo.x - size <= (#[trigger] r@[j]).x <= origo.x + size
                    && origo.y - size <= r@[j].y <= origo.y + size,
        decreases amount + 1 - i,
    {
        proof {
            vstd::arithmetic::mul::lemma_mul_inequality(i as int, amount as int, angle_inc as int);
            vstd::arithmetic::mul::lemma_mul_is_commutative(angle_inc as int, i as int);
            vstd::arithmetic::mul::lemma_mul_is_commutative(angle_inc as int, amount as int);
            vstd::arithmetic::mul::lemma_mul_inequality(0, i as int, angle_inc as int);
        }
        let rot = angle_inc * i;
        let rp = gen_range_i64(500, 1000);
        proof {
            let a = PLAYER_WIDTH as int * rp as int;
            vstd::arithmetic::mul::lemma_mul_inequality(a, 1_000_000, size as int);
            vstd::arithmetic::mul::lemma_mul_inequality(0, a, size as int);
            vstd::arithmetic::mul::lemma_mul_is_commutative(1_000_000, size as int);
            lemma_div_tz_bound(a * size as int, 1_000_000, size as int);
            vstd::arithmetic::div_mod::lemma_div_pos_is_pos(a * size as int, 1_000_000);
        }
        let radius = PLAYER_WIDTH * rp * size / 1_000_000;
        let s = sin_mdeg(rot);
        let c = cos_mdeg(rot);
        let p = Vec2 { x: origo.x + trig_mul(s, radius), y: origo.y - trig_mul(c, radius) };
        let ghost r_old = r@;
        let ghost draws_old = draws;
        r.push(p);
        proof {
            draws = draws.push(rp as int);
            assert(p == polygon_point_spec(
                origo,
                polygon_angle_inc(amount as int),
                i as int,
                rp as int,
                size as int,
            ));
            assert forall|j: int| 0 <= j < i as int implies 500 <= #[trigger] draws[j] <= 1000 by {
                if j < i as int - 1 {
                    assert(draws[j] == draws_old[j]);
                } else {
                    assert(draws[j] == rp as int);
                }
            }
            assert forall|j: int| #![trigger r@[j]] 0 <= j < i as int implies r@[j]
                == polygon_point_spec(
                origo,
                polygon_angle_inc(amount as int),
                j + 1,
                draws[j],
                size as int,
            ) by {
                if j < i as int - 1 {
                    assert(r@[j] == r_old[j]);
                    assert(draws[j] == draws_old[j]);
                } else {
                    assert(r@[j] == p);
                    assert(draws[j] == rp as int);
                }
            }
        }
        i = i + 1;
    }
    proof {
        assert(draws.len() == amount);
        assert(forall|j: int| 0 <= j < amount ==> 500 <= #[trigger] draws[j] <= 1000);
        assert(forall|j: int|
            #![trigger r@[j]]
            0 <= j < amount ==> r@[j] == polygon_point_spec(
                origo,
                polygon_angle_inc(amount as int),
                j + 1,
                draws[j],
                size as int,
            ));
    }
    r
}

/// The placement/spin angle of ring slot `idx` (1-based) after the
/// per-mille jitter draw `jit`: even spacing plus up to 30 degrees.
pub open spec fn ring_angle(angle_inc: int, idx: int, jit: int) -> int {
    (angle_inc * idx + 30 * jit) % 360_000
}

/// The ring position of slot `idx` for jitter draw `jit`: `spawn` plus
/// `r` along the slot's direction.
pub open spec fn ring_point_spec(spawn: Vec2, r: i64, angle_inc: int, idx: int, jit: int) -> Vec2 {
    let rot = ring_angle(angle_inc, idx, jit);
    Vec2 {
        x: (spawn.x + trig_mul_spec(sin_mdeg_spec(rot), r as int)) as i64,
        y: (spawn.y - trig_mul_spec(cos_mdeg_spec(rot), r as int)) as i64,
    }
}

/// One component of an asteroid's velocity: proportional to its position
/// and inverse in its size class (smaller asteroids move faster).
pub open spec fn asteroid_vel_spec(p: int, size: int) -> int {
    div_tz(p * ASTEROID_VEL, 20_000 * size)
}

/// `w` is the rounded distance between the polygon's first vertex and the
/// one roughly opposite it (index len/2), the diameter estimate used for
/// wrap margins, the fragmentation ring and the explosion width.
pub open spec fn is_width_of(pts: Seq<Vec2>, w: int) -> bool {
    let dx = pts[0].x - pts[pts.len() as int / 2].x;
    let dy = pts[0].y - pts[pts.len() as int / 2].y;
    &&& 0 <= w
    &&& w * w <= dx * dx + dy * dy
    &&& dx * dx + dy * dy < (w + 1) * (w + 1)
}

/// A field of `amount` asteroids of class `size`, placed evenly around a
/// ring of radius `r` from `spawn_point` with a random angular jitter of
/// up to 30 degrees, each with an 8-vertex random polygon, a width equal
/// to the rounded distance between opposite vertices, and a velocity
/// proportional to its position and inverse in its size.
pub fn asteroids(spawn_point: Vec2, r: i64, amount: i64, size: i64, scl: i64) -> (res: Vec<
    Asteroid,
>)
    requires
        spawn_point.norm_le(2 * BOUND_LIMIT as int),
        0 <= r <= 2 * BOUND_LIMIT,
        1 <= amount <= 64,
        1 <= size <= ASTEROID_MAX_SIZE,
        1 <= scl <= SCALE_LIMIT,
    ensures
        res@.len() == amount,
        forall|k: int|
            0 <= k < amount ==> {
                &&& (#[trigger] res@[k]).wf()
                &&& res@[k].size == size
                &&& !res@[k].collision
                &&& res@[k].points@.len() == 8
                &&& spawn_point.x - r <= res@[k].pos.x <= spawn_point.x + r
                &&& spawn_point.y - r <= res@[k].pos.y <= spawn_point.y + r
                &&& res@[k].vel.x == asteroid_vel_spec(res@[k].pos.x as int, size as int)
                &&& res@[k].vel.y == asteroid_vel_spec(res@[k].pos.y as int, size as int)
                &&& is_width_of(res@[k].points@, res@[k].w as int)
            },
        exists|jits: Seq<int>|
            {
                &&& #[trigger] jits.len() == amount
                &&& (forall|k: int| 0 <= k < amount ==> 100 <= #[trigger] jits[k] <= 1000)
                &&& (forall|k: int|
                    #![trigger res@[k]]
                    0 <= k < amount ==> res@[k].pos == ring_point_spec(
                        spawn_point,
                        r,
                        polygon_angle_inc(amount as int),
                        k + 1,
                        jits[k],
                    ) && res@[k].angle == ring_angle(
                        polygon_angle_inc(amount as int),
                        k + 1,
                        jits[k],
                    ))
            },
{
    let mut res: Vec<Asteroid> = Vec::new();
    let ghost mut jits: Seq<int> = Seq::empty();
    let angle_inc = 360_000 / amount;
    proof {
        vstd::arithmetic::div_mod::lemma_fundamental_div_mod(360_000, amount as int);
        vstd::arithmetic::div_mod::lemma_div_pos_is_pos(360_000, amount as int);
        vstd::arithmetic::div_mod::lemma_mod_bound(360_000, amount as int);
        vstd::arithmetic::mul::lemma_mul_is_commutative(amount as int, 360_000int / amount as int);
    }
    let mut i: i64 = 1;
    while i <= amount
        invariant
            spawn_point.norm_le(2 * BOUND_LIMIT as int),
            0 <= r <= 2 * BOUND_LIMIT,
            1 <= amount <= 64,
            1 <= size <= ASTEROID_MAX_SIZE,
            1 <= scl <= SCALE_LIMIT,
            angle_inc == polygon_angle_inc(amount as int),
            0 <= angle_inc,
            angle_inc * amount <= 360_000,
            1 <= i <= amount + 1,
            res@.len() == i - 1,
            jits.len() == i - 1,
            forall|k: int| 0 <= k < i - 1 ==> 100 <= #[trigger] jits[k] <= 1000,
            forall|k: int|
                0 <= k < i - 1 ==> {
                    &&& (#[trigger] res@[k]).wf()
                    &&& res@[k].size == size
                    &&& !res@[k].collision
                    &&& res@[k].points@.len() == 8
                    &&& spawn_point.x - r <= res@[k].pos.x <= spawn_point.x + r
                    &&& spawn_point.y - r <= res@[k].pos.y <= spawn_point.y + r
                    &&& res@[k].vel.x == asteroid_vel_spec(res@[k].pos.x as int, size as int)
                    &&& res@[k].vel.y == asteroid_vel_spec(res@[k].pos.y as int, size as int)
                    &&& is_width_of(res@[k].points@, res@[k].w as int)
                },
            forall|k: int|
                #![trigger res@[k]]
                0 <= k < i - 1 ==> res@[k].pos == ring_point_spec(
                    spawn_point,
                    r,
                    polygon_angle_inc(amount as int),
                    k + 1,
                    jits[k],
                ) && res@[k].angle == ring_angle(
                    polygon_angle_inc(amount as int),
                    k + 1,
                    jits[k],
                ),
        decreases amount + 1 - i,
    {
        proof {
            vstd::arithmetic::mul::lemma_mul_inequality(i as int, amount as int, angle_inc as int);
            vstd::arithmetic::mul::lemma_mul_is_commutative(angle_inc as int, i as int);
            vstd::arithmetic::mul::lemma_mul_is_commutative(angle_inc as int, amount as int);
            vstd::arithmetic::mul::lemma_mul_inequality(0, i as int, angle_inc as int);
        }
        let jitter = gen_range_i64(100, 1000);
        let rot = (angle_inc * i + 30 * jitter) % 360_000;
        proof {
            vstd::arithmetic::div_mod::lemma_mod_bound(
                angle_inc as int * i as int + 30 * jitter as int,
                360_000,
            );
        }
        let s = sin_mdeg(rot);
        let c = cos_mdeg(rot);
        let pos = Vec2 { x: spawn_point.x + trig_mul(s, r), y: spawn_point.y - trig_mul(c, r) };
        proof {
            lemma_mul_bound(pos.x as int, ASTEROID_VEL as int, 0x400_0000, 6000);
            lemma_mul_bound(pos.y as int, ASTEROID_VEL as int, 0x400_0000, 6000);
            vstd::arithmetic::mul::lemma_mul_inequality(6000, 20_000 * size as int, 0x400_0000);
            vstd::arithmetic::mul::lemma_mul_is_commutative(0x400_0000, 20_000 * size as int);
            vstd::arithmetic::mul::lemma_mul_is_commutative(0x400_0000, 6000);
            lemma_div_tz_bound(pos.x as int * ASTEROID_VEL as int, 20_000 * size as int, 0x400_0000);
            lemma_div_tz_bound(pos.y as int * ASTEROID_VEL as int, 20_000 * size as int, 0x400_0000);
        }
        let vel = Vec2 {
            x: pos.x * ASTEROID_VEL / (20_000 * size),
            y: pos.y * ASTEROID_VEL / (20_000 * size),
        };
        proof {
            lemma_mul_bound(size as int, scl as int, ASTEROID_MAX_SIZE as int, SCALE_LIMIT as int);
            vstd::arithmetic::mul::lemma_mul_inequality(1, scl as int, size as int);
            vstd::arithmetic::mul::lemma_mul_is_commutative(scl as int, size as int);
        }
        let points = polygon(Vec2 { x: 0, y: 0 }, 8, size * scl);
        let p0 = points[0];
        let p4 = points[4];
        let dx = p0.x - p4.x;
        let dy = p0.y - p4.y;
        proof {
            lemma_mul_bound(dx as int, dx as int, 0x80_0000, 0x80_0000);
            lemma_mul_bound(dy as int, dy as int, 0x80_0000, 0x80_0000);
            crate::utils::lemma_square_nonneg(dx as int);
            crate::utils::lemma_square_nonneg(dy as int);
        }
        let w = isqrt(dx * dx + dy * dy);
        proof {
            assert(w <= 0x100_0000) by (nonlinear_arith)
                requires
                    0 <= w,
                    (w as int) * (w as int) < 0x1_0000_0000_0000,
            ;
        }
        let a = Asteroid { pos, vel, size, points, w, angle: rot, collision: false };
        let ghost res_old = res@;
        let ghost jits_old = jits;
        res.push(a);
        proof {
            jits = jits.push(jitter as int);
            assert(a.pos == ring_point_spec(
                spawn_point,
                r,
                polygon_angle_inc(amount as int),
                i as int,
                jitter as int,
            ));
            assert(a.angle == ring_angle(polygon_angle_inc(amount as int), i as int, jitter as int));
            assert(is_width_of(a.points@, a.w as int));
            assert forall|k: int| 0 <= k < i as int implies 100 <= #[trigger] jits[k] <= 1000 by {
                if k < i as int - 1 {
                    assert(jits[k] == jits_old[k]);
                } else {
                    assert(jits[k] == jitter as int);
                }
            }
            assert forall|k: int| #![trigger res@[k]] 0 <= k < i as int implies res@[k].pos
                == ring_point_spec(
                spawn_point,
                r,
                polygon_angle_inc(amount as int),
                k + 1,
                jits[k],
            ) && res@[k].angle == ring_angle(
                polygon_angle_inc(amount as int),
                k + 1,
                jits[k],
            ) by {
                if k < i as int - 1 {
                    assert(res@[k] == res_old[k]);
                    assert(jits[k] == jits_old[k]);
                } else {
                    assert(res@[k] == a);
                    assert(jits[k] == jitter as int);
                }
            }
        }
        i = i + 1;
    }
    proof {
        assert(jits.len() == amount);
    }
    res
}

/// The background star field: `amount` stars at reproducible positions
/// inside the map, 90% of size 1, graded up to size 3. The generator is
/// seeded with `STAR_SEED` first and reseeded with `restore_seed` after,
/// so only the star layout is deterministic.
pub fn stars(amount: i64, map_width: i64, map_height: i64, restore_seed: u64) -> (res: Vec<Star>)
    requires
        0 <= amount <= 100_000,
        1 <= map_width <= BOUND_LIMIT,
        1 <= map_height <= BOUND_LIMIT,
    ensures
        res@.len() == amount,
        forall|k: int|
            0 <= k < amount ==> {
                &&& (#[trigger] res@[k]).wf()
                &&& 0 <= res@[k].pos.x <= map_width
                &&& 0 <= res@[k].pos.y <= map_height
            },
{
    seed_rng(STAR_SEED);
    let mut res: Vec<Star> = Vec::new();
    let mut i: i64 = 0;
    while i < amount
        invariant
            0 <= amount <= 100_000,
            1 <= map_width <= BOUND_LIMIT,
            1 <= map_height <= BOUND_LIMIT,
            0 <= i <= amount,
            res@.len() == i,
            forall|k: int|
                0 <= k < i ==> {
                    &&& (#[trigger] res@[k]).wf()
                    &&& 0 <= res@[k].pos.x <= map_width
                    &&& 0 <= res@[k].pos.y <= map_height
                },
        decreases amount - i,
    {
        let sr = gen_range_i64(1, 10);
        let size: i64 = if sr == 1 {
            3000
        } else if sr == 2 || sr == 3 || sr == 4 {
            2000
        } else {
            1000
        };
        let x = gen_range_i64(0, map_width);
        let y = gen_range_i64(0, map_height);
        res.push(Star { pos: Vec2 { x, y }, size });
        i = i + 1;
    }
    seed_rng(restore_seed);
    res
}

/// The exhaust particle emitted for the draws `factor` (burst offset
/// scale, per-mille), `spm` (size, per-mille) and `flip` (which side of
/// the engine the jitter points to), from a ship at `ppos` with heading
/// `rotation`: placed behind the engine at `h/2 + (h/3)*factor`, jittered
/// sideways by `factor` of `h/4`, and pushed along the reverse heading at
/// `vel` plus the sideways jitter.
pub open spec fn exhaust_particle_spec(
    ppos: Vec2,
    vel: i64,
    rotation: i64,
    h: i64,
    time: i64,
    factor: int,
    spm: int,
    flip: bool,
) -> Exhaust {
    let s = sin_mdeg_spec(rotation as int);
    let c = cos_mdeg_spec(rotation as int);
    let h4 = div_tz(h as int, 4);
    let h2 = div_tz(h as int, 2);
    let h3 = div_tz(h as int, 3);
    let dx = if flip {
        -trig_mul_spec(c, h4)
    } else {
        trig_mul_spec(c, h4)
    };
    let dy = if flip {
        -trig_mul_spec(s, h4)
    } else {
        trig_mul_spec(s, h4)
    };
    let off = h2 + div_tz(h3 * factor, 1000);
    let bx = ppos.x - trig_mul_spec(s, off);
    let by = ppos.y + trig_mul_spec(c, off);
    Exhaust {
        created_at: time,
        pos: Vec2 {
            x: clamp_spec(bx + div_tz(dx * factor, 1000), -POS_LIMIT as int, POS_LIMIT as int) as i64,
            y: clamp_spec(by + div_tz(dy * factor, 1000), -POS_LIMIT as int, POS_LIMIT as int) as i64,
        },
        size: (spm / 2) as i64,
        vel: Vec2 {
            x: (-trig_mul_spec(s, vel as int) + dx) as i64,
            y: (trig_mul_spec(c, vel as int) + dy) as i64,
        },
    }
}

/// Rate-limited burst of three exhaust particles from the ship's engine,
/// with randomized size, offset and lifetime-relevant velocity. `vel` and
/// `h` are signed so the same emitter serves forward and reverse thrust.
pub fn exhaust_particles(gs: &mut GameState, vel: i64, rotation: i64, h: i64, time: i64)
    requires
        old(gs).wf(),
        -0x100_0000 <= vel <= 0x100_0000,
        0 <= rotation <= 360_000,
        -0x8000_0000 <= h <= 0x8000_0000,
        0 <= time <= TIME_LIMIT,
    ensures
        final(gs).wf(),
        time - old(gs).player.last_exhaust_frame <= EXHAUST_COOLDOWN ==> *final(gs) == *old(gs),
        time - old(gs).player.last_exhaust_frame > EXHAUST_COOLDOWN ==> {
            &&& final(gs).exhaust@.len() == old(gs).exhaust@.len() + 3
            &&& final(gs).exhaust@.subrange(0, old(gs).exhaust@.len() as int) == old(gs).exhaust@
            &&& (forall|k: int|
                old(gs).exhaust@.len() <= k < final(gs).exhaust@.len()
                    ==> (#[trigger] final(gs).exhaust@[k]).created_at == time
                        && 50 <= final(gs).exhaust@[k].size <= 500)
            &&& (exists|fs: Seq<int>, ss: Seq<int>, cs: Seq<bool>|
                #![trigger fs.len(), ss.len(), cs.len()]
                {
                    &&& fs.len() == 3
                    &&& ss.len() == 3
                    &&& cs.len() == 3
                    &&& (forall|t: int| 0 <= t < 3 ==> 300 <= #[trigger] fs[t] <= 1000)
                    &&& (forall|t: int| 0 <= t < 3 ==> 100 <= #[trigger] ss[t] <= 1000)
                    &&& (forall|k: int|
                        old(gs).exhaust@.len() <= k < final(gs).exhaust@.len()
                            ==> (#[trigger] final(gs).exhaust@[k]) == exhaust_particle_spec(
                            old(gs).player.pos,
                            vel,
                            rotation,
                            h,
                            time,
                            fs[k - old(gs).exhaust@.len()],
                            ss[k - old(gs).exhaust@.len()],
                            cs[k - old(gs).exhaust@.len()],
                        ))
                })
            &&& final(gs).player == (Spaceship { last_exhaust_frame: time, ..old(gs).player })
            &&& *final(gs) == (GameState {
                exhaust: final(gs).exhaust,
                player: final(gs).player,
                ..*old(gs)
            })
        },
{
    if time - gs.player.last_exhaust_frame <= EXHAUST_COOLDOWN {
        return ;
    }
    let s = sin_mdeg(rotation);
    let c = cos_mdeg(rotation);
    proof {
        lemma_div_tz_bound(h as int, 4, 0x2000_0000);
        lemma_div_tz_bound(h as int, 2, 0x4000_0000);
        lemma_div_tz_bound(h as int, 3, 0x4000_0000);
    }
    let h4 = h / 4;
    let h2 = h / 2;
    let h3 = h / 3;
    let ghost len0 = gs.exhaust@.len() as int;
    let ghost mut fs: Seq<int> = Seq::empty();
    let ghost mut ss: Seq<int> = Seq::empty();
    let ghost mut cs: Seq<bool> = Seq::empty();
    let mut i: i64 = 0;
    while i < 3
        invariant
            0 <= i <= 3,
            gs.wf(),
            -0x2000_0000 <= h4 <= 0x2000_0000,
            -0x4000_0000 <= h2 <= 0x4000_0000,
            -0x4000_0000 <= h3 <= 0x4000_0000,
            h4 == div_tz(h as int, 4),
            h2 == div_tz(h as int, 2),
            h3 == div_tz(h as int, 3),
            -0x8000_0000 <= h <= 0x8000_0000,
            s == sin_mdeg_spec(rotation as int),
            c == cos_mdeg_spec(rotation as int),
            -1000 <= s <= 1000,
            -1000 <= c <= 1000,
            -0x100_0000 <= vel <= 0x100_0000,
            0 <= time <= TIME_LIMIT,
            0 <= len0,
            len0 == old(gs).exhaust@.len(),
            gs.exhaust@.len() == len0 + i,
            gs.exhaust@.subrange(0, len0) == old(gs).exhaust@,
            fs.len() == i,
            ss.len() == i,
            cs.len() == i,
            forall|t: int| 0 <= t < i ==> 300 <= #[trigger] fs[t] <= 1000,
            forall|t: int| 0 <= t < i ==> 100 <= #[trigger] ss[t] <= 1000,
            forall|k: int|
                len0 <= k < gs.exhaust@.len() ==> (#[trigger] gs.exhaust@[k]).created_at == time
                    && 50 <= gs.exhaust@[k].size <= 500,
            forall|k: int|
                len0 <= k < gs.exhaust@.len() ==> (#[trigger] gs.exhaust@[k])
                    == exhaust_particle_spec(
                    old(gs).player.pos,
                    vel,
                    rotation,
                    h,
                    time,
                    fs[k - len0],
                    ss[k - len0],
                    cs[k - len0],
                ),
            gs.player == old(gs).player,
            gs.scl == old(gs).scl,
            gs.bounds == old(gs).bounds,
            gs.flying_points == old(gs).flying_points,
            gs.background == old(gs).background,
            gs.explosions == old(gs).explosions,
            gs.bullets == old(gs).bullets,
            gs.asteroids == old(gs).asteroids,
            gs.lives == old(gs).lives,
            gs.run_state == old(gs).run_state,
            gs.play_time == old(gs).play_time,
            gs.combo_time == old(gs).combo_time,
            gs.combo == old(gs).combo,
            gs.score_multiplier == old(gs).score_multiplier,
            gs.score == old(gs).score,
            gs.debug == old(gs).debug,
        decreases 3 - i,
    {
        let factor = gen_range_i64(300, 1000);
        let spm = gen_range_i64(100, 1000);
        let coin = gen_range_i64(0, 100);
        let diff = if coin < 50 {
            Vec2 { x: -(trig_mul(c, h4)), y: -(trig_mul(s, h4)) }
        } else {
            Vec2 { x: trig_mul(c, h4), y: trig_mul(s, h4) }
        };
        proof {
            lemma_mul_bound(h3 as int, factor as int, 0x4000_0000, 1000);
            vstd::arithmetic::mul::lemma_mul_is_commutative(1000, 0x4000_0000int);
            lemma_div_tz_bound(h3 as int * factor as int, 1000, 0x4000_0000);
        }
        let off = h2 + (h3 * factor) / 1000;
        let base = Vec2 { x: gs.player.pos.x - trig_mul(s, off), y: gs.player.pos.y + trig_mul(
            c,
            off,
        ) };
        proof {
            lemma_mul_bound(diff.x as int, factor as int, 0x2000_0000, 1000);
            lemma_mul_bound(diff.y as int, factor as int, 0x2000_0000, 1000);
            vstd::arithmetic::mul::lemma_mul_is_commutative(1000, 0x2000_0000int);
            lemma_div_tz_bound(diff.x as int * factor as int, 1000, 0x2000_0000);
            lemma_div_tz_bound(diff.y as int * factor as int, 1000, 0x2000_0000);
        }
        let px = clamp(base.x + diff.x * factor / 1000, -POS_LIMIT, POS_LIMIT);
        let py = clamp(base.y + diff.y * factor / 1000, -POS_LIMIT, POS_LIMIT);
        let vx = -(trig_mul(s, vel)) + diff.x;
        let vy = trig_mul(c, vel) + diff.y;
        let e = Exhaust {
            created_at: time,
            pos: Vec2 { x: px, y: py },
            size: spm / 2,
            vel: Vec2 { x: vx, y: vy },
        };
        let ghost ex_old = gs.exhaust@;
        let ghost fs_old = fs;
        let ghost ss_old = ss;
        let ghost cs_old = cs;
        gs.exhaust.push(e);
        proof {
            fs = fs.push(factor as int);
            ss = ss.push(spm as int);
            cs = cs.push(coin < 50);
            assert(e == exhaust_particle_spec(
                old(gs).player.pos,
                vel,
                rotation,
                h,
                time,
                factor as int,
                spm as int,
                coin < 50,
            ));
            assert(ex_old.subrange(0, len0) == old(gs).exhaust@);
            assert forall|k: int| 0 <= k < len0 implies gs.exhaust@[k] == old(gs).exhaust@[k] by {
                assert(gs.exhaust@[k] == ex_old[k]);
                assert(ex_old[k] == ex_old.subrange(0, len0)[k]);
            }
            assert(gs.exhaust@.subrange(0, len0) =~= old(gs).exhaust@);
            assert forall|k: int|
                len0 <= k < gs.exhaust@.len() implies (#[trigger] gs.exhaust@[k]).created_at
                == time && 50 <= gs.exhaust@[k].size <= 500 by {
                if k < len0 + i as int {
                    assert(gs.exhaust@[k] == ex_old[k]);
                } else {
                    assert(gs.exhaust@[k] == e);
                }
            }
            assert forall|k: int|
                len0 <= k < gs.exhaust@.len() implies (#[trigger] gs.exhaust@[k])
                == exhaust_particle_spec(
                old(gs).player.pos,
                vel,
                rotation,
                h,
                time,
                fs[k - len0],
                ss[k - len0],
                cs[k - len0],
            ) by {
                if k < len0 + i as int {
                    assert(gs.exhaust@[k] == ex_old[k]);
                    assert(fs[k - len0] == fs_old[k - len0]);
                    assert(ss[k - len0] == ss_old[k - len0]);
                    assert(cs[k - len0] == cs_old[k - len0]);
                } else {
                    assert(gs.exhaust@[k] == e);
                    assert(fs[k - len0] == factor as int);
                    assert(ss[k - len0] == spm as int);
                    assert(cs[k - len0] == (coin < 50));
                }
            }
        }
        i = i + 1;
    }
    gs.player.last_exhaust_frame = time;
}

} // verus!
