//! Simulation engine: the per-frame tick. Integrates motion, resolves
//! collisions, ages and prunes time-limited entities, fragments destroyed
//! asteroids, and drives the run-state machine and the scoring/combo
//! logic. The host calls `update` once per frame with that frame's delta
//! and clock sample, and plays back the returned sound events.

use vstd::prelude::*;

use crate::components::{
    Asteroid, Bullet, Exhaust, Explosion, FlyingPoint, GameSound, GameState, RunState, Spaceship,
    BOUND_LIMIT, BULLET_LIVE_TIME, BULLET_WIDTH, COMBO_LIMIT, COMBO_TIMER, DELTA_LIMIT,
    EXHAUST_LIVE_TIME, EXPLOSION_LIVE_TIME, FLYING_POINT_LIVE_TIME, FRICT, GRAVITY_Y, MULT_LIMIT,
    POS_LIMIT, SCORE_BASE, SCORE_LIMIT, TIME_LIMIT, VEL_LIMIT,
};
use crate::utils::{
    clamp, clamp_spec, div_tz, intersects, intersects_spec, lemma_div_tz_bound, lemma_mul_bound,
    wrap, wrap_spec, Vec2,
};

verus! {

/// A coordinate advanced by one frame of its velocity.
pub open spec fn vel_step(p: int, v: int, delta: int) -> int {
    p + div_tz(v * delta, 1000)
}

/// Time and combo accounting: while actively running, the play clock
/// accumulates (up to the model's horizon) and the combo window decays;
/// once the window is empty the combo and the multiplier reset.
pub open spec fn time_combo_stepped(gs: GameState, delta: int) -> GameState {
    if gs.run_state == RunState::Running {
        let pt = if gs.play_time + delta <= TIME_LIMIT {
            (gs.play_time + delta) as i64
        } else {
            TIME_LIMIT
        };
        if gs.combo_time > 0 {
            let ct = if gs.combo_time - delta >= 0 {
                (gs.combo_time - delta) as i64
            } else {
                0
            };
            GameState { play_time: pt, combo_time: ct, ..gs }
        } else {
            GameState { play_time: pt, combo: 0, score_multiplier: 1, ..gs }
        }
    } else {
        gs
    }
}

/// One frame of friction on a velocity component: pulled toward zero by
/// the friction constant, never past it.
pub open spec fn friction_axis_spec(v: int, delta: int) -> int {
    let f = div_tz(FRICT * delta, 1000);
    if v > 0 {
        clamp_spec(v - f, 0, v)
    } else {
        clamp_spec(v + f, v, 0)
    }
}

/// The player after one frame: position advanced by one full velocity
/// (the ship's velocity is expressed per frame, unlike the delta-scaled
/// asteroids and bullets), then friction applied per axis.
pub open spec fn player_integrated(p: Spaceship, delta: int) -> Spaceship {
    Spaceship {
        pos: Vec2 {
            x: clamp_spec(p.pos.x + p.vel.x, -POS_LIMIT as int, POS_LIMIT as int) as i64,
            y: clamp_spec(p.pos.y + p.vel.y, -POS_LIMIT as int, POS_LIMIT as int) as i64,
        },
        vel: Vec2 {
            x: friction_axis_spec(p.vel.x as int, delta) as i64,
            y: friction_axis_spec(p.vel.y as int, delta) as i64,
        },
        ..p
    }
}

/// Time and combo accounting for one frame.
fn step_time_combo(gs: &mut GameState, delta: i64)
    requires
        old(gs).wf(),
        0 <= delta <= DELTA_LIMIT,
    ensures
        final(gs).wf(),
        *final(gs) == time_combo_stepped(*old(gs), delta as int),
{
    if gs.run_state == RunState::Running {
        if gs.play_time <= TIME_LIMIT - delta {
            gs.play_time = gs.play_time + delta;
        } else {
            gs.play_time = TIME_LIMIT;
        }
        if gs.combo_time > 0 {
            if gs.combo_time - delta >= 0 {
                gs.combo_time = gs.combo_time - delta;
            } else {
                gs.combo_time = 0;
            }
        } else {
            gs.combo = 0;
            gs.score_multiplier = 1;
        }
    }
}

/// Player integration: one velocity step and per-axis friction.
fn integrate_player(gs: &mut GameState, delta: i64)
    requires
        old(gs).wf(),
        0 <= delta <= DELTA_LIMIT,
    ensures
        final(gs).wf(),
        *final(gs) == (GameState {
            player: player_integrated(old(gs).player, delta as int),
            ..*old(gs)
        }),
{
    proof {
        lemma_mul_bound(FRICT as int, delta as int, FRICT as int, DELTA_LIMIT as int);
        lemma_div_tz_bound(FRICT as int * delta as int, 1000, 0x1_0000_0000);
    }
    let f = (FRICT * delta) / 1000;
    gs.player.pos = Vec2 {
        x: clamp(gs.player.pos.x + gs.player.vel.x, -POS_LIMIT, POS_LIMIT),
        y: clamp(gs.player.pos.y + gs.player.vel.y, -POS_LIMIT, POS_LIMIT),
    };
    let vx = gs.player.vel.x;
    let vy = gs.player.vel.y;
    let nvx = if vx > 0 {
        clamp(vx - f, 0, vx)
    } else {
        clamp(vx + f, vx, 0)
    };
    let nvy = if vy > 0 {
        clamp(vy - f, 0, vy)
    } else {
        clamp(vy + f, vy, 0)
    };
    gs.player.vel = Vec2 { x: nvx, y: nvy };
}

/// An asteroid after one frame: position advanced by a delta-scaled
/// velocity step and wrapped (with its width as the margin), spin angle
/// advanced inversely to its size.
pub open spec fn asteroid_moved(a: Asteroid, delta: int, bw: i64, bh: i64) -> Asteroid {
    let np = wrap_spec(
        Vec2 {
            x: vel_step(a.pos.x as int, a.vel.x as int, delta) as i64,
            y: vel_step(a.pos.y as int, a.vel.y as int, delta) as i64,
        },
        a.w,
        a.w,
        bw,
        bh,
    );
    Asteroid { pos: np, angle: ((a.angle + div_tz(1500, a.size as int)) % 360_000) as i64, ..a }
}

/// The segment ab crosses some edge of the closed polygon (consecutive
/// vertices, last wrapped to first).
pub open spec fn seg_hits_poly(a: Vec2, b: Vec2, poly: Seq<Vec2>) -> bool {
    exists|j: int|
        0 <= j < poly.len() && #[trigger] intersects_spec(
            a,
            b,
            poly[j],
            poly[(j + 1) % (poly.len() as int)],
        )
}

/// Some edge of the ship's leading triangle (the first three hull points)
/// crosses some edge of the polygon.
pub open spec fn ship_hits_poly(pts: Seq<Vec2>, poly: Seq<Vec2>) -> bool {
    exists|i: int| 0 <= i < 3 && #[trigger] seg_hits_poly(pts[i], pts[(i + 1) % 3], poly)
}

/// The ship's triangle crosses some asteroid's world-space polygon.
pub open spec fn player_hit_any(pts: Seq<Vec2>, asts: Seq<Asteroid>) -> bool {
    exists|k: int| 0 <= k < asts.len() && ship_hits_poly(pts, (#[trigger] asts[k]).world_points())
}


/// The state after time/combo accounting and player integration: the two
/// fully deterministic opening steps of a frame.
pub open spec fn integrated_state(gs: GameState, delta: int) -> GameState {
    let g2 = time_combo_stepped(gs, delta);
    GameState { player: player_integrated(g2.player, delta), ..g2 }
}

/// Relation of the asteroid-motion step: every asteroid moved and spun,
/// and, while running, one life lost (with respawn or stage end) exactly
/// when the player's triangle crosses some moved polygon; everything else
/// unchanged.
pub open spec fn asteroids_moved_rel(pre: GameState, post: GameState, delta: int) -> bool {
    &&& post.asteroids@.len() == pre.asteroids@.len()
    &&& (forall|k: int|
        0 <= k < pre.asteroids@.len() ==> post.asteroids@[k] == asteroid_moved(
            pre.asteroids@[k],
            delta,
            pre.bounds.x,
            pre.bounds.y,
        ))
    &&& ({
        let pts = pre.player.points_spec(pre.scl as int);
        let hit = pre.run_state == RunState::Running && player_hit_any(pts, post.asteroids@);
        if hit {
            &&& post.lives == (if pre.lives > 0 {
                pre.lives - 1
            } else {
                0int
            })
            &&& (if pre.lives - 1 > 0 {
                &&& post.player == (Spaceship {
                    vel: Vec2 { x: 0, y: 0 },
                    angle: 0,
                    pos: Vec2 {
                        x: (pre.bounds.x as int / 2) as i64,
                        y: (pre.bounds.y as int / 2) as i64,
                    },
                    ..pre.player
                })
                &&& post.run_state == RunState::Death
            } else {
                &&& post.player == pre.player
                &&& post.run_state == RunState::StageComplete
            })
        } else {
            &&& post.lives == pre.lives
            &&& post.player == pre.player
            &&& post.run_state == pre.run_state
        }
    })
    &&& post.scl == pre.scl
    &&& post.bounds == pre.bounds
    &&& post.flying_points == pre.flying_points
    &&& post.background == pre.background
    &&& post.exhaust == pre.exhaust
    &&& post.explosions == pre.explosions
    &&& post.bullets == pre.bullets
    &&& post.debug == pre.debug
    &&& post.play_time == pre.play_time
    &&& post.combo_time == pre.combo_time
    &&& post.combo == pre.combo
    &&& post.score_multiplier == pre.score_multiplier
    &&& post.score == pre.score
}

/// Move and spin every asteroid, then (while running) test the player's
/// triangular hull against every moved polygon: on a hit a life is lost,
/// and the ship respawns (or the stage ends when no lives remain).
#[verifier::rlimit(100)]
fn move_asteroids(gs: &mut GameState, delta: i64)
    requires
        old(gs).wf(),
        0 <= delta <= DELTA_LIMIT,
    ensures
        final(gs).wf(),
        asteroids_moved_rel(*old(gs), *final(gs), delta as int),
{
    let pts = gs.player.points(gs.scl);
    let bw = gs.bounds.x;
    let bh = gs.bounds.y;
    let n = gs.asteroids.len();
    let ghost mut hit_idx: int = -1;
    let mut k: usize = 0;
    while k < n
        invariant
            old(gs).wf(),
            0 <= delta <= DELTA_LIMIT,
            bw == old(gs).bounds.x,
            bh == old(gs).bounds.y,
            n == old(gs).asteroids@.len(),
            gs.asteroids@.len() == n,
            0 <= k <= n,
            pts@ == old(gs).player.points_spec(old(gs).scl as int),
            pts@.len() == 5,
            forall|i: int| 0 <= i < pts@.len() ==> (#[trigger] pts@[i]).norm_le(0xA00_0000_0000),
            forall|k2: int|
                0 <= k2 < k ==> gs.asteroids@[k2] == asteroid_moved(
                    old(gs).asteroids@[k2],
                    delta as int,
                    bw,
                    bh,
                ),
            forall|k2: int| k <= k2 < n ==> gs.asteroids@[k2] == old(gs).asteroids@[k2],
            forall|k2: int| 0 <= k2 < n ==> (#[trigger] gs.asteroids@[k2]).wf(),
            old(gs).run_state != RunState::Running ==> {
                &&& gs.lives == old(gs).lives
                &&& gs.player == old(gs).player
                &&& gs.run_state == old(gs).run_state
            },
            old(gs).run_state == RunState::Running && gs.run_state == RunState::Running ==> {
                &&& gs.lives == old(gs).lives
                &&& gs.player == old(gs).player
                &&& forall|k2: int|
                    0 <= k2 < k ==> !ship_hits_poly(
                        pts@,
                        (#[trigger] gs.asteroids@[k2]).world_points(),
                    )
            },
            old(gs).run_state == RunState::Running && gs.run_state != RunState::Running ==> {
                &&& 0 <= hit_idx < k
                &&& ship_hits_poly(pts@, gs.asteroids@[hit_idx].world_points())
                &&& gs.lives == (if old(gs).lives > 0 {
                    old(gs).lives - 1
                } else {
                    0int
                })
                &&& (if old(gs).lives - 1 > 0 {
                    &&& gs.player == (Spaceship {
                        vel: Vec2 { x: 0, y: 0 },
                        angle: 0,
                        pos: Vec2 {
                            x: (old(gs).bounds.x as int / 2) as i64,
                            y: (old(gs).bounds.y as int / 2) as i64,
                        },
                        ..old(gs).player
                    })
                    &&& gs.run_state == RunState::Death
                } else {
                    &&& gs.player == old(gs).player
                    &&& gs.run_state == RunState::StageComplete
                })
            },
            gs.scl == old(gs).scl,
            gs.bounds == old(gs).bounds,
            gs.flying_points == old(gs).flying_points,
            gs.background == old(gs).background,
            gs.exhaust == old(gs).exhaust,
            gs.explosions == old(gs).explosions,
            gs.bullets == old(gs).bullets,
            gs.debug == old(gs).debug,
            gs.play_time == old(gs).play_time,
            gs.combo_time == old(gs).combo_time,
            gs.combo == old(gs).combo,
            gs.score_multiplier == old(gs).score_multiplier,
            gs.score == old(gs).score,
            gs.lives >= 0,
        decreases n - k,
    {
        let a_pos = gs.asteroids[k].pos;
        let a_vel = gs.asteroids[k].vel;
        let a_w = gs.asteroids[k].w;
        let a_size = gs.asteroids[k].size;
        let a_angle = gs.asteroids[k].angle;
        proof {
            lemma_mul_bound(a_vel.x as int, delta as int, VEL_LIMIT as int, DELTA_LIMIT as int);
            lemma_mul_bound(a_vel.y as int, delta as int, VEL_LIMIT as int, DELTA_LIMIT as int);
            lemma_div_tz_bound(a_vel.x as int * delta as int, 1000, 0x800_0000_0000);
            lemma_div_tz_bound(a_vel.y as int * delta as int, 1000, 0x800_0000_0000);
            lemma_div_tz_bound(1500, a_size as int, 1500);
            vstd::arithmetic::div_mod::lemma_mod_bound(
                a_angle as int + div_tz(1500, a_size as int),
                360_000,
            );
        }
        let np = wrap(
            Vec2 { x: a_pos.x + a_vel.x * delta / 1000, y: a_pos.y + a_vel.y * delta / 1000 },
            a_w,
            a_w,
            bw,
            bh,
        );
        let spin = 1500 / a_size;
        let na = (a_angle + spin) % 360_000;
        gs.asteroids[k].pos = np;
        gs.asteroids[k].angle = na;
        proof {
            assert(gs.asteroids@[k as int] == asteroid_moved(
                old(gs).asteroids@[k as int],
                delta as int,
                bw,
                bh,
            ));
        }
        if gs.run_state == RunState::Running {
            let poly = gs.asteroids[k].points();
            let plen = poly.len();
            let mut hit = false;
            let mut i: usize = 0;
            while i < 3
                invariant
                    0 <= i <= 3,
                    pts@.len() == 5,
                    poly@.len() == plen,
                    plen >= 3,
                    forall|t: int| 0 <= t < pts@.len() ==> (#[trigger] pts@[t]).norm_le(0xA00_0000_0000),
                    forall|t: int|
                        0 <= t < poly@.len() ==> (#[trigger] poly@[t]).norm_le(0x800_8000_0000),
                    hit == (exists|i2: int|
                        0 <= i2 < i && #[trigger] seg_hits_poly(
                            pts@[i2],
                            pts@[(i2 + 1) % 3],
                            poly@,
                        )),
                decreases 3 - i,
            {
                let sa = pts[i];
                let sb = pts[(i + 1) % 3];
                let mut j: usize = 0;
                let mut edge_hit = false;
                while j < plen
                    invariant
                        0 <= j <= plen,
                        poly@.len() == plen,
                        plen >= 3,
                        sa == pts@[i as int],
                        sb == pts@[((i + 1) % 3) as int],
                        sa.norm_le(0xA00_0000_0000),
                        sb.norm_le(0xA00_0000_0000),
                        forall|t: int|
                            0 <= t < poly@.len() ==> (#[trigger] poly@[t]).norm_le(0x800_8000_0000),
                        edge_hit == (exists|j2: int|
                            0 <= j2 < j && #[trigger] intersects_spec(
                                sa,
                                sb,
                                poly@[j2],
                                poly@[(j2 + 1) % (plen as int)],
                            )),
                    decreases plen - j,
                {
                    if intersects(sa, sb, poly[j], poly[(j + 1) % plen]) {
                        edge_hit = true;
                    }
                    j = j + 1;
                }
                if edge_hit {
                    hit = true;
                    proof {
                        assert(seg_hits_poly(pts@[i as int], pts@[((i + 1) % 3) as int], poly@));
                    }
                }
                i = i + 1;
            }
            if hit {
                if gs.lives > 0 {
                    gs.lives = gs.lives - 1;
                }
                if gs.lives > 0 {
                    gs.player.reset(bw, bh);
                    gs.run_state = RunState::Death;
                } else {
                    gs.run_state = RunState::StageComplete;
                }
                proof {
                    hit_idx = k as int;
                    assert(ship_hits_poly(pts@, gs.asteroids@[hit_idx].world_points()));
                }
            }
        }
        k = k + 1;
    }
    proof {
        if old(gs).run_state == RunState::Running && gs.run_state == RunState::Running {
            assert(!player_hit_any(pts@, gs.asteroids@));
        }
        if old(gs).run_state == RunState::Running && gs.run_state != RunState::Running {
            assert(ship_hits_poly(pts@, gs.asteroids@[hit_idx].world_points()));
            assert(player_hit_any(pts@, gs.asteroids@));
        }
    }
}


/// An exhaust particle after one frame: moved by a delta-scaled velocity
/// step (unwrapped) and shrunk by the fixed decay rate, never below zero.
pub open spec fn exhaust_aged(e: Exhaust, delta: int) -> Exhaust {
    let shrink = div_tz(500 * delta, 1000);
    Exhaust {
        pos: Vec2 {
            x: clamp_spec(
                vel_step(e.pos.x as int, e.vel.x as int, delta),
                -POS_LIMIT as int,
                POS_LIMIT as int,
            ) as i64,
            y: clamp_spec(
                vel_step(e.pos.y as int, e.vel.y as int, delta),
                -POS_LIMIT as int,
                POS_LIMIT as int,
            ) as i64,
        },
        size: (if e.size - shrink >= 0 {
            e.size - shrink
        } else {
            0int
        }) as i64,
        ..e
    }
}

/// An exhaust particle survives the frame while it is younger than its
/// lifetime and its decayed size is still positive.
pub open spec fn exhaust_keep(e: Exhaust, time: int) -> bool {
    time - e.created_at < EXHAUST_LIVE_TIME && e.size > 0
}

/// A flying score readout after one frame: gravity accumulates into its
/// velocity, then the position advances by a delta-scaled step.
pub open spec fn flying_aged(f: FlyingPoint, delta: int) -> FlyingPoint {
    let nv = Vec2 {
        x: f.vel.x,
        y: clamp_spec(f.vel.y + GRAVITY_Y, -VEL_LIMIT as int, VEL_LIMIT as int) as i64,
    };
    FlyingPoint {
        vel: nv,
        pos: Vec2 {
            x: clamp_spec(
                vel_step(f.pos.x as int, f.vel.x as int, delta),
                -POS_LIMIT as int,
                POS_LIMIT as int,
            ) as i64,
            y: clamp_spec(
                vel_step(f.pos.y as int, nv.y as int, delta),
                -POS_LIMIT as int,
                POS_LIMIT as int,
            ) as i64,
        },
        ..f
    }
}


/// Relation of the particle-aging step: exhaust moved, shrunk and pruned,
/// flying readouts moved under gravity; everything else unchanged.
pub open spec fn particles_aged_rel(pre: GameState, post: GameState, delta: int, time: int) -> bool {
    &&& post.exhaust@ == Seq::new(
        pre.exhaust@.len(),
        |k: int| exhaust_aged(pre.exhaust@[k], delta),
    ).filter(|e: Exhaust| exhaust_keep(e, time))
    &&& post.flying_points@ == Seq::new(
        pre.flying_points@.len(),
        |k: int| flying_aged(pre.flying_points@[k], delta),
    )
    &&& post == (GameState { exhaust: post.exhaust, flying_points: post.flying_points, ..pre })
}

/// Age the exhaust particles (move, shrink, prune the expired and the
/// fully decayed) and move the flying score readouts under gravity.
fn age_particles(gs: &mut GameState, delta: i64, time: i64)
    requires
        old(gs).wf(),
        0 <= delta <= DELTA_LIMIT,
        0 <= time <= TIME_LIMIT,
    ensures
        final(gs).wf(),
        particles_aged_rel(*old(gs), *final(gs), delta as int, time as int),
{
    let ghost aged_all = Seq::new(
        old(gs).exhaust@.len(),
        |k: int| exhaust_aged(old(gs).exhaust@[k], delta as int),
    );
    let ghost keep = |e: Exhaust| exhaust_keep(e, time as int);
    proof {
        lemma_mul_bound(500, delta as int, 500, DELTA_LIMIT as int);
        lemma_div_tz_bound(500 * delta as int, 1000, 0x1_0000_0000);
    }
    let shrink = (500 * delta) / 1000;
    let n = gs.exhaust.len();
    let mut out: Vec<Exhaust> = Vec::new();
    let mut i: usize = 0;
    while i < n
        invariant
            old(gs).wf(),
            0 <= delta <= DELTA_LIMIT,
            0 <= time <= TIME_LIMIT,
            shrink == div_tz(500 * delta as int, 1000),
            0 <= shrink <= 0x1_0000_0000,
            n == old(gs).exhaust@.len(),
            gs.exhaust@ == old(gs).exhaust@,
            *gs == *old(gs),
            0 <= i <= n,
            aged_all == Seq::new(
                old(gs).exhaust@.len(),
                |k: int| exhaust_aged(old(gs).exhaust@[k], delta as int),
            ),
            keep == (|e: Exhaust| exhaust_keep(e, time as int)),
            out@ == aged_all.take(i as int).filter(keep),
            forall|t: int| 0 <= t < out@.len() ==> (#[trigger] out@[t]).wf(),
        decreases n - i,
    {
        let e = gs.exhaust[i];
        proof {
            lemma_mul_bound(e.vel.x as int, delta as int, VEL_LIMIT as int, DELTA_LIMIT as int);
            lemma_mul_bound(e.vel.y as int, delta as int, VEL_LIMIT as int, DELTA_LIMIT as int);
            lemma_div_tz_bound(e.vel.x as int * delta as int, 1000, 0x800_0000_0000);
            lemma_div_tz_bound(e.vel.y as int * delta as int, 1000, 0x800_0000_0000);
        }
        let nsize = if e.size - shrink >= 0 {
            e.size - shrink
        } else {
            0
        };
        let aged = Exhaust {
            pos: Vec2 {
                x: clamp(e.pos.x + e.vel.x * delta / 1000, -POS_LIMIT, POS_LIMIT),
                y: clamp(e.pos.y + e.vel.y * delta / 1000, -POS_LIMIT, POS_LIMIT),
            },
            size: nsize,
            ..e
        };
        proof {
            assert(aged == aged_all[i as int]);
            assert(aged_all.take(i as int + 1) =~= aged_all.take(i as int).push(aged));
            crate::utils::lemma_filter_push(aged_all.take(i as int), aged, keep);
        }
        if time - aged.created_at < EXHAUST_LIVE_TIME && aged.size > 0 {
            out.push(aged);
        }
        i = i + 1;
    }
    proof {
        assert(aged_all.take(n as int) =~= aged_all);
    }
    gs.exhaust = out;
    let ghost ex_final = gs.exhaust@;
    let m = gs.flying_points.len();
    let mut j: usize = 0;
    while j < m
        invariant
            old(gs).wf(),
            0 <= delta <= DELTA_LIMIT,
            0 <= time <= TIME_LIMIT,
            m == old(gs).flying_points@.len(),
            gs.flying_points@.len() == m,
            0 <= j <= m,
            forall|t: int|
                0 <= t < j ==> gs.flying_points@[t] == flying_aged(
                    old(gs).flying_points@[t],
                    delta as int,
                ),
            forall|t: int| j <= t < m ==> gs.flying_points@[t] == old(gs).flying_points@[t],
            forall|t: int| 0 <= t < m ==> (#[trigger] gs.flying_points@[t]).wf(),
            gs.exhaust@ == ex_final,
            ex_final == Seq::new(
                old(gs).exhaust@.len(),
                |k: int| exhaust_aged(old(gs).exhaust@[k], delta as int),
            ).filter(|e: Exhaust| exhaust_keep(e, time as int)),
            forall|t: int| 0 <= t < gs.exhaust@.len() ==> (#[trigger] gs.exhaust@[t]).wf(),
            *gs == (GameState {
                exhaust: gs.exhaust,
                flying_points: gs.flying_points,
                ..*old(gs)
            }),
        decreases m - j,
    {
        let f = gs.flying_points[j];
        let nvy = clamp(f.vel.y + GRAVITY_Y, -VEL_LIMIT, VEL_LIMIT);
        proof {
            lemma_mul_bound(f.vel.x as int, delta as int, VEL_LIMIT as int, DELTA_LIMIT as int);
            lemma_mul_bound(nvy as int, delta as int, VEL_LIMIT as int, DELTA_LIMIT as int);
            lemma_div_tz_bound(f.vel.x as int * delta as int, 1000, 0x800_0000_0000);
            lemma_div_tz_bound(nvy as int * delta as int, 1000, 0x800_0000_0000);
        }
        let np = Vec2 {
            x: clamp(f.pos.x + f.vel.x * delta / 1000, -POS_LIMIT, POS_LIMIT),
            y: clamp(f.pos.y + nvy * delta / 1000, -POS_LIMIT, POS_LIMIT),
        };
        gs.flying_points[j] = FlyingPoint { pos: np, vel: Vec2 { x: f.vel.x, y: nvy }, ..f };
        j = j + 1;
    }
    proof {
        assert(gs.flying_points@ =~= Seq::new(
            old(gs).flying_points@.len(),
            |k: int| flying_aged(old(gs).flying_points@[k], delta as int),
        ));
    }
}


/// A bullet after one frame: position advanced by a delta-scaled step and
/// wrapped with the bullet's width as margin.
pub open spec fn bullet_moved(b: Bullet, delta: int, bw: i64, bh: i64) -> Bullet {
    Bullet {
        pos: wrap_spec(
            Vec2 {
                x: vel_step(b.pos.x as int, b.vel.x as int, delta) as i64,
                y: vel_step(b.pos.y as int, b.vel.y as int, delta) as i64,
            },
            BULLET_WIDTH,
            BULLET_WIDTH,
            bw,
            bh,
        ),
        ..b
    }
}

/// Index of the first asteroid (from `j` on) whose polygon the segment ab
/// crosses; -1 when none does.
pub open spec fn first_hit_index(a: Vec2, b: Vec2, asts: Seq<Asteroid>, j: int) -> int
    decreases asts.len() - j,
{
    if j < 0 || j >= asts.len() {
        -1
    } else if seg_hits_poly(a, b, asts[j].world_points()) {
        j
    } else {
        first_hit_index(a, b, asts, j + 1)
    }
}

/// The asteroid a bullet's frame segment scores against: normally the
/// first one the segment crosses; a bullet already flagged as collided
/// scores against the first asteroid outright (the scan short-circuits).
pub open spec fn effective_hit(b: Bullet, moved_pos: Vec2, asts: Seq<Asteroid>) -> int {
    if b.collision {
        if asts.len() > 0 {
            0
        } else {
            -1
        }
    } else {
        first_hit_index(b.pos, moved_pos, asts, 0)
    }
}

/// A bullet after the move and the collision scan.
pub open spec fn bullet_processed(b: Bullet, asts: Seq<Asteroid>, delta: int, bw: i64, bh: i64) -> Bullet {
    let nb = bullet_moved(b, delta, bw, bh);
    Bullet { collision: effective_hit(b, nb.pos, asts) >= 0, ..nb }
}

/// Scoring accumulator threaded through the bullet pass: the combo count,
/// the multiplier, the total score, the combo window, the flying score
/// readouts, and the asteroids' collision flags.
pub struct ScoreState {
    pub combo: int,
    pub mult: int,
    pub score: int,
    pub combo_time: int,
    pub flying: Seq<FlyingPoint>,
    pub hits: Seq<bool>,
}

/// A velocity halved per axis (the flying readout inherits half the
/// bullet's velocity).
pub open spec fn half_vel(v: Vec2) -> Vec2 {
    Vec2 { x: div_tz(v.x as int, 2) as i64, y: div_tz(v.y as int, 2) as i64 }
}

/// One scoring hit on an asteroid of class `size`: the combo grows (up to
/// the model's cap) and refreshes its window, every fifth combo raises
/// the multiplier (up to its cap), the award `SCORE_BASE * size *
/// multiplier` accumulates into the score (saturating at the model's
/// cap), a flying readout of the award appears, and the asteroid at `k`
/// is flagged.
pub open spec fn hit_step(st: ScoreState, size: int, fp_pos: Vec2, fp_vel: Vec2, time: int, k: int) -> ScoreState {
    let combo = if st.combo < COMBO_LIMIT {
        st.combo + 1
    } else {
        st.combo
    };
    let mult = if combo % 5 == 0 && st.mult < MULT_LIMIT {
        st.mult + 1
    } else {
        st.mult
    };
    let award = SCORE_BASE * size * mult;
    let score = if st.score + award <= SCORE_LIMIT {
        st.score + award
    } else {
        SCORE_LIMIT as int
    };
    ScoreState {
        combo,
        mult,
        score,
        combo_time: COMBO_TIMER as int,
        flying: st.flying.push(
            FlyingPoint { pos: fp_pos, vel: fp_vel, val: award as i64, created_at: time as i64 },
        ),
        hits: st.hits.update(k, true),
    }
}

/// The scoring accumulator after processing the bullets from `i` on, in
/// order: each bullet that scores applies one `hit_step` against the
/// first asteroid its frame segment crosses.
pub open spec fn bullets_scored(
    bs: Seq<Bullet>,
    asts: Seq<Asteroid>,
    delta: int,
    bw: i64,
    bh: i64,
    time: int,
    st: ScoreState,
    i: int,
) -> ScoreState
    decreases bs.len() - i,
{
    if i < 0 || i >= bs.len() {
        st
    } else {
        let nb = bullet_moved(bs[i], delta, bw, bh);
        let k = effective_hit(bs[i], nb.pos, asts);
        let st2 = if k >= 0 {
            hit_step(st, asts[k].size as int, nb.pos, half_vel(bs[i].vel), time, k)
        } else {
            st
        };
        bullets_scored(bs, asts, delta, bw, bh, time, st2, i + 1)
    }
}

/// World-space geometry does not depend on the collision flag.
proof fn lemma_world_points_flag_indep(a: Asteroid, b: Asteroid)
    requires
        a.pos == b.pos,
        a.angle == b.angle,
        a.points == b.points,
    ensures
        a.world_points() == b.world_points(),
{
    assert(a.world_points() =~= b.world_points());
}

/// Scanning past a non-crossing asteroid keeps the first-hit index.
proof fn lemma_first_hit_skip(a: Vec2, b: Vec2, asts: Seq<Asteroid>, j: int)
    requires
        0 <= j < asts.len(),
        !seg_hits_poly(a, b, asts[j].world_points()),
    ensures
        first_hit_index(a, b, asts, j) == first_hit_index(a, b, asts, j + 1),
{
}

/// The initial scoring accumulator of a frame.
pub open spec fn score_state_of(gs: GameState) -> ScoreState {
    ScoreState {
        combo: gs.combo as int,
        mult: gs.score_multiplier as int,
        score: gs.score as int,
        combo_time: gs.combo_time as int,
        flying: gs.flying_points@,
        hits: Seq::new(gs.asteroids@.len(), |k: int| gs.asteroids@[k].collision),
    }
}


/// Relation of the bullet step: every bullet moved and flagged by its
/// frame segment, the combo/score accounting folded over the hits in
/// bullet order, hit asteroids flagged, one flying readout per hit;
/// everything else unchanged.
pub open spec fn bullets_scored_rel(pre: GameState, post: GameState, delta: int, time: int) -> bool {
    let stf = bullets_scored(
        pre.bullets@,
        pre.asteroids@,
        delta,
        pre.bounds.x,
        pre.bounds.y,
        time,
        score_state_of(pre),
        0,
    );
    &&& post.combo == stf.combo
    &&& post.score_multiplier == stf.mult
    &&& post.score == stf.score
    &&& post.combo_time == stf.combo_time
    &&& post.flying_points@ == stf.flying
    &&& post.asteroids@.len() == pre.asteroids@.len()
    &&& (forall|k: int|
        0 <= k < pre.asteroids@.len() ==> post.asteroids@[k] == (Asteroid {
            collision: stf.hits[k],
            ..pre.asteroids@[k]
        }))
    &&& post.bullets@.len() == pre.bullets@.len()
    &&& (forall|i: int|
        0 <= i < pre.bullets@.len() ==> post.bullets@[i] == bullet_processed(
            pre.bullets@[i],
            pre.asteroids@,
            delta,
            pre.bounds.x,
            pre.bounds.y,
        ))
    &&& post.player == pre.player
    &&& post.run_state == pre.run_state
    &&& post.lives == pre.lives
    &&& post.scl == pre.scl
    &&& post.bounds == pre.bounds
    &&& post.background == pre.background
    &&& post.exhaust == pre.exhaust
    &&& post.explosions == pre.explosions
    &&& post.debug == pre.debug
    &&& post.play_time == pre.play_time
}

/// Move every bullet, test its frame segment against every asteroid's
/// polygon, and on each first hit apply the combo/score accounting, flag
/// both entities, and spawn a flying score readout.
#[verifier::rlimit(100)]
fn move_bullets(gs: &mut GameState, delta: i64, time: i64)
    requires
        old(gs).wf(),
        0 <= delta <= DELTA_LIMIT,
        0 <= time <= TIME_LIMIT,
    ensures
        final(gs).wf(),
        bullets_scored_rel(*old(gs), *final(gs), delta as int, time as int),
{
    let ghost bs0 = gs.bullets@;
    let ghost asts0 = gs.asteroids@;
    let ghost st0 = score_state_of(*old(gs));
    let ghost mut st = st0;
    let bw = gs.bounds.x;
    let bh = gs.bounds.y;
    let nb = gs.bullets.len();
    let na = gs.asteroids.len();
    let mut i: usize = 0;
    while i < nb
        invariant
            old(gs).wf(),
            gs.wf(),
            0 <= delta <= DELTA_LIMIT,
            0 <= time <= TIME_LIMIT,
            bw == old(gs).bounds.x,
            bh == old(gs).bounds.y,
            bs0 == old(gs).bullets@,
            asts0 == old(gs).asteroids@,
            st0 == score_state_of(*old(gs)),
            nb == bs0.len(),
            na == asts0.len(),
            gs.bullets@.len() == nb,
            gs.asteroids@.len() == na,
            0 <= i <= nb,
            st.hits.len() == na,
            gs.combo == st.combo,
            gs.score_multiplier == st.mult,
            gs.score == st.score,
            gs.combo_time == st.combo_time,
            gs.flying_points@ == st.flying,
            forall|k: int|
                0 <= k < na ==> gs.asteroids@[k] == (Asteroid {
                    collision: st.hits[k],
                    ..asts0[k]
                }),
            forall|i2: int|
                0 <= i2 < i ==> gs.bullets@[i2] == bullet_processed(
                    bs0[i2],
                    asts0,
                    delta as int,
                    bw,
                    bh,
                ),
            forall|i2: int| i <= i2 < nb ==> gs.bullets@[i2] == bs0[i2],
            bullets_scored(bs0, asts0, delta as int, bw, bh, time as int, st0, 0)
                == bullets_scored(bs0, asts0, delta as int, bw, bh, time as int, st, i as int),
            gs.player == old(gs).player,
            gs.run_state == old(gs).run_state,
            gs.lives == old(gs).lives,
            gs.scl == old(gs).scl,
            gs.bounds == old(gs).bounds,
            gs.background == old(gs).background,
            gs.exhaust == old(gs).exhaust,
            gs.explosions == old(gs).explosions,
            gs.debug == old(gs).debug,
            gs.play_time == old(gs).play_time,
        decreases nb - i,
    {
        let b = gs.bullets[i];
        proof {
            lemma_mul_bound(b.vel.x as int, delta as int, VEL_LIMIT as int, DELTA_LIMIT as int);
            lemma_mul_bound(b.vel.y as int, delta as int, VEL_LIMIT as int, DELTA_LIMIT as int);
            lemma_div_tz_bound(b.vel.x as int * delta as int, 1000, 0x800_0000_0000);
            lemma_div_tz_bound(b.vel.y as int * delta as int, 1000, 0x800_0000_0000);
        }
        let np = wrap(
            Vec2 { x: b.pos.x + b.vel.x * delta / 1000, y: b.pos.y + b.vel.y * delta / 1000 },
            BULLET_WIDTH,
            BULLET_WIDTH,
            bw,
            bh,
        );
        proof {
            assert(np == bullet_moved(bs0[i as int], delta as int, bw, bh).pos);
        }
        let mut hit_k: usize = na;
        if b.collision {
            if na > 0 {
                hit_k = 0;
            }
        } else {
            let mut k: usize = 0;
            while k < na
                invariant
                    gs.wf(),
                    na == asts0.len(),
                    gs.asteroids@.len() == na,
                    0 <= k <= na,
                    b.pos.norm_le(POS_LIMIT as int),
                    np.norm_le(POS_LIMIT as int),
                    forall|k2: int|
                        0 <= k2 < na ==> gs.asteroids@[k2] == (Asteroid {
                            collision: st.hits[k2],
                            ..asts0[k2]
                        }),
                    hit_k == na || (0 <= hit_k < na && hit_k < k),
                    hit_k == na ==> first_hit_index(b.pos, np, asts0, 0) == first_hit_index(
                        b.pos,
                        np,
                        asts0,
                        k as int,
                    ),
                    hit_k < na ==> first_hit_index(b.pos, np, asts0, 0) == hit_k,
                decreases na - k,
            {
                if hit_k == na {
                    let poly = gs.asteroids[k].points();
                    let plen = poly.len();
                    let mut j: usize = 0;
                    let mut edge_hit = false;
                    while j < plen
                        invariant
                            0 <= j <= plen,
                            poly@.len() == plen,
                            plen >= 3,
                            b.pos.norm_le(POS_LIMIT as int),
                            np.norm_le(POS_LIMIT as int),
                            forall|t: int|
                                0 <= t < poly@.len() ==> (#[trigger] poly@[t]).norm_le(
                                    0x800_8000_0000,
                                ),
                            edge_hit == (exists|j2: int|
                                0 <= j2 < j && #[trigger] intersects_spec(
                                    b.pos,
                                    np,
                                    poly@[j2],
                                    poly@[(j2 + 1) % (plen as int)],
                                )),
                        decreases plen - j,
                    {
                        if intersects(b.pos, np, poly[j], poly[(j + 1) % plen]) {
                            edge_hit = true;
                        }
                        j = j + 1;
                    }
                    proof {
                        lemma_world_points_flag_indep(gs.asteroids@[k as int], asts0[k as int]);
                        assert(edge_hit == seg_hits_poly(b.pos, np, asts0[k as int].world_points()));
                        if !edge_hit {
                            lemma_first_hit_skip(b.pos, np, asts0, k as int);
                        }
                    }
                    if edge_hit {
                        hit_k = k;
                    }
                }
                k = k + 1;
            }
        }
        proof {
            assert(hit_k < na || hit_k == na);
            if b.collision {
                assert(effective_hit(bs0[i as int], np, asts0) == (if na > 0 { 0int } else { -1int }));
            } else {
                assert(effective_hit(bs0[i as int], np, asts0) == first_hit_index(b.pos, np, asts0, 0));
            }
        }
        gs.bullets[i] = Bullet { pos: np, collision: hit_k < na, ..b };
        if hit_k < na {
            if gs.combo < COMBO_LIMIT {
                gs.combo = gs.combo + 1;
            }
            if gs.combo % 5 == 0 && gs.score_multiplier < MULT_LIMIT {
                gs.score_multiplier = gs.score_multiplier + 1;
            }
            let size = gs.asteroids[hit_k].size;
            proof {
                lemma_mul_bound(
                    SCORE_BASE as int * size as int,
                    gs.score_multiplier as int,
                    48,
                    MULT_LIMIT as int,
                );
                assert(SCORE_BASE as int * size as int * gs.score_multiplier as int >= 0)
                    by (nonlinear_arith)
                    requires
                        1 <= size as int <= 3,
                        1 <= gs.score_multiplier as int,
                        SCORE_BASE == 16,
                ;
            }
            let award = SCORE_BASE * size * gs.score_multiplier;
            if gs.score <= SCORE_LIMIT - award {
                gs.score = gs.score + award;
            } else {
                gs.score = SCORE_LIMIT;
            }
            gs.combo_time = COMBO_TIMER;
            gs.asteroids[hit_k].collision = true;
            gs.flying_points.push(
                FlyingPoint {
                    pos: np,
                    vel: Vec2 { x: b.vel.x / 2, y: b.vel.y / 2 },
                    val: award,
                    created_at: time,
                },
            );
            proof {
                let st_prev = st;
                st = hit_step(
                    st_prev,
                    asts0[hit_k as int].size as int,
                    np,
                    half_vel(bs0[i as int].vel),
                    time as int,
                    hit_k as int,
                );
                assert(gs.combo == st.combo);
                assert(gs.score_multiplier == st.mult);
                assert(gs.score == st.score);
                assert(gs.flying_points@ == st.flying);
                assert forall|k2: int| 0 <= k2 < na implies gs.asteroids@[k2] == (Asteroid {
                    collision: st.hits[k2],
                    ..asts0[k2]
                }) by {
                }
                assert(bullets_scored(bs0, asts0, delta as int, bw, bh, time as int, st_prev, i as int)
                    == bullets_scored(bs0, asts0, delta as int, bw, bh, time as int, st, i as int + 1));
            }
        } else {
            proof {
                assert(bullets_scored(bs0, asts0, delta as int, bw, bh, time as int, st, i as int)
                    == bullets_scored(bs0, asts0, delta as int, bw, bh, time as int, st, i as int + 1));
            }
        }
        proof {
            assert(gs.bullets@[i as int] == bullet_processed(bs0[i as int], asts0, delta as int, bw, bh));
        }
        i = i + 1;
    }
}


/// A bullet survives the frame while it is younger than its lifetime and
/// has not collided.
pub open spec fn bullet_keep(b: Bullet, time: int) -> bool {
    time - b.created_at < BULLET_LIVE_TIME && !b.collision
}

/// A flying score readout survives while younger than its lifetime.
pub open spec fn flying_keep(f: FlyingPoint, time: int) -> bool {
    time - f.created_at < FLYING_POINT_LIVE_TIME
}

/// An explosion effect survives while younger than its lifetime.
pub open spec fn explosion_keep(e: Explosion, time: int) -> bool {
    time - e.created_at < EXPLOSION_LIVE_TIME
}

/// Relation of the pruning step: expired or collided bullets and expired
/// flying readouts removed, in order; everything else unchanged.
pub open spec fn pruned_rel(pre: GameState, post: GameState, time: int) -> bool {
    &&& post.bullets@ == pre.bullets@.filter(|b: Bullet| bullet_keep(b, time))
    &&& post.flying_points@ == pre.flying_points@.filter(|f: FlyingPoint| flying_keep(f, time))
    &&& post == (GameState { bullets: post.bullets, flying_points: post.flying_points, ..pre })
}

/// Remove bullets past their lifetime or flagged by a collision, and
/// flying readouts past their lifetime.
fn prune_bullets_flying(gs: &mut GameState, time: i64)
    requires
        old(gs).wf(),
        0 <= time <= TIME_LIMIT,
    ensures
        final(gs).wf(),
        pruned_rel(*old(gs), *final(gs), time as int),
{
    let ghost bkeep = |b: Bullet| bullet_keep(b, time as int);
    let n = gs.bullets.len();
    let mut out: Vec<Bullet> = Vec::new();
    let mut i: usize = 0;
    while i < n
        invariant
            old(gs).wf(),
            0 <= time <= TIME_LIMIT,
            n == old(gs).bullets@.len(),
            *gs == *old(gs),
            0 <= i <= n,
            bkeep == (|b: Bullet| bullet_keep(b, time as int)),
            out@ == old(gs).bullets@.take(i as int).filter(bkeep),
            forall|t: int| 0 <= t < out@.len() ==> (#[trigger] out@[t]).wf(),
        decreases n - i,
    {
        let b = gs.bullets[i];
        proof {
            assert(old(gs).bullets@.take(i as int + 1) =~= old(gs).bullets@.take(i as int).push(b));
            crate::utils::lemma_filter_push(old(gs).bullets@.take(i as int), b, bkeep);
        }
        if time - b.created_at < BULLET_LIVE_TIME && !b.collision {
            out.push(b);
        }
        i = i + 1;
    }
    proof {
        assert(old(gs).bullets@.take(n as int) =~= old(gs).bullets@);
    }
    gs.bullets = out;
    let ghost fkeep = |f: FlyingPoint| flying_keep(f, time as int);
    let m = gs.flying_points.len();
    let mut fout: Vec<FlyingPoint> = Vec::new();
    let mut j: usize = 0;
    while j < m
        invariant
            old(gs).wf(),
            0 <= time <= TIME_LIMIT,
            m == old(gs).flying_points@.len(),
            gs.flying_points@ == old(gs).flying_points@,
            gs.bullets@ == old(gs).bullets@.filter(|b: Bullet| bullet_keep(b, time as int)),
            forall|t: int| 0 <= t < gs.bullets@.len() ==> (#[trigger] gs.bullets@[t]).wf(),
            *gs == (GameState { bullets: gs.bullets, ..*old(gs) }),
            0 <= j <= m,
            fkeep == (|f: FlyingPoint| flying_keep(f, time as int)),
            fout@ == old(gs).flying_points@.take(j as int).filter(fkeep),
            forall|t: int| 0 <= t < fout@.len() ==> (#[trigger] fout@[t]).wf(),
        decreases m - j,
    {
        let f = gs.flying_points[j];
        proof {
            assert(old(gs).flying_points@.take(j as int + 1) =~= old(gs).flying_points@.take(
                j as int,
            ).push(f));
            crate::utils::lemma_filter_push(old(gs).flying_points@.take(j as int), f, fkeep);
        }
        if time - f.created_at < FLYING_POINT_LIVE_TIME {
            fout.push(f);
        }
        j = j + 1;
    }
    proof {
        assert(old(gs).flying_points@.take(m as int) =~= old(gs).flying_points@);
    }
    gs.flying_points = fout;
}

/// An asteroid survives the frame unless its collision flag was set.
pub open spec fn asteroid_keep(a: Asteroid) -> bool {
    !a.collision
}

/// The explosion effect a destroyed asteroid leaves behind.
pub open spec fn explosion_of(a: Asteroid, time: int) -> Explosion {
    Explosion {
        pos: Vec2 {
            x: (a.pos.x - div_tz(a.w as int, 2)) as i64,
            y: (a.pos.y - div_tz(a.w as int, 2)) as i64,
        },
        width: div_tz(a.w as int * 3, 4) as i64,
        size: a.size,
        created_at: time as i64,
    }
}

/// The sound a destroyed asteroid of the given size class signals.
pub open spec fn sound_of(size: int) -> GameSound {
    if size == 3 {
        GameSound::ExplosionLarge
    } else if size == 2 {
        GameSound::ExplosionMedium
    } else {
        GameSound::ExplosionSmall
    }
}

/// What fragmentation owes for one asteroid: a destroyed parent of class
/// above the minimum yields exactly `size` children of class `size - 1`
/// spawned around it; a destroyed minimum-class parent, or a survivor,
/// yields none.
pub open spec fn batch_ok(parent: Asteroid, batch: Seq<Asteroid>) -> bool {
    if parent.collision && parent.size > 1 {
        &&& batch.len() == parent.size
        &&& (forall|t: int|
            0 <= t < batch.len() ==> {
                &&& (#[trigger] batch[t]).wf()
                &&& batch[t].size == parent.size - 1
                &&& !batch[t].collision
                &&& batch[t].points@.len() == 8
                &&& parent.pos.x - div_tz(parent.w as int, 4) <= batch[t].pos.x <= parent.pos.x
                    + div_tz(parent.w as int, 4)
                &&& parent.pos.y - div_tz(parent.w as int, 4) <= batch[t].pos.y <= parent.pos.y
                    + div_tz(parent.w as int, 4)
            })
    } else {
        batch.len() == 0
    }
}

/// Relation of the fragmentation step: destroyed asteroids are replaced
/// by their child batches (appended after the survivors, in parent
/// order), each leaves one explosion and one sound event; everything else
/// unchanged.
pub open spec fn fragmented_rel(pre: GameState, post: GameState, events: Seq<GameSound>, time: int) -> bool {
    &&& (exists|batches: Seq<Seq<Asteroid>>|
        {
            &&& #[trigger] batches.len() == pre.asteroids@.len()
            &&& (forall|k: int| 0 <= k < batches.len() ==> batch_ok(pre.asteroids@[k], batches[k]))
            &&& post.asteroids@ == pre.asteroids@.filter(|a: Asteroid| asteroid_keep(a))
                + batches.flatten()
        })
    &&& post.explosions@ == pre.explosions@ + pre.asteroids@.filter(
        |a: Asteroid| !asteroid_keep(a),
    ).map_values(|a: Asteroid| explosion_of(a, time))
    &&& events == pre.asteroids@.filter(|a: Asteroid| !asteroid_keep(a)).map_values(
        |a: Asteroid| sound_of(a.size as int),
    )
    &&& post == (GameState { asteroids: post.asteroids, explosions: post.explosions, ..pre })
}

/// Destroy the flagged asteroids: each leaves an explosion and a sound
/// event, and one of class above the minimum fragments into `size`
/// children of class `size - 1` on a ring of a quarter of its width.
#[verifier::rlimit(100)]
fn fragment_asteroids(gs: &mut GameState, time: i64) -> (events: Vec<GameSound>)
    requires
        old(gs).wf(),
        0 <= time <= TIME_LIMIT,
        forall|k: int|
            0 <= k < old(gs).asteroids@.len() ==> (#[trigger] old(gs).asteroids@[k].pos).norm_le(
                2 * BOUND_LIMIT as int,
            ),
    ensures
        final(gs).wf(),
        fragmented_rel(*old(gs), *final(gs), events@, time as int),
{
    let ghost orig = gs.asteroids@;
    let ghost akeep = |a: Asteroid| asteroid_keep(a);
    let ghost agone = |a: Asteroid| !asteroid_keep(a);
    let ghost explode = |a: Asteroid| explosion_of(a, time as int);
    let ghost soundof = |a: Asteroid| sound_of(a.size as int);
    let mut src: Vec<Asteroid> = Vec::new();
    core::mem::swap(&mut src, &mut gs.asteroids);
    let mut survivors: Vec<Asteroid> = Vec::new();
    let mut children: Vec<Asteroid> = Vec::new();
    let mut events: Vec<GameSound> = Vec::new();
    let ghost mut batches: Seq<Seq<Asteroid>> = Seq::empty();
    let n = src.len();
    let mut i: usize = 0;
    while i < n
        invariant
            old(gs).wf(),
            0 <= time <= TIME_LIMIT,
            orig == old(gs).asteroids@,
            n == orig.len(),
            forall|k: int| 0 <= k < n ==> (#[trigger] orig[k]).wf(),
            forall|k: int| 0 <= k < n ==> (#[trigger] orig[k].pos).norm_le(2 * BOUND_LIMIT as int),
            0 <= i <= n,
            src@ == orig.skip(i as int),
            akeep == (|a: Asteroid| asteroid_keep(a)),
            agone == (|a: Asteroid| !asteroid_keep(a)),
            explode == (|a: Asteroid| explosion_of(a, time as int)),
            soundof == (|a: Asteroid| sound_of(a.size as int)),
            survivors@ == orig.take(i as int).filter(akeep),
            batches.len() == i,
            forall|k: int| 0 <= k < i ==> batch_ok(orig[k], #[trigger] batches[k]),
            children@ == batches.flatten(),
            gs.explosions@ == old(gs).explosions@ + orig.take(i as int).filter(agone).map_values(
                explode,
            ),
            events@ == orig.take(i as int).filter(agone).map_values(soundof),
            forall|t: int| 0 <= t < survivors@.len() ==> (#[trigger] survivors@[t]).wf(),
            forall|t: int| 0 <= t < children@.len() ==> (#[trigger] children@[t]).wf(),
            forall|t: int| 0 <= t < gs.explosions@.len() ==> (#[trigger] gs.explosions@[t]).wf(),
            gs.asteroids@.len() == 0,
            *gs == (GameState { asteroids: gs.asteroids, explosions: gs.explosions, ..*old(gs) }),
        decreases n - i,
    {
        let a = src.remove(0);
        proof {
            assert(a == orig[i as int]);
            assert(src@ =~= orig.skip(i as int + 1));
            assert(orig.take(i as int + 1) =~= orig.take(i as int).push(a));
            crate::utils::lemma_filter_push(orig.take(i as int), a, akeep);
            crate::utils::lemma_filter_push(orig.take(i as int), a, agone);
            assert(orig.take(i as int).filter(agone).push(a).map_values(explode) =~= orig.take(
                i as int,
            ).filter(agone).map_values(explode).push(explosion_of(a, time as int)));
            assert(orig.take(i as int).filter(agone).push(a).map_values(soundof) =~= orig.take(
                i as int,
            ).filter(agone).map_values(soundof).push(sound_of(a.size as int)));
        }
        if a.collision {
            proof {
                lemma_div_tz_bound(a.w as int, 2, BOUND_LIMIT as int);
                lemma_div_tz_bound(a.w as int * 3, 4, BOUND_LIMIT as int);
                lemma_div_tz_bound(a.w as int, 4, BOUND_LIMIT as int);
            }
            gs.explosions.push(
                Explosion {
                    pos: Vec2 { x: a.pos.x - a.w / 2, y: a.pos.y - a.w / 2 },
                    width: a.w * 3 / 4,
                    size: a.size,
                    created_at: time,
                },
            );
            let snd = if a.size == 3 {
                GameSound::ExplosionLarge
            } else if a.size == 2 {
                GameSound::ExplosionMedium
            } else {
                GameSound::ExplosionSmall
            };
            events.push(snd);
            if a.size > 1 {
                let mut batch = crate::spawner::asteroids(
                    a.pos,
                    a.w / 4,
                    a.size,
                    a.size - 1,
                    gs.scl,
                );
                proof {
                    let batches_before = batches;
                    batches = batches.push(batch@);
                    batches_before.lemma_flatten_push(batch@);
                }
                children.append(&mut batch);
            } else {
                proof {
                    let batches_before = batches;
                    batches = batches.push(Seq::empty());
                    batches_before.lemma_flatten_push(Seq::empty());
                    assert(children@ =~= batches.flatten());
                }
            }
        } else {
            survivors.push(a);
            proof {
                let batches_before = batches;
                batches = batches.push(Seq::empty());
                batches_before.lemma_flatten_push(Seq::empty());
                assert(children@ =~= batches.flatten());
            }
        }
        i = i + 1;
    }
    proof {
        assert(orig.take(n as int) =~= orig);
        assert(orig.skip(n as int) =~= Seq::<Asteroid>::empty());
    }
    let mut new_asts = survivors;
    new_asts.append(&mut children);
    gs.asteroids = new_asts;
    proof {
        assert(gs.asteroids@ == orig.filter(akeep) + batches.flatten());
    }
    events
}


/// Relation of the closing steps: expired explosions removed, the stage
/// completes when no asteroids remain, and the player is wrapped back
/// into bounds; everything else unchanged.
pub open spec fn finished_rel(pre: GameState, post: GameState, time: int) -> bool {
    &&& post.explosions@ == pre.explosions@.filter(|e: Explosion| explosion_keep(e, time))
    &&& post.run_state == (if pre.asteroids@.len() == 0 {
        RunState::StageComplete
    } else {
        pre.run_state
    })
    &&& post.player == (Spaceship {
        pos: wrap_spec(pre.player.pos, pre.player.w, pre.player.h, pre.bounds.x, pre.bounds.y),
        ..pre.player
    })
    &&& post == (GameState {
        explosions: post.explosions,
        run_state: post.run_state,
        player: post.player,
        ..pre
    })
}

/// Prune expired explosions, complete the stage when the field is empty,
/// and wrap the player's position.
fn finish_frame(gs: &mut GameState, time: i64)
    requires
        old(gs).wf(),
        0 <= time <= TIME_LIMIT,
    ensures
        final(gs).wf(),
        finished_rel(*old(gs), *final(gs), time as int),
{
    let ghost ekeep = |e: Explosion| explosion_keep(e, time as int);
    let n = gs.explosions.len();
    let mut out: Vec<Explosion> = Vec::new();
    let mut i: usize = 0;
    while i < n
        invariant
            old(gs).wf(),
            0 <= time <= TIME_LIMIT,
            n == old(gs).explosions@.len(),
            *gs == *old(gs),
            0 <= i <= n,
            ekeep == (|e: Explosion| explosion_keep(e, time as int)),
            out@ == old(gs).explosions@.take(i as int).filter(ekeep),
            forall|t: int| 0 <= t < out@.len() ==> (#[trigger] out@[t]).wf(),
        decreases n - i,
    {
        let e = gs.explosions[i];
        proof {
            assert(old(gs).explosions@.take(i as int + 1) =~= old(gs).explosions@.take(
                i as int,
            ).push(e));
            crate::utils::lemma_filter_push(old(gs).explosions@.take(i as int), e, ekeep);
        }
        if time - e.created_at < EXPLOSION_LIVE_TIME {
            out.push(e);
        }
        i = i + 1;
    }
    proof {
        assert(old(gs).explosions@.take(n as int) =~= old(gs).explosions@);
    }
    gs.explosions = out;
    if gs.asteroids.len() == 0 {
        gs.run_state = RunState::StageComplete;
    }
    gs.player.pos = wrap(gs.player.pos, gs.player.w, gs.player.h, gs.bounds.x, gs.bounds.y);
}

/// The run states the engine simulates; the menu is inert.
pub open spec fn simulated(rs: RunState) -> bool {
    rs == RunState::Running || rs == RunState::Death || rs == RunState::StageComplete
}

/// The whole frame relation: the deterministic opening steps (time/combo
/// accounting and player integration) followed by the asteroid, particle,
/// bullet, pruning, fragmentation and closing relations, chained through
/// the intermediate states of the frame.
pub open spec fn frame_rel(pre: GameState, post: GameState, events: Seq<GameSound>, delta: int, time: int) -> bool {
    exists|g3: GameState, g4: GameState, g5: GameState, g6: GameState, g7: GameState|
        {
            &&& asteroids_moved_rel(integrated_state(pre, delta), g3, delta)
            &&& #[trigger] particles_aged_rel(g3, g4, delta, time)
            &&& #[trigger] bullets_scored_rel(g4, g5, delta, time)
            &&& #[trigger] pruned_rel(g5, g6, time)
            &&& #[trigger] fragmented_rel(g6, g7, events, time)
            &&& finished_rel(g7, post, time)
        }
}

/// One frame of the simulation: in a simulated run state, account time
/// and the combo window, integrate the player, move and spin the
/// asteroids and resolve a player collision, age the particles, move the
/// bullets and score their hits, prune the expired, fragment the
/// destroyed asteroids, complete the stage when the field is empty, and
/// wrap the player. Returns the frame's sound events (one per destroyed
/// asteroid, by size class). The menu and any other state are untouched.
pub fn update(gs: &mut GameState, delta: i64, time: i64) -> (events: Vec<GameSound>)
    requires
        old(gs).wf(),
        0 <= delta <= DELTA_LIMIT,
        0 <= time <= TIME_LIMIT,
    ensures
        final(gs).wf(),
        !simulated(old(gs).run_state) ==> *final(gs) == *old(gs) && events@ == Seq::<
            GameSound,
        >::empty(),
        simulated(old(gs).run_state) ==> frame_rel(
            *old(gs),
            *final(gs),
            events@,
            delta as int,
            time as int,
        ),
{
    let is_simulated = match gs.run_state {
        RunState::Running => true,
        RunState::Death => true,
        RunState::StageComplete => true,
        RunState::Menu => false,
    };
    if !is_simulated {
        let events: Vec<GameSound> = Vec::new();
        return events;
    }
    step_time_combo(gs, delta);
    integrate_player(gs, delta);
    proof {
        assert(*gs == integrated_state(*old(gs), delta as int));
    }
    move_asteroids(gs, delta);
    let ghost g3 = *gs;
    age_particles(gs, delta, time);
    let ghost g4 = *gs;
    move_bullets(gs, delta, time);
    let ghost g5 = *gs;
    prune_bullets_flying(gs, time);
    let ghost g6 = *gs;
    proof {
        assert forall|k: int|
            0 <= k < gs.asteroids@.len() implies (#[trigger] gs.asteroids@[k].pos).norm_le(
            2 * BOUND_LIMIT as int,
        ) by {
            let pre3 = integrated_state(*old(gs), delta as int);
            assert(g3.asteroids@[k] == asteroid_moved(
                pre3.asteroids@[k],
                delta as int,
                pre3.bounds.x,
                pre3.bounds.y,
            ));
            assert(gs.asteroids@[k].pos == g3.asteroids@[k].pos);
        }
    }
    let events = fragment_asteroids(gs, time);
    let ghost g7 = *gs;
    finish_frame(gs, time);
    proof {
        assert(asteroids_moved_rel(integrated_state(*old(gs), delta as int), g3, delta as int));
        assert(particles_aged_rel(g3, g4, delta as int, time as int));
        assert(bullets_scored_rel(g4, g5, delta as int, time as int));
        assert(pruned_rel(g5, g6, time as int));
        assert(fragmented_rel(g6, g7, events@, time as int));
        assert(finished_rel(g7, *gs, time as int));
    }
    events
}


/// Score accounting law: away from the model's caps, one hit on an
/// asteroid of class `size` grows the combo by exactly one, raises the
/// multiplier by one exactly on every fifth consecutive hit, and awards
/// exactly `SCORE_BASE * size * multiplier` points at the multiplier in
/// effect after the hit.
pub proof fn lemma_score_award(st: ScoreState, size: int, fp_pos: Vec2, fp_vel: Vec2, time: int, k: int)
    requires
        0 <= st.combo < COMBO_LIMIT,
        1 <= st.mult < MULT_LIMIT,
        0 <= st.score,
        1 <= size <= 3,
        st.score + SCORE_BASE * size * (st.mult + 1) <= SCORE_LIMIT,
    ensures
        hit_step(st, size, fp_pos, fp_vel, time, k).combo == st.combo + 1,
        hit_step(st, size, fp_pos, fp_vel, time, k).mult == (if (st.combo + 1) % 5 == 0 {
            st.mult + 1
        } else {
            st.mult
        }),
        hit_step(st, size, fp_pos, fp_vel, time, k).score == st.score + SCORE_BASE * size
            * hit_step(st, size, fp_pos, fp_vel, time, k).mult,
        hit_step(st, size, fp_pos, fp_vel, time, k).combo_time == COMBO_TIMER,
{
    let post = hit_step(st, size, fp_pos, fp_vel, time, k);
    vstd::arithmetic::mul::lemma_mul_inequality(post.mult, st.mult + 1, SCORE_BASE * size);
    vstd::arithmetic::mul::lemma_mul_is_commutative(SCORE_BASE * size, post.mult);
    vstd::arithmetic::mul::lemma_mul_is_commutative(SCORE_BASE * size, st.mult + 1);
    assert(SCORE_BASE * size * post.mult >= 0) by (nonlinear_arith)
        requires
            1 <= size,
            1 <= post.mult,
            SCORE_BASE == 16,
    ;
}

/// Fragmentation law: when exactly one asteroid of the field is
/// destroyed, the survivors are the rest in order; a destroyed parent of
/// class above the minimum appends exactly `size` children of class
/// `size - 1`, and a destroyed minimum-class parent appends none. (With
/// several asteroids destroyed at once the same holds per parent, as
/// `batch_ok` in the fragmentation relation states.)
pub proof fn lemma_fragmentation_invariant(
    pre: GameState,
    post: GameState,
    events: Seq<GameSound>,
    time: int,
    k: int,
)
    requires
        fragmented_rel(pre, post, events, time),
        0 <= k < pre.asteroids@.len(),
        pre.asteroids@[k].collision,
        forall|j: int|
            0 <= j < pre.asteroids@.len() && j != k ==> !(#[trigger] pre.asteroids@[j]).collision,
    ensures
        pre.asteroids@[k].size > 1 ==> post.asteroids@.len() == pre.asteroids@.len() - 1
            + pre.asteroids@[k].size,
        pre.asteroids@[k].size > 1 ==> forall|t: int|
            pre.asteroids@.len() - 1 <= t < post.asteroids@.len()
                ==> (#[trigger] post.asteroids@[t]).size == pre.asteroids@[k].size - 1
                    && !post.asteroids@[t].collision,
        pre.asteroids@[k].size == 1 ==> post.asteroids@.len() == pre.asteroids@.len() - 1,
        forall|t: int|
            0 <= t < pre.asteroids@.len() - 1 ==> #[trigger] post.asteroids@[t]
                == pre.asteroids@.remove(k)[t],
{
    let batches = choose|batches: Seq<Seq<Asteroid>>|
        {
            &&& #[trigger] batches.len() == pre.asteroids@.len()
            &&& (forall|j: int| 0 <= j < batches.len() ==> batch_ok(pre.asteroids@[j], batches[j]))
            &&& post.asteroids@ == pre.asteroids@.filter(|a: Asteroid| asteroid_keep(a))
                + batches.flatten()
        };
    assert(batch_ok(pre.asteroids@[k], batches[k]));
    let keep = |a: Asteroid| asteroid_keep(a);
    assert(!keep(pre.asteroids@[k]));
    assert forall|j: int|
        0 <= j < pre.asteroids@.len() && j != k implies keep(#[trigger] pre.asteroids@[j]) by {
        assert(!pre.asteroids@[j].collision);
    }
    crate::utils::lemma_filter_except_one(pre.asteroids@, keep, k);
    assert forall|j: int| 0 <= j < batches.len() && j != k implies (#[trigger] batches[j]).len()
        == 0 by {
        assert(batch_ok(pre.asteroids@[j], batches[j]));
    }
    if pre.asteroids@[k].size > 1 {
        crate::utils::lemma_flatten_single_nonempty(batches, k);
    } else {
        crate::utils::lemma_flatten_all_empty(batches);
    }
}


/// Collision-transition law, extracted from the frame relation: one frame
/// loses at most one life; a life is lost only from a running state with
/// lives remaining; losing a life with more than one left respawns the
/// ship (velocity and heading zeroed) into the death phase (or straight
/// to a completed stage if the field emptied the same frame); losing the
/// last life ends the stage.
pub proof fn lemma_life_loss(pre: GameState, post: GameState, events: Seq<GameSound>, delta: int, time: int)
    requires
        pre.wf(),
        frame_rel(pre, post, events, delta, time),
    ensures
        post.lives == pre.lives || post.lives == pre.lives - 1,
        post.lives != pre.lives ==> pre.run_state == RunState::Running && pre.lives > 0,
        post.lives != pre.lives && pre.lives > 1 ==> (post.run_state == RunState::Death
            || post.run_state == RunState::StageComplete) && post.player.vel == (Vec2 { x: 0, y: 0 })
            && post.player.angle == 0,
        post.lives != pre.lives && pre.lives == 1 ==> post.run_state == RunState::StageComplete,
{
    let (g3, g4, g5, g6, g7) = choose|g3: GameState, g4: GameState, g5: GameState, g6: GameState, g7: GameState|
        {
            &&& asteroids_moved_rel(integrated_state(pre, delta), g3, delta)
            &&& #[trigger] particles_aged_rel(g3, g4, delta, time)
            &&& #[trigger] bullets_scored_rel(g4, g5, delta, time)
            &&& #[trigger] pruned_rel(g5, g6, time)
            &&& #[trigger] fragmented_rel(g6, g7, events, time)
            &&& finished_rel(g7, post, time)
        };
    let pre2 = integrated_state(pre, delta);
    assert(pre2.lives == pre.lives);
    assert(pre2.run_state == pre.run_state);
    assert(g4.lives == g3.lives && g4.run_state == g3.run_state && g4.player == g3.player);
    assert(g5.lives == g4.lives && g5.run_state == g4.run_state && g5.player == g4.player);
    assert(g6.lives == g5.lives && g6.run_state == g5.run_state && g6.player == g5.player);
    assert(g7.lives == g6.lives && g7.run_state == g6.run_state && g7.player == g6.player);
    assert(post.lives == g7.lives);
    assert(post.player.vel == g7.player.vel && post.player.angle == g7.player.angle);
    let pts = pre2.player.points_spec(pre2.scl as int);
    let hit = pre2.run_state == RunState::Running && player_hit_any(pts, g3.asteroids@);
    if hit {
        assert(g3.lives == (if pre.lives > 0 {
            pre.lives - 1
        } else {
            0int
        }));
        if pre.lives - 1 > 0 {
            assert(g3.run_state == RunState::Death);
            assert(g3.player.vel == (Vec2 { x: 0, y: 0 }) && g3.player.angle == 0);
        } else {
            assert(g3.run_state == RunState::StageComplete);
        }
    } else {
        assert(g3.lives == pre.lives);
        assert(g3.run_state == pre.run_state);
    }
    assert(post.lives == g3.lives);
}

} // verus!
