//! Input intent mapper: translates a per-frame snapshot of held keys into
//! angle steps, velocity increments, strafe flags, fire requests and the
//! restart transition. The host polls the keyboard and fills `InputFrame`;
//! only the effect on the simulation state lives here.

use vstd::prelude::*;

use crate::components::{
    fresh_state, Bullet, GameState, RunState, Spaceship, ANGLE_STEP, BULLET_VEL, DELTA_LIMIT,
    EXHAUST_COOLDOWN, EXHAUST_VEL, PLAYER_ACCL, POS_LIMIT, TIME_LIMIT, TURRET_COOLDOWN, VEL_LIMIT,
};
use crate::utils::{
    clamp, clamp_spec, cos_mdeg, cos_mdeg_spec, div_tz, sin_mdeg, sin_mdeg_spec, trig_mul,
    trig_mul_spec, Vec2,
};

verus! {

/// One frame's worth of intents. Movement and fire are level-triggered
/// (true while the key is held); the debug toggle is edge-triggered (true
/// only on the frame the key went down).
#[derive(Clone, Copy, PartialEq, Eq, Structural, Debug)]
pub struct InputFrame {
    pub left: bool,
    pub right: bool,
    pub up: bool,
    pub down: bool,
    pub strafe_left: bool,
    pub strafe_right: bool,
    pub fire: bool,
    pub debug_toggle: bool,
    pub restart: bool,
}

impl InputFrame {
    /// A frame with no keys held.
    pub fn none() -> (inp: InputFrame)
        ensures
            inp == (InputFrame {
                left: false,
                right: false,
                up: false,
                down: false,
                strafe_left: false,
                strafe_right: false,
                fire: false,
                debug_toggle: false,
                restart: false,
            }),
    {
        InputFrame {
            left: false,
            right: false,
            up: false,
            down: false,
            strafe_left: false,
            strafe_right: false,
            fire: false,
            debug_toggle: false,
            restart: false,
        }
    }
}

/// The ship's heading after the turn keys: a fixed step left, then a
/// fixed step right, each wrapped into a full turn of milli-degrees.
pub open spec fn angle_turned(angle: int, left: bool, right: bool) -> int {
    let a1 = if left {
        (angle + 360_000 - ANGLE_STEP) % 360_000
    } else {
        angle
    };
    if right {
        (a1 + ANGLE_STEP) % 360_000
    } else {
        a1
    }
}

/// Magnitude of one frame's acceleration along an axis.
pub open spec fn accel_step(delta: int) -> int {
    div_tz(PLAYER_ACCL * delta, 1000)
}

/// A velocity component changed by `dv` and kept inside the model's
/// velocity bound.
pub open spec fn vel_bumped(v: int, dv: int) -> int {
    clamp_spec(v + dv, -VEL_LIMIT as int, VEL_LIMIT as int)
}

/// The ship's velocity after the four acceleration intents, applied in
/// order (forward, back, strafe left, strafe right), each along or
/// perpendicular to the heading held at the start of the frame.
pub open spec fn vel_after_input(v: Vec2, s: int, c: int, inp: InputFrame, delta: int) -> Vec2 {
    let st = accel_step(delta);
    let v1 = if inp.up {
        Vec2 {
            x: vel_bumped(v.x as int, trig_mul_spec(s, st)) as i64,
            y: vel_bumped(v.y as int, -trig_mul_spec(c, st)) as i64,
        }
    } else {
        v
    };
    let v2 = if inp.down {
        Vec2 {
            x: vel_bumped(v1.x as int, -trig_mul_spec(s, st)) as i64,
            y: vel_bumped(v1.y as int, trig_mul_spec(c, st)) as i64,
        }
    } else {
        v1
    };
    let v3 = if inp.strafe_left {
        Vec2 {
            x: vel_bumped(v2.x as int, -trig_mul_spec(c, st)) as i64,
            y: vel_bumped(v2.y as int, -trig_mul_spec(s, st)) as i64,
        }
    } else {
        v2
    };
    if inp.strafe_right {
        Vec2 {
            x: vel_bumped(v3.x as int, trig_mul_spec(c, st)) as i64,
            y: vel_bumped(v3.y as int, trig_mul_spec(s, st)) as i64,
        }
    } else {
        v3
    }
}

/// The bullet a fire intent enqueues: at the ship's nose, flying at the
/// fixed bullet speed along the heading held at the start of the frame.
pub open spec fn fired_bullet(p: Spaceship, scl: int, s: int, c: int, time: int) -> Bullet {
    let sh = div_tz(p.h * scl, 1000);
    let sh2 = sh / 2;
    Bullet {
        pos: Vec2 {
            x: clamp_spec(p.pos.x + trig_mul_spec(s, sh2), -POS_LIMIT as int, POS_LIMIT as int) as i64,
            y: clamp_spec(p.pos.y - trig_mul_spec(c, sh2), -POS_LIMIT as int, POS_LIMIT as int) as i64,
        },
        created_at: time as i64,
        vel: Vec2 { x: trig_mul_spec(s, BULLET_VEL as int) as i64, y: -trig_mul_spec(
            c,
            BULLET_VEL as int,
        ) as i64 },
        collision: false,
    }
}

/// Whether this frame's fire intent passes the turret cooldown.
pub open spec fn fire_allowed(gs: GameState, inp: InputFrame, time: int) -> bool {
    inp.fire && time - gs.player.last_turret_frame > TURRET_COOLDOWN
}

/// Whether this frame restarts the session.
pub open spec fn restart_requested(gs: GameState, inp: InputFrame) -> bool {
    gs.run_state == RunState::StageComplete && inp.restart
}

/// Movement intents: turn, thrust (with exhaust), strafe. Leaves every
/// field but the player's angle/velocity/strafing/exhaust-cooldown and the
/// exhaust list unchanged.
#[verifier::rlimit(100)]
fn apply_movement(gs: &mut GameState, inp: &InputFrame, delta: i64, time: i64)
    requires
        old(gs).wf(),
        0 <= delta <= DELTA_LIMIT,
        0 <= time <= TIME_LIMIT,
    ensures
        final(gs).wf(),
        ({
            let s = sin_mdeg_spec(old(gs).player.angle as int);
            let c = cos_mdeg_spec(old(gs).player.angle as int);
            &&& final(gs).player.angle == angle_turned(
                old(gs).player.angle as int,
                inp.left,
                inp.right,
            )
            &&& final(gs).player.vel == vel_after_input(
                old(gs).player.vel,
                s,
                c,
                *inp,
                delta as int,
            )
            &&& final(gs).player.strafing == (inp.strafe_left, inp.strafe_right)
            &&& final(gs).player.pos == old(gs).player.pos
            &&& final(gs).player.w == old(gs).player.w
            &&& final(gs).player.h == old(gs).player.h
            &&& final(gs).player.last_turret_frame == old(gs).player.last_turret_frame
            &&& (if (inp.up || inp.down) && time - old(gs).player.last_exhaust_frame
                > EXHAUST_COOLDOWN {
                &&& final(gs).exhaust@.len() == old(gs).exhaust@.len() + 3
                &&& final(gs).exhaust@.subrange(0, old(gs).exhaust@.len() as int) == old(gs).exhaust@
                &&& final(gs).player.last_exhaust_frame == time
            } else {
                &&& final(gs).exhaust@ == old(gs).exhaust@
                &&& final(gs).player.last_exhaust_frame == old(gs).player.last_exhaust_frame
            })
            &&& final(gs).run_state == old(gs).run_state
            &&& final(gs).scl == old(gs).scl
            &&& final(gs).bounds == old(gs).bounds
            &&& final(gs).flying_points == old(gs).flying_points
            &&& final(gs).background == old(gs).background
            &&& final(gs).explosions == old(gs).explosions
            &&& final(gs).asteroids == old(gs).asteroids
            &&& final(gs).bullets == old(gs).bullets
            &&& final(gs).debug == old(gs).debug
            &&& final(gs).lives == old(gs).lives
            &&& final(gs).play_time == old(gs).play_time
            &&& final(gs).combo_time == old(gs).combo_time
            &&& final(gs).combo == old(gs).combo
            &&& final(gs).score_multiplier == old(gs).score_multiplier
            &&& final(gs).score == old(gs).score
        }),
{
    let rotation = gs.player.angle;
    let s = sin_mdeg(rotation);
    let c = cos_mdeg(rotation);
    proof {
        crate::utils::lemma_mul_bound(
            gs.player.h as int,
            gs.scl as int,
            crate::components::EXTENT_LIMIT as int,
            crate::components::SCALE_LIMIT as int,
        );
        crate::utils::lemma_div_tz_bound(gs.player.h as int * gs.scl as int, 1000, 0x8000_0000);
        crate::utils::lemma_mul_bound(
            PLAYER_ACCL as int,
            delta as int,
            PLAYER_ACCL as int,
            DELTA_LIMIT as int,
        );
        crate::utils::lemma_div_tz_bound(PLAYER_ACCL as int * delta as int, 1000, 0x2_0000_0000);
    }
    let sh = (gs.player.h * gs.scl) / 1000;
    let accl = (PLAYER_ACCL * delta) / 1000;
    gs.player.strafing = (false, false);
    if inp.left {
        gs.player.angle = (gs.player.angle + 360_000 - ANGLE_STEP) % 360_000;
    }
    if inp.right {
        gs.player.angle = (gs.player.angle + ANGLE_STEP) % 360_000;
    }
    proof {
        assert(gs.player.angle == angle_turned(old(gs).player.angle as int, inp.left, inp.right));
    }
    let ghost vel0 = gs.player.vel;
    let ghost st = accel_step(delta as int);
    if inp.up {
        gs.player.vel = Vec2 {
            x: clamp(gs.player.vel.x + trig_mul(s, accl), -VEL_LIMIT, VEL_LIMIT),
            y: clamp(gs.player.vel.y - trig_mul(c, accl), -VEL_LIMIT, VEL_LIMIT),
        };
        crate::spawner::exhaust_particles(gs, EXHAUST_VEL, rotation, sh, time);
    }
    let ghost vel1 = gs.player.vel;
    proof {
        assert(vel1 == (if inp.up {
            Vec2 {
                x: vel_bumped(vel0.x as int, trig_mul_spec(s as int, st)) as i64,
                y: vel_bumped(vel0.y as int, -trig_mul_spec(c as int, st)) as i64,
            }
        } else {
            vel0
        }));
    }
    if inp.down {
        gs.player.vel = Vec2 {
            x: clamp(gs.player.vel.x - trig_mul(s, accl), -VEL_LIMIT, VEL_LIMIT),
            y: clamp(gs.player.vel.y + trig_mul(c, accl), -VEL_LIMIT, VEL_LIMIT),
        };
        crate::spawner::exhaust_particles(gs, -EXHAUST_VEL, rotation, -(sh / 4), time);
    }
    let ghost vel2 = gs.player.vel;
    proof {
        assert(vel2 == (if inp.down {
            Vec2 {
                x: vel_bumped(vel1.x as int, -trig_mul_spec(s as int, st)) as i64,
                y: vel_bumped(vel1.y as int, trig_mul_spec(c as int, st)) as i64,
            }
        } else {
            vel1
        }));
    }
    if inp.strafe_left {
        gs.player.vel = Vec2 {
            x: clamp(gs.player.vel.x - trig_mul(c, accl), -VEL_LIMIT, VEL_LIMIT),
            y: clamp(gs.player.vel.y - trig_mul(s, accl), -VEL_LIMIT, VEL_LIMIT),
        };
        gs.player.strafing = (true, gs.player.strafing.1);
    }
    let ghost vel3 = gs.player.vel;
    proof {
        assert(vel3 == (if inp.strafe_left {
            Vec2 {
                x: vel_bumped(vel2.x as int, -trig_mul_spec(c as int, st)) as i64,
                y: vel_bumped(vel2.y as int, -trig_mul_spec(s as int, st)) as i64,
            }
        } else {
            vel2
        }));
    }
    if inp.strafe_right {
        gs.player.vel = Vec2 {
            x: clamp(gs.player.vel.x + trig_mul(c, accl), -VEL_LIMIT, VEL_LIMIT),
            y: clamp(gs.player.vel.y + trig_mul(s, accl), -VEL_LIMIT, VEL_LIMIT),
        };
        gs.player.strafing = (gs.player.strafing.0, true);
    }
    proof {
        assert(gs.player.vel == vel_after_input(vel0, s as int, c as int, *inp, delta as int));
        assert(gs.player.strafing == (inp.strafe_left, inp.strafe_right));
    }
}

/// A fire intent past the turret cooldown enqueues one bullet at the nose
/// and resets the cooldown clock; `s` and `c` are the sine/cosine of the
/// heading held at the start of the frame.
fn apply_fire(gs: &mut GameState, fire: bool, time: i64, s: i64, c: i64)
    requires
        old(gs).wf(),
        -1000 <= s <= 1000,
        -1000 <= c <= 1000,
        0 <= time <= TIME_LIMIT,
    ensures
        final(gs).wf(),
        (if fire && time - old(gs).player.last_turret_frame > TURRET_COOLDOWN {
            &&& final(gs).bullets@ == old(gs).bullets@.push(
                fired_bullet(old(gs).player, old(gs).scl as int, s as int, c as int, time as int),
            )
            &&& final(gs).player == (Spaceship { last_turret_frame: time, ..old(gs).player })
        } else {
            &&& final(gs).bullets@ == old(gs).bullets@
            &&& final(gs).player == old(gs).player
        }),
        final(gs).run_state == old(gs).run_state,
        final(gs).scl == old(gs).scl,
        final(gs).bounds == old(gs).bounds,
        final(gs).flying_points == old(gs).flying_points,
        final(gs).background == old(gs).background,
        final(gs).exhaust == old(gs).exhaust,
        final(gs).explosions == old(gs).explosions,
        final(gs).asteroids == old(gs).asteroids,
        final(gs).debug == old(gs).debug,
        final(gs).lives == old(gs).lives,
        final(gs).play_time == old(gs).play_time,
        final(gs).combo_time == old(gs).combo_time,
        final(gs).combo == old(gs).combo,
        final(gs).score_multiplier == old(gs).score_multiplier,
        final(gs).score == old(gs).score,
{
    if fire && time - gs.player.last_turret_frame > TURRET_COOLDOWN {
        proof {
            crate::utils::lemma_mul_bound(
                gs.player.h as int,
                gs.scl as int,
                crate::components::EXTENT_LIMIT as int,
                crate::components::SCALE_LIMIT as int,
            );
            crate::utils::lemma_div_tz_bound(gs.player.h as int * gs.scl as int, 1000, 0x8000_0000);
        }
        let sh = (gs.player.h * gs.scl) / 1000;
        gs.player.last_turret_frame = time;
        let b = Bullet {
            pos: Vec2 {
                x: clamp(gs.player.pos.x + trig_mul(s, sh / 2), -POS_LIMIT, POS_LIMIT),
                y: clamp(gs.player.pos.y - trig_mul(c, sh / 2), -POS_LIMIT, POS_LIMIT),
            },
            created_at: time,
            vel: Vec2 { x: trig_mul(s, BULLET_VEL), y: -(trig_mul(c, BULLET_VEL)) },
            collision: false,
        };
        gs.bullets.push(b);
    }
}

/// Apply one frame of input intents to the state. In the active phases
/// the turn keys step the heading, the thrust keys accelerate along the
/// frame-start heading (emitting exhaust, rate-limited), the strafe keys
/// accelerate sideways and set the strafe flags, a fire intent past the
/// turret cooldown enqueues one bullet, the debug key toggles the debug
/// readout, and on a completed stage a restart intent replaces the state
/// with a fresh session. In the death phase a fire intent resumes play.
#[verifier::rlimit(100)]
pub fn handle_input(gs: &mut GameState, inp: &InputFrame, delta: i64, time: i64, restore_seed: u64)
    requires
        old(gs).wf(),
        0 <= delta <= DELTA_LIMIT,
        0 <= time <= TIME_LIMIT,
    ensures
        final(gs).wf(),
        old(gs).run_state == RunState::Menu ==> *final(gs) == *old(gs),
        old(gs).run_state == RunState::Death ==> *final(gs) == (GameState {
            run_state: if inp.fire {
                RunState::Running
            } else {
                RunState::Death
            },
            ..*old(gs)
        }),
        (old(gs).run_state == RunState::Running || old(gs).run_state == RunState::StageComplete)
            ==> {
            let s = sin_mdeg_spec(old(gs).player.angle as int);
            let c = cos_mdeg_spec(old(gs).player.angle as int);
            if restart_requested(*old(gs), *inp) {
                fresh_state(*final(gs), old(gs).bounds.x, old(gs).bounds.y)
            } else {
                &&& final(gs).player.angle == angle_turned(
                    old(gs).player.angle as int,
                    inp.left,
                    inp.right,
                )
                &&& final(gs).player.vel == vel_after_input(
                    old(gs).player.vel,
                    s,
                    c,
                    *inp,
                    delta as int,
                )
                &&& final(gs).player.strafing == (inp.strafe_left, inp.strafe_right)
                &&& final(gs).player.pos == old(gs).player.pos
                &&& final(gs).player.w == old(gs).player.w
                &&& final(gs).player.h == old(gs).player.h
                &&& final(gs).debug == (if inp.debug_toggle {
                    !old(gs).debug
                } else {
                    old(gs).debug
                })
                &&& (if fire_allowed(*old(gs), *inp, time as int) {
                    &&& final(gs).bullets@ == old(gs).bullets@.push(
                        fired_bullet(old(gs).player, old(gs).scl as int, s, c, time as int),
                    )
                    &&& final(gs).player.last_turret_frame == time
                } else {
                    &&& final(gs).bullets@ == old(gs).bullets@
                    &&& final(gs).player.last_turret_frame == old(gs).player.last_turret_frame
                })
                &&& (if (inp.up || inp.down) && time - old(gs).player.last_exhaust_frame
                    > EXHAUST_COOLDOWN {
                    &&& final(gs).exhaust@.len() == old(gs).exhaust@.len() + 3
                    &&& final(gs).exhaust@.subrange(0, old(gs).exhaust@.len() as int) == old(
                        gs,
                    ).exhaust@
                    &&& final(gs).player.last_exhaust_frame == time
                } else {
                    &&& final(gs).exhaust@ == old(gs).exhaust@
                    &&& final(gs).player.last_exhaust_frame == old(gs).player.last_exhaust_frame
                })
                &&& final(gs).run_state == old(gs).run_state
                &&& final(gs).scl == old(gs).scl
                &&& final(gs).bounds == old(gs).bounds
                &&& final(gs).flying_points == old(gs).flying_points
                &&& final(gs).background == old(gs).background
                &&& final(gs).explosions == old(gs).explosions
                &&& final(gs).asteroids == old(gs).asteroids
                &&& final(gs).lives == old(gs).lives
                &&& final(gs).play_time == old(gs).play_time
                &&& final(gs).combo_time == old(gs).combo_time
                &&& final(gs).combo == old(gs).combo
                &&& final(gs).score_multiplier == old(gs).score_multiplier
                &&& final(gs).score == old(gs).score
            }
        },
{
    let is_running = match gs.run_state {
        RunState::Running => true,
        RunState::StageComplete => true,
        _ => false,
    };
    if is_running {
        if gs.run_state == RunState::StageComplete && inp.restart {
            *gs = crate::components::get_new_game_state(gs.bounds.x, gs.bounds.y, restore_seed);
            return ;
        }
        let s = sin_mdeg(gs.player.angle);
        let c = cos_mdeg(gs.player.angle);
        apply_movement(gs, inp, delta, time);
        apply_fire(gs, inp.fire, time, s, c);
        if inp.debug_toggle {
            gs.debug = !gs.debug;
        }
    } else if gs.run_state == RunState::Death {
        if inp.fire {
            gs.run_state = RunState::Running;
        }
    }
}

} // verus!
