//! Entity model: the spaceship, asteroids, bullets, particles and the
//! aggregate game state, together with the fixed design constants.
//!
//! Units: positions and velocities are in milli-pixels (and milli-pixels
//! per second), angles in milli-degrees, times in milliseconds, asteroid
//! size classes are plain integers (3 large, 2 medium, 1 small).

use vstd::prelude::*;

use crate::utils::{
    cos_mdeg_spec, div_tz, rotate_spec, sin_mdeg_spec, trig_mul, trig_mul_spec, Vec2,
};

verus! {

// Scale: milli-pixels per milli-unit numerator; screen height is 16 units.
pub const UNITS: i64 = 16;

// Dimensions, in milli-units unless said otherwise.
pub const SCREEN_WIDTH: i64 = 400_000;

pub const SCREEN_HEIGHT: i64 = 300_000;

pub const ASTEROID_MAX_SIZE: i64 = 3;

pub const PLAYER_WIDTH: i64 = 1000;

pub const PLAYER_HEIGHT: i64 = 1000;

pub const BULLET_WIDTH: i64 = 100;

// Velocities, in milli-pixels per second.
pub const GRAVITY_Y: i64 = 9_810;

pub const PLAYER_ACCL: i64 = 7_500;

pub const BULLET_VEL: i64 = 600_000;

pub const EXHAUST_VEL: i64 = 150_000;

pub const ASTEROID_VEL: i64 = 6_000;

pub const FRICT: i64 = 750;

pub const ANGLE_STEP: i64 = 4_000;

// Times, in milliseconds.
pub const BULLET_LIVE_TIME: i64 = 750;

pub const TURRET_COOLDOWN: i64 = 500;

pub const EXHAUST_COOLDOWN: i64 = 175;

pub const EXHAUST_LIVE_TIME: i64 = 2_000;

pub const EXPLOSION_LIVE_TIME: i64 = 333;

pub const FLYING_POINT_LIVE_TIME: i64 = 666;

pub const COMBO_TIMER: i64 = 3_000;

pub const MAX_PLAYER_LIVES: i64 = 3;

pub const SCORE_BASE: i64 = 16;

// Bounds of the model's finite world. Every quantity the simulation
// stores is kept inside these, so that each frame's arithmetic fits in
// an `i64` with room to spare.
pub const POS_LIMIT: i64 = 0x800_0000_0000;

pub const VEL_LIMIT: i64 = 0x1_0000_0000;

pub const TIME_LIMIT: i64 = 0x4000_0000_0000;

pub const DELTA_LIMIT: i64 = 1_000_000;

pub const BOUND_LIMIT: i64 = 0x100_0000;

pub const SCALE_LIMIT: i64 = 0x10_0000;

pub const EXTENT_LIMIT: i64 = 0x10_0000;

pub const PT_LIMIT: i64 = 0x4000_0000;

pub const COMBO_LIMIT: i64 = 0x1000_0000_0000;

pub const MULT_LIMIT: i64 = 0x1000_0000_0000;

pub const SCORE_LIMIT: i64 = 0x2000_0000_0000_0000;

/// Coarse session phase; only `Running`, `Death` and `StageComplete` are
/// simulated, and only `Running` takes input, scores and ages the clock.
#[derive(Clone, Copy, PartialEq, Eq, Structural, Debug)]
pub enum RunState {
    Menu,
    Running,
    Death,
    StageComplete,
}

/// Discrete audio events the simulation signals; the host maps them to
/// sound effects (a missing mapping is skipped, not an error).
#[derive(Clone, Copy, PartialEq, Eq, Structural, Debug)]
pub enum GameSound {
    Shot,
    ExplosionLarge,
    ExplosionMedium,
    ExplosionSmall,
    Death,
}

/// Score readout that drifts under gravity where an asteroid was hit.
#[derive(Clone, Copy, PartialEq, Eq, Structural, Debug)]
pub struct FlyingPoint {
    pub pos: Vec2,
    pub vel: Vec2,
    pub val: i64,
    pub created_at: i64,
}

impl FlyingPoint {
    pub open spec fn wf(self) -> bool {
        &&& self.pos.norm_le(POS_LIMIT as int)
        &&& self.vel.norm_le(VEL_LIMIT as int)
        &&& 0 <= self.val <= SCORE_LIMIT
        &&& 0 <= self.created_at <= TIME_LIMIT
    }
}

/// Visual effect left behind by a destroyed asteroid.
#[derive(Clone, Copy, PartialEq, Eq, Structural, Debug)]
pub struct Explosion {
    pub pos: Vec2,
    pub width: i64,
    pub size: i64,
    pub created_at: i64,
}

impl Explosion {
    pub open spec fn wf(self) -> bool {
        &&& self.pos.norm_le(POS_LIMIT as int)
        &&& 0 <= self.width <= BOUND_LIMIT
        &&& 1 <= self.size <= ASTEROID_MAX_SIZE
        &&& 0 <= self.created_at <= TIME_LIMIT
    }

    pub fn new(x: i64, y: i64, width: i64, size: i64, created_at: i64) -> (e: Explosion)
        ensures
            e == (Explosion { pos: Vec2 { x, y }, width, size, created_at }),
    {
        Explosion { pos: Vec2 { x, y }, width, size, created_at }
    }
}

/// Background star: static position and size, fixed for a whole session.
#[derive(Clone, Copy, PartialEq, Eq, Structural, Debug)]
pub struct Star {
    pub pos: Vec2,
    pub size: i64,
}

impl Star {
    pub open spec fn wf(self) -> bool {
        &&& self.pos.norm_le(POS_LIMIT as int)
        &&& (self.size == 1000 || self.size == 2000 || self.size == 3000)
    }
}

/// Thrust particle; its size decays until it is pruned.
#[derive(Clone, Copy, PartialEq, Eq, Structural, Debug)]
pub struct Exhaust {
    pub pos: Vec2,
    pub created_at: i64,
    pub vel: Vec2,
    pub size: i64,
}

impl Exhaust {
    pub open spec fn wf(self) -> bool {
        &&& self.pos.norm_le(POS_LIMIT as int)
        &&& self.vel.norm_le(VEL_LIMIT as int)
        &&& 0 <= self.size <= EXTENT_LIMIT
        &&& 0 <= self.created_at <= TIME_LIMIT
    }
}

/// Projectile; lives for a fixed time unless it hits an asteroid first.
#[derive(Clone, Copy, PartialEq, Eq, Structural, Debug)]
pub struct Bullet {
    pub pos: Vec2,
    pub created_at: i64,
    pub vel: Vec2,
    pub collision: bool,
}

impl Bullet {
    pub open spec fn wf(self) -> bool {
        &&& self.pos.norm_le(POS_LIMIT as int)
        &&& self.vel.norm_le(VEL_LIMIT as int)
        &&& 0 <= self.created_at <= TIME_LIMIT
    }
}

/// A fragmenting rock: local-frame polygon vertices fixed at creation,
/// spun by `angle` and translated by `pos` when rendered or collided.
#[derive(Clone, Debug)]
pub struct Asteroid {
    pub pos: Vec2,
    pub vel: Vec2,
    pub angle: i64,
    pub size: i64,
    pub points: Vec<Vec2>,
    pub w: i64,
    pub collision: bool,
}

impl Asteroid {
    pub open spec fn wf(self) -> bool {
        &&& self.pos.norm_le(POS_LIMIT as int)
        &&& self.vel.norm_le(VEL_LIMIT as int)
        &&& 0 <= self.angle < 360_000
        &&& 1 <= self.size <= ASTEROID_MAX_SIZE
        &&& 3 <= self.points@.len()
        &&& forall|i: int|
            0 <= i < self.points@.len() ==> (#[trigger] self.points@[i]).norm_le(PT_LIMIT as int)
        &&& 0 <= self.w <= BOUND_LIMIT
    }

    /// The polygon in world space: each stored local-frame vertex rotated
    /// by the spin angle and translated to the asteroid's position.
    pub open spec fn world_points(self) -> Seq<Vec2> {
        self.points@.map(|i: int, p: Vec2| rotate_spec(self.pos, p, self.angle as int))
    }

    /// World-space polygon vertices, for rendering and collision alike.
    pub fn points(&self) -> (r: Vec<Vec2>)
        requires
            self.wf(),
        ensures
            r@ == self.world_points(),
            r@.len() == self.points@.len(),
            forall|i: int| 0 <= i < r@.len() ==> (#[trigger] r@[i]).norm_le(0x800_8000_0000),
    {
        let mut r: Vec<Vec2> = Vec::new();
        let mut i: usize = 0;
        while i < self.points.len()
            invariant
                self.wf(),
                i <= self.points@.len(),
                r@.len() == i,
                forall|j: int| 0 <= j < i ==> r@[j] == self.world_points()[j],
                forall|j: int| 0 <= j < i ==> (#[trigger] r@[j]).norm_le(0x800_8000_0000),
            decreases self.points@.len() - i,
        {
            let p = crate::utils::rotate_point(self.pos, self.points[i], self.angle);
            r.push(p);
            i = i + 1;
        }
        proof {
            assert(r@ =~= self.world_points());
        }
        r
    }
}

/// The player's ship. Extents are in milli-units; the rendered and
/// collided hull is scaled to milli-pixels by the state's scale factor.
#[derive(Clone, Copy, Debug)]
pub struct Spaceship {
    pub w: i64,
    pub h: i64,
    pub pos: Vec2,
    pub angle: i64,
    pub vel: Vec2,
    pub strafing: (bool, bool),
    pub last_turret_frame: i64,
    pub last_exhaust_frame: i64,
}

impl Spaceship {
    pub open spec fn wf(self) -> bool {
        &&& 0 < self.w <= EXTENT_LIMIT
        &&& 0 < self.h <= EXTENT_LIMIT
        &&& self.pos.norm_le(POS_LIMIT as int)
        &&& self.vel.norm_le(VEL_LIMIT as int)
        &&& 0 <= self.angle < 360_000
        &&& 0 <= self.last_turret_frame <= TIME_LIMIT
        &&& 0 <= self.last_exhaust_frame <= TIME_LIMIT
    }

    pub fn new(x: i64, y: i64, w: i64, h: i64) -> (s: Spaceship)
        ensures
            s == (Spaceship {
                w,
                h,
                pos: Vec2 { x, y },
                angle: 0,
                vel: Vec2 { x: 0, y: 0 },
                strafing: (false, false),
                last_turret_frame: 0,
                last_exhaust_frame: 0,
            }),
    {
        Spaceship {
            w,
            h,
            pos: Vec2 { x, y },
            angle: 0,
            vel: Vec2 { x: 0, y: 0 },
            strafing: (false, false),
            last_turret_frame: 0,
            last_exhaust_frame: 0,
        }
    }

    /// Respawn after a lost life: velocity and angle zeroed, position
    /// re-centered on the screen.
    pub fn reset(&mut self, bounds_w: i64, bounds_h: i64)
        requires
            0 <= bounds_w,
            0 <= bounds_h,
        ensures
            *final(self) == (Spaceship {
                vel: Vec2 { x: 0, y: 0 },
                angle: 0,
                pos: Vec2 { x: (bounds_w as int / 2) as i64, y: (bounds_h as int / 2) as i64 },
                ..*old(self)
            }),
    {
        self.vel = Vec2 { x: 0, y: 0 };
        self.angle = 0;
        self.pos = Vec2 { x: bounds_w / 2, y: bounds_h / 2 };
    }

    /// The ship's hull in world space: nose, the two wing tips (these
    /// first three are the collision triangle), then the two tail points.
    pub open spec fn points_spec(self, scl: int) -> Seq<Vec2> {
        let s = sin_mdeg_spec(self.angle as int);
        let c = cos_mdeg_spec(self.angle as int);
        let sh = div_tz(self.h * scl, 1000);
        let sw = div_tz(self.w * scl, 1000);
        let sh2 = sh / 2;
        let sw2 = sw / 2;
        let sh3 = 2 * sh / 3;
        let sw3 = 2 * sw / 3;
        seq![
            Vec2 {
                x: (self.pos.x + trig_mul_spec(s, sh2)) as i64,
                y: (self.pos.y - trig_mul_spec(c, sh2)) as i64,
            },
            Vec2 {
                x: (self.pos.x - trig_mul_spec(c, sw2) - trig_mul_spec(s, sh2)) as i64,
                y: (self.pos.y - trig_mul_spec(s, sw2) + trig_mul_spec(c, sh2)) as i64,
            },
            Vec2 {
                x: (self.pos.x + trig_mul_spec(c, sw2) - trig_mul_spec(s, sh2)) as i64,
                y: (self.pos.y + trig_mul_spec(s, sw2) + trig_mul_spec(c, sh2)) as i64,
            },
            Vec2 {
                x: (self.pos.x - trig_mul_spec(c, sw3) - trig_mul_spec(s, sh3)) as i64,
                y: (self.pos.y - trig_mul_spec(s, sw3) + trig_mul_spec(c, sh3)) as i64,
            },
            Vec2 {
                x: (self.pos.x + trig_mul_spec(c, sw3) - trig_mul_spec(s, sh3)) as i64,
                y: (self.pos.y + trig_mul_spec(s, sw3) + trig_mul_spec(c, sh3)) as i64,
            },
        ]
    }

    /// World-space hull points at scale `scl`.
    #[verifier::rlimit(60)]
    pub fn points(&self, scl: i64) -> (r: Vec<Vec2>)
        requires
            self.wf(),
            1 <= scl <= SCALE_LIMIT,
        ensures
            r@ == self.points_spec(scl as int),
            r@.len() == 5,
            forall|i: int| 0 <= i < r@.len() ==> (#[trigger] r@[i]).norm_le(0xA00_0000_0000),
    {
        let s = crate::utils::sin_mdeg(self.angle);
        let c = crate::utils::cos_mdeg(self.angle);
        proof {
            crate::utils::lemma_mul_bound(self.h as int, scl as int, EXTENT_LIMIT as int, SCALE_LIMIT as int);
            crate::utils::lemma_mul_bound(self.w as int, scl as int, EXTENT_LIMIT as int, SCALE_LIMIT as int);
            crate::utils::lemma_div_tz_bound(self.h as int * scl as int, 1000, 0x8000_0000);
            crate::utils::lemma_div_tz_bound(self.w as int * scl as int, 1000, 0x8000_0000);
        }
        let sh = (self.h * scl) / 1000;
        let sw = (self.w * scl) / 1000;
        let sh2 = sh / 2;
        let sw2 = sw / 2;
        let sh3 = 2 * sh / 3;
        let sw3 = 2 * sw / 3;
        let v1 = Vec2 { x: self.pos.x + trig_mul(s, sh2), y: self.pos.y - trig_mul(c, sh2) };
        let v2 = Vec2 {
            x: self.pos.x - trig_mul(c, sw2) - trig_mul(s, sh2),
            y: self.pos.y - trig_mul(s, sw2) + trig_mul(c, sh2),
        };
        let v3 = Vec2 {
            x: self.pos.x + trig_mul(c, sw2) - trig_mul(s, sh2),
            y: self.pos.y + trig_mul(s, sw2) + trig_mul(c, sh2),
        };
        let v4 = Vec2 {
            x: self.pos.x - trig_mul(c, sw3) - trig_mul(s, sh3),
            y: self.pos.y - trig_mul(s, sw3) + trig_mul(c, sh3),
        };
        let v5 = Vec2 {
            x: self.pos.x + trig_mul(c, sw3) - trig_mul(s, sh3),
            y: self.pos.y + trig_mul(s, sw3) + trig_mul(c, sh3),
        };
        let r = vec![v1, v2, v3, v4, v5];
        proof {
            assert(r@ =~= self.points_spec(scl as int));
        }
        r
    }
}

/// Aggregate root of the whole simulation.
pub struct GameState {
    pub scl: i64,
    pub bounds: Vec2,
    pub player: Spaceship,
    pub flying_points: Vec<FlyingPoint>,
    pub background: Vec<Star>,
    pub exhaust: Vec<Exhaust>,
    pub explosions: Vec<Explosion>,
    pub bullets: Vec<Bullet>,
    pub asteroids: Vec<Asteroid>,
    pub lives: i64,
    pub run_state: RunState,
    pub play_time: i64,
    pub combo_time: i64,
    pub combo: i64,
    pub score_multiplier: i64,
    pub score: i64,
    pub debug: bool,
}

impl GameState {
    /// Well-formedness of the whole state: every entity within the
    /// model's bounds, lives never negative, combo/score accounting in
    /// range. Established at construction and preserved by every frame.
    pub open spec fn wf(self) -> bool {
        &&& 1 <= self.scl <= SCALE_LIMIT
        &&& 1 <= self.bounds.x <= BOUND_LIMIT
        &&& UNITS <= self.bounds.y <= BOUND_LIMIT
        &&& self.player.wf()
        &&& forall|i: int| 0 <= i < self.flying_points@.len() ==> (#[trigger] self.flying_points@[i]).wf()
        &&& forall|i: int| 0 <= i < self.background@.len() ==> (#[trigger] self.background@[i]).wf()
        &&& forall|i: int| 0 <= i < self.exhaust@.len() ==> (#[trigger] self.exhaust@[i]).wf()
        &&& forall|i: int| 0 <= i < self.explosions@.len() ==> (#[trigger] self.explosions@[i]).wf()
        &&& forall|i: int| 0 <= i < self.bullets@.len() ==> (#[trigger] self.bullets@[i]).wf()
        &&& forall|i: int| 0 <= i < self.asteroids@.len() ==> (#[trigger] self.asteroids@[i]).wf()
        &&& 0 <= self.lives <= MAX_PLAYER_LIVES
        &&& 0 <= self.play_time <= TIME_LIMIT
        &&& 0 <= self.combo_time <= TIME_LIMIT
        &&& 0 <= self.combo <= COMBO_LIMIT
        &&& 1 <= self.score_multiplier <= MULT_LIMIT
        &&& 0 <= self.score <= SCORE_LIMIT
    }
}

/// Everything a freshly constructed session state satisfies: the initial
/// asteroid field of three large rocks, empty transient collections, full
/// lives, zeroed score/combo/clock, a centered ship, and `Running`.
pub open spec fn fresh_state(gs: GameState, bounds_w: i64, bounds_h: i64) -> bool {
    &&& gs.wf()
    &&& gs.run_state == RunState::Running
    &&& gs.scl == bounds_h as int / UNITS as int
    &&& gs.bounds == (Vec2 { x: bounds_w, y: bounds_h })
    &&& gs.asteroids@.len() == 3
    &&& (forall|k: int|
        0 <= k < gs.asteroids@.len() ==> (#[trigger] gs.asteroids@[k]).size == ASTEROID_MAX_SIZE
            && !gs.asteroids@[k].collision)
    &&& (forall|k: int|
        0 <= k < gs.asteroids@.len() ==> {
            let ring = bounds_w as int / ASTEROID_MAX_SIZE as int;
            let cx = bounds_w as int / 2;
            let cy = bounds_h as int / 2;
            &&& cx - ring <= (#[trigger] gs.asteroids@[k]).pos.x <= cx + ring
            &&& cy - ring <= gs.asteroids@[k].pos.y <= cy + ring
        })
    &&& gs.background@.len() == 50
    &&& gs.bullets@.len() == 0
    &&& gs.exhaust@.len() == 0
    &&& gs.explosions@.len() == 0
    &&& gs.flying_points@.len() == 0
    &&& gs.lives == MAX_PLAYER_LIVES
    &&& gs.play_time == 0
    &&& gs.combo_time == 0
    &&& gs.combo == 0
    &&& gs.score_multiplier == 1
    &&& gs.score == 0
    &&& !gs.debug
    &&& gs.player == (Spaceship {
        w: PLAYER_WIDTH,
        h: PLAYER_HEIGHT,
        pos: Vec2 { x: (bounds_w as int / 2) as i64, y: (bounds_h as int / 2) as i64 },
        angle: 0,
        vel: Vec2 { x: 0, y: 0 },
        strafing: (false, false),
        last_turret_frame: 0,
        last_exhaust_frame: 0,
    })
}

/// A fresh session state for a `bounds_w` by `bounds_h` screen: three
/// large asteroids on a ring around the center, a reproducible star
/// field (the generator is reseeded with `restore_seed` afterwards), a
/// centered ship, full lives and zeroed scoring.
pub fn get_new_game_state(bounds_w: i64, bounds_h: i64, restore_seed: u64) -> (gs: GameState)
    requires
        1 <= bounds_w <= BOUND_LIMIT,
        UNITS <= bounds_h <= BOUND_LIMIT,
    ensures
        fresh_state(gs, bounds_w, bounds_h),
{
    let scale = bounds_h / UNITS;
    let cx = bounds_w / 2;
    let cy = bounds_h / 2;
    let center = Vec2 { x: cx, y: cy };
    let gs = GameState {
        asteroids: crate::spawner::asteroids(
            center,
            bounds_w / ASTEROID_MAX_SIZE,
            3,
            ASTEROID_MAX_SIZE,
            scale,
        ),
        background: crate::spawner::stars(50, bounds_w, bounds_h, restore_seed),
        bullets: Vec::new(),
        combo: 0,
        combo_time: 0,
        debug: false,
        exhaust: Vec::new(),
        explosions: Vec::new(),
        flying_points: Vec::new(),
        lives: MAX_PLAYER_LIVES,
        play_time: 0,
        player: Spaceship::new(cx, cy, PLAYER_WIDTH, PLAYER_HEIGHT),
        run_state: RunState::Running,
        scl: scale,
        bounds: Vec2 { x: bounds_w, y: bounds_h },
        score: 0,
        score_multiplier: 1,
    };
    gs
}

} // verus!
