//! The boss and its projectiles.
//!
//! The boss cycles between an idle/throwing state, an enraged charge toward
//! the nearest wall, and death. Random AI timing and trajectory jitter come
//! from draws that the caller injects, so a step is a pure function of
//! state, elapsed time, target position, tiles, and draws.

use vstd::prelude::*;
use crate::math::{
    clamped, clamp_i64, integrate, integrated, sabs, sat_pos, v2, Vec2i, V2, DT_MAX, POS_LIMIT,
    TIME_CAP, TIME_SCALE,
};
use crate::physics::{blocked, any_tile_hit, GRAVITY_Y};
use crate::level::{Tile, tiles_wf};
use crate::rng::GameRng;
use crate::sound::SoundEffect;

verus! {

/// Base waiting time of an enraged boss before it charges, scaled by its
/// remaining health, in microseconds.
pub const RAGE_DELAY_US: i64 = 250_000;

/// Horizontal reach of a throw, in coordinate steps.
pub const BANANA_MAX_DISTANCE: i64 = 30_000;

/// The boss starts with this much health.
pub const MONKEY_INITIAL_HEALTH: i32 = 3;

/// Health values are bounded; damage only ever lowers health.
pub const HEALTH_CAP: i32 = 1000;

/// Initial charge speed, in steps per second.
pub const RAGE_SPEED: i64 = 15_000;

/// Each successful hit raises the charge speed by this much.
pub const RAGE_SPEED_STEP: i64 = 5_000;

/// The charge speed saturates here.
pub const RAGE_SPEED_MAX: i64 = 30_000;

/// How far ahead of the boss the charge probes for a wall, in steps.
pub const CHARGE_PROBE: i64 = 500;

/// Projectile velocity components are clamped to this magnitude.
pub const BANANA_VMAX: i64 = 10_000_000;

/// Scales the horizontal launch speed of a throw: half the gravity
/// magnitude, so the parabola comes down near the target.
pub const BANANA_LAUNCH_RATE: i64 = 12_500;

/// The vertical launch speed grows by this much per point of boss health,
/// in steps per second.
pub const BANANA_HEALTH_RATE: i64 = 2_000;

/// Bounds of the randomized pause between throws, in microseconds.
pub const THROW_WAIT_MIN_US: i64 = 1_000_000;

pub const THROW_WAIT_MAX_US: i64 = 2_000_000;

/// The boss first throws after this pause, in microseconds.
pub const FIRST_THROW_WAIT_US: i64 = 1_500_000;

/// Bounds of the randomized number of throws before a rage.
pub const RAGE_COUNT_MIN: i32 = 5;

pub const RAGE_COUNT_MAX: i32 = 10;

/// The boss rages after this many throws until the first redraw.
pub const FIRST_RAGE_COUNT: i32 = 7;

/// Bound of the random jitter added to the vertical launch speed.
pub const THROW_JITTER_MAX: i64 = 4_000;

/// Vertical thickness of the boss's stompable head box, in steps.
pub const MONKEY_HEAD_THICKNESS: i64 = 500;

/// A thrown projectile: purely ballistic, ignores tiles, and is pruned by
/// the session once it falls below the lower world bound.
#[derive(Clone, Copy, Debug)]
pub struct Banana {
    pub position: Vec2i,
    pub sides: Vec2i,
    pub velocity: Vec2i,
}

/// The mathematical value of a projectile.
pub ghost struct BananaV {
    pub position: V2,
    pub sides: V2,
    pub velocity: V2,
}

impl View for Banana {
    type V = BananaV;

    open spec fn view(&self) -> BananaV {
        BananaV { position: self.position@, sides: self.sides@, velocity: self.velocity@ }
    }
}

impl BananaV {
    pub open spec fn wf(self) -> bool {
        &&& self.position.pos_ok()
        &&& self.sides.sides_ok()
        &&& sabs(self.velocity.x) <= BANANA_VMAX
        &&& sabs(self.velocity.y) <= BANANA_VMAX
    }
}

/// The random values one boss step may consume: the next pause between
/// throws, the next number of throws before a rage, and the jitter on the
/// vertical launch speed.
#[derive(Clone, Copy, Debug)]
pub struct MonkeyDraws {
    pub next_throw_us: i64,
    pub rage_threshold: i32,
    pub yvel_jitter: i64,
}

impl MonkeyDraws {
    /// Each draw lies in its documented range.
    pub open spec fn valid(self) -> bool {
        &&& THROW_WAIT_MIN_US <= self.next_throw_us < THROW_WAIT_MAX_US
        &&& RAGE_COUNT_MIN <= self.rage_threshold < RAGE_COUNT_MAX
        &&& 0 <= self.yvel_jitter < THROW_JITTER_MAX
    }
}

/// The boss.
#[derive(Debug)]
pub struct Monkey {
    pub spawn: Vec2i,
    pub position: Vec2i,
    pub sides: Vec2i,
    pub velocity: Vec2i,
    pub bananas: Vec<Banana>,
    pub next_throw_us: i64,
    pub bananas_thrown: i32,
    pub bananas_before_rage: i32,
    pub enraged: bool,
    pub ai_time_us: i64,
    pub rage_velocity: Vec2i,
    pub health: i32,
    pub right: bool,
}

/// The mathematical value of the boss state.
pub ghost struct MonkeyV {
    pub spawn: V2,
    pub position: V2,
    pub sides: V2,
    pub velocity: V2,
    pub bananas: Seq<BananaV>,
    pub next_throw_us: int,
    pub bananas_thrown: int,
    pub bananas_before_rage: int,
    pub enraged: bool,
    pub ai_time_us: int,
    pub rage_velocity: V2,
    pub health: int,
    pub right: bool,
}

/// The mathematical values of a list of projectiles.
pub open spec fn spec_bananas(bs: Seq<Banana>) -> Seq<BananaV> {
    bs.map_values(|b: Banana| b@)
}

impl View for Monkey {
    type V = MonkeyV;

    open spec fn view(&self) -> MonkeyV {
        MonkeyV {
            spawn: self.spawn@,
            position: self.position@,
            sides: self.sides@,
            velocity: self.velocity@,
            bananas: spec_bananas(self.bananas@),
            next_throw_us: self.next_throw_us as int,
            bananas_thrown: self.bananas_thrown as int,
            bananas_before_rage: self.bananas_before_rage as int,
            enraged: self.enraged,
            ai_time_us: self.ai_time_us as int,
            rage_velocity: self.rage_velocity@,
            health: self.health as int,
            right: self.right,
        }
    }
}

impl MonkeyV {
    /// Dead means out of health.
    pub open spec fn dead(self) -> bool {
        self.health <= 0
    }

    /// Positions and extents in range, speeds bounded, a dead boss at rest,
    /// timers saturated at the cap, and the throw counter within its
    /// threshold.
    pub open spec fn wf(self) -> bool {
        &&& self.spawn.pos_ok()
        &&& self.position.pos_ok()
        &&& self.sides.sides_ok()
        &&& sabs(self.velocity.x) <= RAGE_SPEED_MAX
        &&& self.velocity.y == 0
        &&& sabs(self.rage_velocity.x) <= RAGE_SPEED_MAX
        &&& self.rage_velocity.y == 0
        &&& (self.dead() ==> self.velocity == V2::origin())
        &&& 0 <= self.health <= HEALTH_CAP
        &&& 0 <= self.ai_time_us <= TIME_CAP
        &&& 0 <= self.next_throw_us <= TIME_CAP
        &&& 0 <= self.bananas_thrown <= self.bananas_before_rage
        &&& 1 <= self.bananas_before_rage <= 1000
        &&& (forall|i: int| 0 <= i < self.bananas.len() ==> (#[trigger] self.bananas[i]).wf())
    }
}

/// One frame of ballistic projectile motion: gravity accelerates the
/// projectile downward (clamped), then the position integrates the new
/// velocity.
pub open spec fn spec_banana_step(b: BananaV, dt: int) -> BananaV {
    let vy = clamped(
        b.velocity.y + integrated(GRAVITY_Y as int, dt),
        -BANANA_VMAX as int,
        BANANA_VMAX as int,
    );
    BananaV {
        position: sat_pos(
            v2(b.position.x + integrated(b.velocity.x, dt), b.position.y + integrated(vy, dt)),
        ),
        sides: b.sides,
        velocity: V2 { x: b.velocity.x, y: vy },
    }
}

/// A projectile spawned toward a target a horizontal distance `dx` away:
/// the vertical launch speed is the jitter plus a health-scaled base plus a
/// quarter of the distance, and the horizontal speed follows the ballistic
/// range formula so the parabola reaches the target.
pub open spec fn spec_throw(m: MonkeyV, dx: int, jitter: int) -> MonkeyV {
    let adx = sabs(dx);
    let yvel = jitter + BANANA_HEALTH_RATE * m.health + adx / 4;
    let launch = (adx * BANANA_LAUNCH_RATE) / yvel;
    let vx = if dx >= 0 {
        launch
    } else {
        -launch
    };
    let off = m.sides.x / 2;
    let bpos = sat_pos(
        v2(
            m.position.x + if dx >= 0 {
                off
            } else {
                -off
            },
            m.position.y - m.sides.y / 4,
        ),
    );
    MonkeyV {
        bananas: m.bananas.push(
            BananaV { position: bpos, sides: v2(800, 400), velocity: v2(vx, yvel) },
        ),
        bananas_thrown: m.bananas_thrown + 1,
        ..m
    }
}

/// One frame of boss AI: the clock advances (saturating), then exactly one
/// of these happens — a dead boss does nothing; an enraged boss past its
/// health-scaled delay charges, stopping and reversing at a wall; a boss
/// whose throw counter reached its threshold rages; a boss past its throw
/// pause rethrows at a target within reach. The boss then moves by its
/// velocity and every projectile takes one ballistic step.
/// The decision part of one boss frame, after the clock has advanced to
/// `ma.ai_time_us`: exactly one branch fires.
pub open spec fn spec_monkey_ai(ma: MonkeyV, target: V2, tiles: Seq<Tile>, draws: MonkeyDraws) -> (
    MonkeyV,
    Seq<SoundEffect>,
) {
    if ma.dead() {
        (ma, Seq::empty())
    } else if ma.enraged && ma.ai_time_us >= RAGE_DELAY_US * ma.health {
        let sgn = if ma.rage_velocity.x >= 0 {
            CHARGE_PROBE as int
        } else {
            -CHARGE_PROBE as int
        };
        if blocked(ma.position, ma.sides, v2(sgn, 0), tiles) {
            (
                MonkeyV {
                    enraged: false,
                    velocity: V2::origin(),
                    rage_velocity: v2(-ma.rage_velocity.x, -ma.rage_velocity.y),
                    ai_time_us: 0,
                    ..ma
                },
                Seq::empty(),
            )
        } else {
            (MonkeyV { velocity: ma.rage_velocity, ..ma }, Seq::empty())
        }
    } else if ma.bananas_thrown >= ma.bananas_before_rage {
        (
            MonkeyV {
                enraged: true,
                bananas_thrown: 0,
                bananas_before_rage: draws.rage_threshold as int,
                ..ma
            },
            seq![SoundEffect::Rage],
        )
    } else if ma.ai_time_us > ma.next_throw_us {
        let mt = MonkeyV { ai_time_us: 0, next_throw_us: draws.next_throw_us as int, ..ma };
        let dx = target.x - ma.position.x;
        if sabs(dx) < BANANA_MAX_DISTANCE {
            (spec_throw(mt, dx, draws.yvel_jitter as int), seq![SoundEffect::Banana])
        } else {
            (mt, Seq::empty())
        }
    } else {
        (ma, Seq::empty())
    }
}

#[verifier::opaque]
pub open spec fn spec_monkey_step(
    m: MonkeyV,
    dt: int,
    target: V2,
    tiles: Seq<Tile>,
    draws: MonkeyDraws,
) -> (MonkeyV, Seq<SoundEffect>) {
    let t1 = if m.ai_time_us + dt > TIME_CAP {
        TIME_CAP as int
    } else {
        m.ai_time_us + dt
    };
    let branched = spec_monkey_ai(MonkeyV { ai_time_us: t1, ..m }, target, tiles, draws);
    let m2 = branched.0;
    let moved = MonkeyV {
        position: sat_pos(
            v2(
                m2.position.x + integrated(m2.velocity.x, dt),
                m2.position.y + integrated(m2.velocity.y, dt),
            ),
        ),
        ..m2
    };
    (
        MonkeyV { bananas: moved.bananas.map_values(|b: BananaV| spec_banana_step(b, dt)), ..moved },
        branched.1,
    )
}

/// A damage call and whether it had any effect: an enraged or dead boss is
/// untouched; otherwise health drops by the amount (never below zero), the
/// charge speed grows one step (saturating), and the boss either dies at
/// rest or immediately rages.
pub open spec fn spec_monkey_damage(m: MonkeyV, amount: int) -> (MonkeyV, bool) {
    if m.enraged || m.dead() {
        (m, false)
    } else {
        let h = if m.health - amount < 0 {
            0int
        } else {
            m.health - amount
        };
        let mag = if sabs(m.rage_velocity.x) + RAGE_SPEED_STEP > RAGE_SPEED_MAX {
            RAGE_SPEED_MAX as int
        } else {
            sabs(m.rage_velocity.x) + RAGE_SPEED_STEP
        };
        let rv = v2(
            if m.rage_velocity.x >= 0 {
                mag
            } else {
                -mag
            },
            m.rage_velocity.y,
        );
        if h <= 0 {
            (MonkeyV { health: h, velocity: V2::origin(), rage_velocity: rv, ..m }, true)
        } else {
            (
                MonkeyV {
                    health: h,
                    rage_velocity: rv,
                    enraged: true,
                    bananas_thrown: 0,
                    ..m
                },
                true,
            )
        }
    }
}

/// The boss's stompable head box.
pub open spec fn spec_monkey_head(m: MonkeyV) -> (V2, V2) {
    (
        v2(m.position.x, m.position.y + (4 * m.sides.y) / 9),
        v2(m.sides.x, MONKEY_HEAD_THICKNESS as int),
    )
}

/// The state of a freshly constructed boss: at the origin with the default
/// extents and tuning, at rest, facing right, with no projectile thrown.
pub open spec fn spec_monkey_new() -> MonkeyV {
    MonkeyV {
        spawn: V2::origin(),
        position: V2::origin(),
        sides: v2(2000, 4000),
        velocity: V2::origin(),
        bananas: Seq::empty(),
        next_throw_us: FIRST_THROW_WAIT_US as int,
        bananas_thrown: 0,
        bananas_before_rage: FIRST_RAGE_COUNT as int,
        enraged: false,
        ai_time_us: 0,
        rage_velocity: v2(-RAGE_SPEED as int, 0),
        health: MONKEY_INITIAL_HEALTH as int,
        right: true,
    }
}

impl Monkey {
    pub open spec fn wf(self) -> bool {
        self@.wf()
    }

    /// A boss at the origin with the default extents and tuning, at rest,
    /// facing right, with no projectile thrown yet.
    pub fn new() -> (m: Monkey)
        ensures
            m@ == spec_monkey_new(),
            m.wf(),
    {
        let m = Monkey {
            spawn: Vec2i::new(0, 0),
            position: Vec2i::new(0, 0),
            sides: Vec2i::new(2000, 4000),
            velocity: Vec2i::new(0, 0),
            bananas: Vec::new(),
            next_throw_us: FIRST_THROW_WAIT_US,
            bananas_thrown: 0,
            bananas_before_rage: FIRST_RAGE_COUNT,
            enraged: false,
            ai_time_us: 0,
            rage_velocity: Vec2i::new(-RAGE_SPEED, 0),
            health: MONKEY_INITIAL_HEALTH,
            right: true,
        };
        proof {
            assert(m@.bananas =~= Seq::<BananaV>::empty());
        }
        m
    }

    /// Which way the boss faces: toward its charge while enraged, else its
    /// resting direction.
    pub fn right(&self) -> (r: bool)
        ensures
            r == if self.enraged {
                self@.rage_velocity.x < 0
            } else {
                self.right
            },
    {
        if self.enraged {
            self.rage_velocity.x < 0
        } else {
            self.right
        }
    }

    pub fn dead(&self) -> (d: bool)
        ensures
            d == self@.dead(),
    {
        self.health <= 0
    }

    /// The stompable head box.
    pub fn head(&self) -> (r: (Vec2i, Vec2i))
        requires
            self.wf(),
        ensures
            (r.0@, r.1@) == spec_monkey_head(self@),
    {
        let lift: i64 = ((4 * (self.sides.y as u64)) / 9) as i64;
        (
            Vec2i::new(self.position.x, self.position.y + lift),
            Vec2i::new(self.sides.x, MONKEY_HEAD_THICKNESS),
        )
    }

    /// The body box used for hit checks, slightly smaller than the sprite.
    pub fn hitbox(&self) -> (h: Vec2i)
        requires
            self.wf(),
        ensures
            h@ == v2(self@.sides.x - 250, self@.sides.y - 500),
    {
        Vec2i::new(self.sides.x - 250, self.sides.y - 500)
    }

    /// Apply damage. While enraged the boss is invulnerable and nothing
    /// changes; a dead boss is out of reach too. Otherwise health drops by
    /// exactly the amount, clamped at zero; at zero the boss dies at rest
    /// (without raging), else it immediately rages.
    pub fn damage(&mut self, amount: i32) -> (hit: bool)
        requires
            old(self).wf(),
            0 <= amount,
        ensures
            (final(self)@, hit) == spec_monkey_damage(old(self)@, amount as int),
            final(self).wf(),
            old(self).enraged ==> final(self)@ == old(self)@ && !hit,
            old(self)@.dead() ==> final(self)@ == old(self)@ && !hit,
            final(self)@.health <= old(self)@.health,
            !old(self).enraged && !old(self)@.dead() ==> hit && final(self)@.health == (
            if old(self)@.health - amount < 0 {
                0int
            } else {
                old(self)@.health - amount
            }),
    {
        if self.enraged || self.health <= 0 {
            return false;
        }
        if amount >= self.health {
            self.health = 0;
        } else {
            self.health = self.health - amount;
        }
        let mag: i64 = if self.rage_velocity.x >= 0 {
            self.rage_velocity.x
        } else {
            -self.rage_velocity.x
        };
        let mag2: i64 = if mag + RAGE_SPEED_STEP > RAGE_SPEED_MAX {
            RAGE_SPEED_MAX
        } else {
            mag + RAGE_SPEED_STEP
        };
        self.rage_velocity.x = if self.rage_velocity.x >= 0 {
            mag2
        } else {
            -mag2
        };
        if self.health <= 0 {
            self.velocity = Vec2i::new(0, 0);
        } else {
            self.enraged = true;
            self.bananas_thrown = 0;
        }
        true
    }

    /// Spawn one projectile toward a target `displacement` away and count
    /// the throw.
    fn throw_banana(&mut self, displacement: Vec2i, jitter: i64)
        requires
            old(self).wf(),
            !old(self)@.dead(),
            old(self)@.bananas_thrown < old(self)@.bananas_before_rage,
            sabs(displacement@.x) < BANANA_MAX_DISTANCE,
            0 <= jitter < THROW_JITTER_MAX,
        ensures
            final(self)@ == spec_throw(old(self)@, displacement@.x, jitter as int),
            final(self).wf(),
    {
        let dx = displacement.x;
        let adx: i64 = if dx >= 0 {
            dx
        } else {
            -dx
        };
        proof {
            vstd::arithmetic::div_mod::lemma_div_pos_is_pos(adx as int, 4);
            vstd::arithmetic::div_mod::lemma_multiply_divide_le(adx as int, 4, 7500);
        }
        let quarter: i64 = ((adx as u64) / 4) as i64;
        let yvel: i64 = jitter + BANANA_HEALTH_RATE * (self.health as i64) + quarter;
        proof {
            let num = adx as int * (BANANA_LAUNCH_RATE as int);
            assert(self@.health >= 1);
            assert(yvel >= BANANA_HEALTH_RATE);
            assert((adx as int) * 12_500 <= (yvel as int) * 187_500) by (nonlinear_arith)
                requires
                    0 <= adx < 30_000,
                    yvel >= 2_000,
            ;
            assert(num == (adx as int) * 12_500);
            vstd::arithmetic::div_mod::lemma_multiply_divide_le(num, yvel as int, 187_500);
            vstd::arithmetic::div_mod::lemma_div_pos_is_pos(num, yvel as int);
        }
        let mag: i64 = (((adx as u64) * (BANANA_LAUNCH_RATE as u64)) / (yvel as u64)) as i64;
        let vx: i64 = if dx >= 0 {
            mag
        } else {
            -mag
        };
        let half_x: i64 = ((self.sides.x as u64) / 2) as i64;
        let quarter_y: i64 = ((self.sides.y as u64) / 4) as i64;
        let off_x: i64 = if dx >= 0 {
            half_x
        } else {
            -half_x
        };
        let bpos = Vec2i::new(
            clamp_i64(self.position.x + off_x, -POS_LIMIT, POS_LIMIT),
            clamp_i64(self.position.y - quarter_y, -POS_LIMIT, POS_LIMIT),
        );
        let b = Banana { position: bpos, sides: Vec2i::new(800, 400), velocity: Vec2i::new(vx, yvel) };
        let ghost before = self@;
        self.bananas.push(b);
        self.bananas_thrown = self.bananas_thrown + 1;
        proof {
            assert(self@.bananas =~= before.bananas.push(b@));
        }
    }

    /// One frame of boss AI with the random draws supplied by the caller;
    /// pushes a rage or throw cue when one happens. A dead boss keeps its
    /// place, its zero velocity, and its health, while its projectiles
    /// still fly.
    pub fn step(
        &mut self,
        elapsed: i64,
        target: Vec2i,
        tiles: &Vec<Tile>,
        draws: &MonkeyDraws,
        sounds: &mut Vec<SoundEffect>,
    )
        requires
            old(self).wf(),
            0 <= elapsed <= DT_MAX,
            tiles_wf(tiles@),
            target@.pos_ok(),
            draws.valid(),
        ensures
            final(self)@ == spec_monkey_step(
                old(self)@,
                elapsed as int,
                target@,
                tiles@,
                *draws,
            ).0,
            final(sounds)@ == old(sounds)@ + spec_monkey_step(
                old(self)@,
                elapsed as int,
                target@,
                tiles@,
                *draws,
            ).1,
            final(self).wf(),
            old(self)@.dead() ==> final(self)@.velocity == V2::origin() && final(self)@.position
                == old(self)@.position && final(self)@.health == old(self)@.health,
    {
        proof {
            reveal(spec_monkey_step);
        }
        let ghost m0 = self@;
        let ghost dt = elapsed as int;
        let ghost s0 = sounds@;

        if self.ai_time_us + elapsed > TIME_CAP {
            self.ai_time_us = TIME_CAP;
        } else {
            self.ai_time_us = self.ai_time_us + elapsed;
        }

        if self.health <= 0 {
            // dead: no AI
        } else if self.enraged && self.ai_time_us >= RAGE_DELAY_US * (self.health as i64) {
            self.velocity = self.rage_velocity;
            let sgn: i64 = if self.rage_velocity.x >= 0 {
                CHARGE_PROBE
            } else {
                -CHARGE_PROBE
            };
            let wall = any_tile_hit(self.position, self.sides, Vec2i::new(sgn, 0), tiles);
            if wall {
                self.ai_time_us = 0;
                self.enraged = false;
                self.velocity = Vec2i::new(0, 0);
                self.rage_velocity = Vec2i::new(-self.rage_velocity.x, -self.rage_velocity.y);
            }
        } else if self.bananas_thrown >= self.bananas_before_rage {
            self.enraged = true;
            self.bananas_thrown = 0;
            self.bananas_before_rage = draws.rage_threshold;
            sounds.push(SoundEffect::Rage);
        } else if self.ai_time_us > self.next_throw_us {
            self.ai_time_us = 0;
            self.next_throw_us = draws.next_throw_us;
            let dx = target.x - self.position.x;
            let adx: i64 = if dx >= 0 {
                dx
            } else {
                -dx
            };
            if adx < BANANA_MAX_DISTANCE {
                self.throw_banana(Vec2i::new(dx, target.y - self.position.y), draws.yvel_jitter);
                sounds.push(SoundEffect::Banana);
            }
        }

        let ghost ma = MonkeyV {
            ai_time_us: if m0.ai_time_us + dt > TIME_CAP {
                TIME_CAP as int
            } else {
                m0.ai_time_us + dt
            },
            ..m0
        };
        let ghost branched = spec_monkey_ai(ma, target@, tiles@, *draws);
        assert(self@ == branched.0);
        assert(sounds@ =~= s0 + branched.1);

        let mdx = integrate(self.velocity.x, elapsed);
        let mdy = integrate(self.velocity.y, elapsed);
        self.position.x = clamp_i64(self.position.x + mdx, -POS_LIMIT, POS_LIMIT);
        self.position.y = clamp_i64(self.position.y + mdy, -POS_LIMIT, POS_LIMIT);

        let ghost pre_bananas = self.bananas@;
        proof {
            assert(self@.wf());
            assert forall|j: int| 0 <= j < pre_bananas.len() implies (#[trigger] pre_bananas[j])@.wf() by {
                assert(self@.bananas[j] == pre_bananas[j]@);
            }
        }
        let ghost post_move = self@;
        let n = self.bananas.len();
        let mut i: usize = 0;
        while i < n
            invariant
                0 <= i <= n,
                n == self.bananas@.len(),
                0 <= elapsed <= DT_MAX,
                (MonkeyV { bananas: Seq::empty(), ..self@ }) == (MonkeyV {
                    bananas: Seq::empty(),
                    ..post_move
                }),
                forall|j: int| 0 <= j < i ==> (#[trigger] self.bananas@[j])@ == spec_banana_step(
                    pre_bananas[j]@,
                    elapsed as int,
                ),
                forall|j: int| i <= j < n ==> #[trigger] self.bananas@[j] == pre_bananas[j],
                forall|j: int| 0 <= j < n ==> (#[trigger] pre_bananas[j])@.wf(),
                forall|j: int| 0 <= j < i ==> (#[trigger] self.bananas@[j])@.wf(),
            decreases n - i,
        {
            let mut b = self.bananas[i];
            let dvy = integrate(GRAVITY_Y, elapsed);
            b.velocity.y = clamp_i64(b.velocity.y + dvy, -BANANA_VMAX, BANANA_VMAX);
            let bdx = integrate(b.velocity.x, elapsed);
            let bdy = integrate(b.velocity.y, elapsed);
            b.position.x = clamp_i64(b.position.x + bdx, -POS_LIMIT, POS_LIMIT);
            b.position.y = clamp_i64(b.position.y + bdy, -POS_LIMIT, POS_LIMIT);
            *vstd::std_specs::vec::vec_index_mut(&mut self.bananas, i) = b;
            i += 1;
        }

        proof {
            vstd::arithmetic::div_mod::lemma_div_of0(TIME_SCALE as int);
            let full = spec_monkey_step(m0, dt, target@, tiles@, *draws);
            let m2 = branched.0;
            if m0.dead() {
                assert(m2.velocity == V2::origin());
                assert(m2.velocity.x * dt == 0) by (nonlinear_arith)
                    requires
                        m2.velocity.x == 0,
                ;
                assert(m2.velocity.y * dt == 0) by (nonlinear_arith)
                    requires
                        m2.velocity.y == 0,
                ;
            }
            assert(full.1 == branched.1);
            assert(full.0.bananas.len() == m2.bananas.len());
            assert(m2.bananas.len() == pre_bananas.len());
            assert forall|j: int| 0 <= j < pre_bananas.len() implies self@.bananas[j]
                == full.0.bananas[j] by {
                assert(m2.bananas[j] == pre_bananas[j]@);
                assert(full.0.bananas[j] == spec_banana_step(pre_bananas[j]@, dt));
                assert(self@.bananas[j] == self.bananas@[j]@);
            }
            assert(self@.bananas =~= full.0.bananas);
            assert(self@.position == full.0.position);
            assert(self@.velocity == full.0.velocity);
            assert(self@ == full.0);
            assert(sounds@ =~= s0 + full.1);
        }
    }

    /// One frame of boss AI, drawing the random values from the injected
    /// generator. Some valid draws explain whatever the step did.
    pub fn udpate(
        &mut self,
        elapsed: i64,
        target: Vec2i,
        tiles: &Vec<Tile>,
        rng: &mut GameRng,
        sounds: &mut Vec<SoundEffect>,
    )
        requires
            old(self).wf(),
            0 <= elapsed <= DT_MAX,
            tiles_wf(tiles@),
            target@.pos_ok(),
        ensures
            final(self).wf(),
            exists|d: MonkeyDraws|
                #[trigger] d.valid() && final(self)@ == spec_monkey_step(
                    old(self)@,
                    elapsed as int,
                    target@,
                    tiles@,
                    d,
                ).0 && final(sounds)@ == old(sounds)@ + spec_monkey_step(
                    old(self)@,
                    elapsed as int,
                    target@,
                    tiles@,
                    d,
                ).1,
            old(self)@.dead() ==> final(self)@.velocity == V2::origin() && final(self)@.position
                == old(self)@.position && final(self)@.health == old(self)@.health,
    {
        let nt = rng.sample_range(THROW_WAIT_MIN_US as u64, THROW_WAIT_MAX_US as u64);
        let rt = rng.sample_range(RAGE_COUNT_MIN as u64, RAGE_COUNT_MAX as u64);
        let jit = rng.sample_range(0, THROW_JITTER_MAX as u64);
        let draws = MonkeyDraws {
            next_throw_us: nt as i64,
            rage_threshold: rt as i32,
            yvel_jitter: jit as i64,
        };
        assert(draws.valid());
        self.step(elapsed, target, tiles, &draws, sounds);
    }
}

/// Past its apex a projectile only falls: with a non-positive vertical
/// speed one ballistic step never raises the vertical position, and it
/// strictly lowers it whenever the integrated descent is at least one
/// coordinate step.
pub proof fn lemma_banana_descends(b: BananaV, dt: int)
    requires
        b.wf(),
        b.velocity.y <= 0,
        0 <= dt <= DT_MAX,
        b.position.y > -POS_LIMIT,
    ensures
        spec_banana_step(b, dt).position.y <= b.position.y,
        spec_banana_step(b, dt).velocity.y <= b.velocity.y,
        spec_banana_step(b, dt).velocity.y * dt <= -TIME_SCALE ==> spec_banana_step(
            b,
            dt,
        ).position.y < b.position.y,
{
    let ts = TIME_SCALE as int;
    let g = GRAVITY_Y as int;
    let dvy = integrated(g, dt);
    vstd::arithmetic::div_mod::lemma_div_pos_is_pos(-g * dt, ts);
    assert(dvy <= 0);
    let vy = clamped(b.velocity.y + dvy, -BANANA_VMAX as int, BANANA_VMAX as int);
    assert(vy <= b.velocity.y);
    assert(vy <= 0);
    let dy = integrated(vy, dt);
    if vy == 0 {
        assert(vy * dt == 0) by (nonlinear_arith)
            requires
                vy == 0,
        ;
        vstd::arithmetic::div_mod::lemma_div_of0(ts);
        assert(dy == 0);
    } else {
        assert(-vy * dt >= 0) by (nonlinear_arith)
            requires
                vy <= 0,
                dt >= 0,
        ;
        vstd::arithmetic::div_mod::lemma_div_pos_is_pos(-vy * dt, ts);
        assert(dy <= 0);
    }
    if vy * dt <= -ts {
        assert(-vy * dt == -(vy * dt)) by (nonlinear_arith);
        assert(-vy * dt >= ts);
        vstd::arithmetic::div_mod::lemma_div_is_ordered(ts, -vy * dt, ts);
        vstd::arithmetic::div_mod::lemma_div_by_self(ts);
        assert((-vy * dt) / ts >= 1);
        assert(dy <= -1);
    }
}

} // verus!
