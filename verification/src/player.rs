//! The player: input-driven movement with drag and variable-height jumps,
//! gravity, axis-separated tile collision resolution, stomp attacks, and
//! death.

use vstd::prelude::*;
use crate::math::{
    clamped, clamp_i64, integrate, integrated, sabs, sat_pos, v2, Vec2i, V2, DT_MAX, POS_LIMIT,
};
use crate::physics::{blocked, any_tile_hit, spec_collides, geom_ok, GRAVITY_Y, DRAG};
use crate::level::{Tile, tiles_wf};
use crate::sound::SoundEffect;

verus! {

/// Horizontal acceleration while grounded, in steps per second per second.
pub const PLAYER_SPEED: i64 = 30_000;

/// Horizontal acceleration while airborne: a quarter of the grounded one.
pub const AIR_SPEED: i64 = 7_500;

/// Upward speed set by a jump or a successful stomp, in steps per second.
pub const JUMP_SPEED: i64 = 15_000;

/// Upward speed is cut to this when the jump key is released mid-ascent.
pub const HALF_JUMP_SPEED: i64 = 7_500;

/// Velocity magnitudes are clamped to these after every acceleration.
pub const MAX_VELOCITY_X: i64 = 10_000;

pub const MAX_VELOCITY_Y: i64 = 100_000;

/// Horizontal speeds below this snap to exactly zero after drag.
pub const SNAP_SPEED: i64 = 100;

/// Vertical thickness of the stomp probe box at the player's feet.
pub const FOOT_THICKNESS: i64 = 200;

/// The per-frame snapshot of held logical keys.
#[derive(Clone, Copy, Debug, PartialEq, Eq, Structural)]
pub struct Input {
    pub left: bool,
    pub right: bool,
    pub down: bool,
    pub jump: bool,
}

impl Input {
    /// A snapshot with no key held.
    pub fn released() -> (k: Input)
        ensures
            k == (Input { left: false, right: false, down: false, jump: false }),
    {
        Input { left: false, right: false, down: false, jump: false }
    }
}

/// The player-controlled character.
#[derive(Clone, Copy, Debug)]
pub struct Player {
    pub spawn: Vec2i,
    pub position: Vec2i,
    pub sides: Vec2i,
    pub velocity: Vec2i,
    pub dead: bool,
    pub grounded: bool,
    pub crouched: bool,
}

/// The mathematical value of the player state.
pub ghost struct PlayerV {
    pub spawn: V2,
    pub position: V2,
    pub sides: V2,
    pub velocity: V2,
    pub dead: bool,
    pub grounded: bool,
    pub crouched: bool,
}

impl View for Player {
    type V = PlayerV;

    open spec fn view(&self) -> PlayerV {
        PlayerV {
            spawn: self.spawn@,
            position: self.position@,
            sides: self.sides@,
            velocity: self.velocity@,
            dead: self.dead,
            grounded: self.grounded,
            crouched: self.crouched,
        }
    }
}

impl PlayerV {
    /// Positions in range, extents valid, velocity within the clamps.
    pub open spec fn wf(self) -> bool {
        &&& self.spawn.pos_ok()
        &&& self.position.pos_ok()
        &&& self.sides.sides_ok()
        &&& sabs(self.velocity.x) <= MAX_VELOCITY_X
        &&& sabs(self.velocity.y) <= MAX_VELOCITY_Y
    }
}

/// Velocity limited to the maximum magnitude on each axis.
pub open spec fn clamp_vel(v: V2) -> V2 {
    V2 {
        x: clamped(v.x, -MAX_VELOCITY_X as int, MAX_VELOCITY_X as int),
        y: clamped(v.y, -MAX_VELOCITY_Y as int, MAX_VELOCITY_Y as int),
    }
}

/// Velocity after accelerating at `(ax, ay)` for `dt` microseconds and
/// clamping.
pub open spec fn accelerated(v: V2, ax: int, ay: int, dt: int) -> V2 {
    clamp_vel(V2 { x: v.x + integrated(ax, dt), y: v.y + integrated(ay, dt) })
}

/// Horizontal speed after drag: while grounded the magnitude decays at rate
/// `DRAG` times itself per second (never past zero), and any magnitude below
/// `SNAP_SPEED` snaps to exactly zero.
pub open spec fn dragged_x(vx: int, grounded: bool, dt: int) -> int {
    let decay = if grounded {
        integrated(DRAG * sabs(vx), dt)
    } else {
        0
    };
    let m = if decay >= sabs(vx) {
        0
    } else {
        sabs(vx) - decay
    };
    let snapped = if m < SNAP_SPEED {
        0
    } else {
        m
    };
    if vx >= 0 {
        snapped
    } else {
        -snapped
    }
}

/// The grounded acceleration, or a quarter of it in the air.
pub open spec fn spec_speed(grounded: bool) -> int {
    if grounded {
        PLAYER_SPEED as int
    } else {
        AIR_SPEED as int
    }
}

/// Velocity after the held keys are applied: left and right accelerate
/// horizontally, jump launches upward only from the ground, and a released
/// jump key caps any remaining ascent at half the jump speed.
pub open spec fn spec_input_velocity(v: V2, grounded: bool, input: Input, dt: int) -> V2 {
    let v1 = if input.left {
        accelerated(v, -spec_speed(grounded), 0, dt)
    } else {
        v
    };
    let v2u = if input.right {
        accelerated(v1, spec_speed(grounded), 0, dt)
    } else {
        v1
    };
    let v3 = if input.jump && grounded {
        V2 { x: v2u.x, y: JUMP_SPEED as int }
    } else {
        v2u
    };
    if !input.jump && v3.y > 0 {
        V2 { x: v3.x, y: if v3.y > HALF_JUMP_SPEED { HALF_JUMP_SPEED as int } else { v3.y } }
    } else {
        v3
    }
}

/// The stomp probe at the player's feet: a thin box as wide as the player,
/// centered on the lower edge.
pub open spec fn spec_foot(p: PlayerV) -> (V2, V2) {
    (v2(p.position.x, p.position.y - p.sides.y / 2), v2(p.sides.x, FOOT_THICKNESS as int))
}

/// One frame of player simulation: drag, input, gravity, axis-separated
/// resolution against the tiles, and the final position update. Returns the
/// new state and whether a jump was launched this frame.
#[verifier::opaque]
pub open spec fn spec_player_update(p: PlayerV, input: Input, dt: int, tiles: Seq<Tile>) -> (
    PlayerV,
    bool,
) {
    let vd = V2 { x: dragged_x(p.velocity.x, p.grounded, dt), y: p.velocity.y };
    let jumped = input.jump && p.grounded;
    let vi = spec_input_velocity(vd, p.grounded, input, dt);
    let vg = accelerated(vi, 0, GRAVITY_Y as int, dt);
    let dx = integrated(vg.x, dt);
    let dy = integrated(vg.y, dt);
    let xb = blocked(p.position, p.sides, v2(dx, 0), tiles);
    let yb = blocked(p.position, p.sides, v2(0, dy), tiles);
    let p2 = PlayerV {
        spawn: p.spawn,
        position: sat_pos(
            v2(
                p.position.x + if xb { 0 } else { dx },
                p.position.y + if yb { 0 } else { dy },
            ),
        ),
        sides: p.sides,
        velocity: v2(if xb { 0 } else { vg.x }, if yb { 0 } else { vg.y }),
        dead: p.dead,
        grounded: yb && vg.y < 0,
        crouched: input.down,
    };
    (p2, jumped)
}

/// The player after dying: flagged dead with velocity zeroed; dying again
/// changes nothing.
pub open spec fn spec_die(p: PlayerV) -> PlayerV {
    PlayerV { velocity: V2::origin(), dead: true, ..p }
}

/// The player after a stomp attempt on a target box, and whether it landed:
/// it lands exactly when the player is descending and the foot probe
/// overlaps the target, and then the player bounces at full jump speed.
pub open spec fn spec_attack(p: PlayerV, pos: V2, sides: V2) -> (PlayerV, bool) {
    let foot = spec_foot(p);
    let hit = p.velocity.y < 0 && spec_collides(foot.0, foot.1, pos, sides);
    (
        if hit {
            PlayerV { velocity: V2 { x: p.velocity.x, y: JUMP_SPEED as int }, ..p }
        } else {
            p
        },
        hit,
    )
}

/// The state of a freshly constructed player: at the world origin with the
/// default extents, at rest, alive and airborne.
pub open spec fn spec_player_new() -> PlayerV {
    PlayerV {
        spawn: V2::origin(),
        position: V2::origin(),
        sides: v2(900, 1800),
        velocity: V2::origin(),
        dead: false,
        grounded: false,
        crouched: false,
    }
}

impl Player {
    pub open spec fn wf(self) -> bool {
        self@.wf()
    }

    /// A player at the world origin with the default extents, at rest,
    /// alive and airborne.
    pub fn new() -> (p: Player)
        ensures
            p@ == spec_player_new(),
            p.wf(),
    {
        Player {
            spawn: Vec2i::new(0, 0),
            position: Vec2i::new(0, 0),
            sides: Vec2i::new(900, 1800),
            velocity: Vec2i::new(0, 0),
            dead: false,
            grounded: false,
            crouched: false,
        }
    }

    /// Whether the player stood on a tile at the end of the last update.
    pub fn grounded(&self) -> (g: bool)
        ensures
            g == self.grounded,
    {
        self.grounded
    }

    /// The extents used for drawing: crouching halves the height for this
    /// frame only.
    pub fn sides(&self) -> (s: Vec2i)
        requires
            self.wf(),
        ensures
            s@ == if self.crouched {
                v2(self@.sides.x, self@.sides.y / 2)
            } else {
                self@.sides
            },
    {
        if self.crouched {
            Vec2i::new(self.sides.x, ((self.sides.y as u64) / 2) as i64)
        } else {
            self.sides
        }
    }

    /// The body box used for hit checks, slightly smaller than the sprite.
    pub fn hitbox(&self) -> (h: Vec2i)
        requires
            self.wf(),
        ensures
            h@ == v2(self@.sides.x - 250, self@.sides.y - 250),
    {
        Vec2i::new(self.sides.x - 250, self.sides.y - 250)
    }

    /// The stomp probe box at the player's feet.
    pub fn foot_rect(&self) -> (r: (Vec2i, Vec2i))
        requires
            self.wf(),
        ensures
            (r.0@, r.1@) == spec_foot(self@),
    {
        let half: i64 = ((self.sides.y as u64) / 2) as i64;
        (Vec2i::new(self.position.x, self.position.y - half), Vec2i::new(self.sides.x, FOOT_THICKNESS))
    }

    /// Kill the player: set the dead flag and zero the velocity. Calling
    /// this on an already dead player changes nothing.
    pub fn die(&mut self)
        ensures
            final(self)@ == spec_die(old(self)@),
    {
        self.dead = true;
        self.velocity = Vec2i::new(0, 0);
    }

    /// Launch upward at full jump speed.
    fn jump(&mut self)
        ensures
            final(self)@ == (PlayerV {
                velocity: V2 { x: old(self)@.velocity.x, y: JUMP_SPEED as int },
                ..old(self)@
            }),
    {
        self.velocity.y = JUMP_SPEED;
    }

    /// Try a stomp on the target box at `position` with extents `sides`:
    /// while descending, a foot-probe overlap lands the attack and bounces
    /// the player upward at full jump speed.
    pub fn attack(&mut self, position: Vec2i, sides: Vec2i) -> (attacked: bool)
        requires
            old(self).wf(),
            geom_ok(position@),
            sides@.sides_ok(),
        ensures
            (final(self)@, attacked) == spec_attack(old(self)@, position@, sides@),
            final(self).wf(),
            attacked ==> final(self)@.velocity.y == JUMP_SPEED,
            !attacked ==> *final(self) == *old(self),
    {
        let (foot_pos, foot_rect) = self.foot_rect();
        let attacked = self.velocity.y < 0 && crate::physics::collides(
            foot_pos,
            foot_rect,
            position,
            sides,
        );
        if attacked {
            self.jump();
        }
        attacked
    }

    /// The input acceleration available this frame.
    fn speed(&self) -> (s: i64)
        ensures
            s == spec_speed(self.grounded),
    {
        if self.grounded {
            PLAYER_SPEED
        } else {
            AIR_SPEED
        }
    }

    /// Accelerate at `(ax, ay)` for `elapsed` microseconds, then clamp the
    /// velocity to the per-axis maxima.
    fn accelerate(&mut self, ax: i64, ay: i64, elapsed: i64)
        requires
            old(self).wf(),
            -100_000 <= ax <= 100_000,
            -100_000 <= ay <= 100_000,
            0 <= elapsed <= DT_MAX,
        ensures
            final(self)@ == (PlayerV {
                velocity: accelerated(old(self)@.velocity, ax as int, ay as int, elapsed as int),
                ..old(self)@
            }),
            final(self).wf(),
    {
        let dvx = integrate(ax, elapsed);
        let dvy = integrate(ay, elapsed);
        self.velocity.x = clamp_i64(self.velocity.x + dvx, -MAX_VELOCITY_X, MAX_VELOCITY_X);
        self.velocity.y = clamp_i64(self.velocity.y + dvy, -MAX_VELOCITY_Y, MAX_VELOCITY_Y);
    }

    /// Decay the horizontal speed toward zero while grounded and snap small
    /// magnitudes to exactly zero.
    fn apply_drag(&mut self, elapsed: i64)
        requires
            old(self).wf(),
            0 <= elapsed <= DT_MAX,
        ensures
            final(self)@ == (PlayerV {
                velocity: V2 {
                    x: dragged_x(old(self)@.velocity.x, old(self).grounded, elapsed as int),
                    y: old(self)@.velocity.y,
                },
                ..old(self)@
            }),
            final(self).wf(),
            sabs(final(self)@.velocity.x) <= sabs(old(self)@.velocity.x),
    {
        let vx = self.velocity.x;
        let m: i64 = if vx >= 0 {
            vx
        } else {
            -vx
        };
        let decay: i64 = if self.grounded {
            integrate(DRAG * m, elapsed)
        } else {
            0
        };
        let m1: i64 = if decay >= m {
            0
        } else {
            m - decay
        };
        let m2: i64 = if m1 < SNAP_SPEED {
            0
        } else {
            m1
        };
        self.velocity.x = if vx >= 0 {
            m2
        } else {
            -m2
        };
    }

    /// One frame of player simulation; pushes a jump cue when a jump is
    /// launched. Immediately after a downward collision is resolved the
    /// player is grounded with a vertical velocity of exactly zero, and
    /// with no horizontal key held the grounded horizontal speed never
    /// grows, snapping to zero once below the snap threshold.
    #[verifier::rlimit(50)]
    pub fn update(
        &mut self,
        input: &Input,
        elapsed: i64,
        tiles: &Vec<Tile>,
        sounds: &mut Vec<SoundEffect>,
    )
        requires
            old(self).wf(),
            0 <= elapsed <= DT_MAX,
            tiles_wf(tiles@),
        ensures
            final(self)@ == spec_player_update(old(self)@, *input, elapsed as int, tiles@).0,
            final(self).wf(),
            final(sounds)@ == if spec_player_update(old(self)@, *input, elapsed as int, tiles@).1 {
                old(sounds)@.push(SoundEffect::Jump)
            } else {
                old(sounds)@
            },
            final(self).grounded ==> final(self).velocity.y == 0,
            old(self).grounded && !input.left && !input.right ==> sabs(final(self)@.velocity.x)
                <= sabs(old(self)@.velocity.x),
            old(self).grounded && !input.left && !input.right && sabs(old(self)@.velocity.x)
                < SNAP_SPEED ==> final(self)@.velocity.x == 0,
    {
        proof {
            reveal(spec_player_update);
        }
        let ghost p0 = self@;
        let ghost dt = elapsed as int;

        self.apply_drag(elapsed);
        self.crouched = input.down;
        let ghost vd = V2 { x: dragged_x(p0.velocity.x, p0.grounded, dt), y: p0.velocity.y };
        assert(self@.velocity == vd);

        let was_grounded = self.grounded;
        if input.left {
            let s = self.speed();
            self.accelerate(-s, 0, elapsed);
        }
        if input.right {
            let s = self.speed();
            self.accelerate(s, 0, elapsed);
        }
        if input.jump && was_grounded {
            self.jump();
            sounds.push(SoundEffect::Jump);
        }
        if !input.jump && self.velocity.y > 0 {
            if self.velocity.y > HALF_JUMP_SPEED {
                self.velocity.y = HALF_JUMP_SPEED;
            }
        }
        assert(self@.velocity == spec_input_velocity(vd, p0.grounded, *input, dt));

        self.accelerate(0, GRAVITY_Y, elapsed);
        let ghost vg = accelerated(
            spec_input_velocity(vd, p0.grounded, *input, dt),
            0,
            GRAVITY_Y as int,
            dt,
        );
        assert(self@.velocity == vg);

        let dx = integrate(self.velocity.x, elapsed);
        let dy = integrate(self.velocity.y, elapsed);
        let xb = any_tile_hit(self.position, self.sides, Vec2i::new(dx, 0), tiles);
        let yb = any_tile_hit(self.position, self.sides, Vec2i::new(0, dy), tiles);

        self.grounded = yb && self.velocity.y < 0;
        if xb {
            self.velocity.x = 0;
        }
        if yb {
            self.velocity.y = 0;
        }
        let nx: i64 = if xb {
            self.position.x
        } else {
            self.position.x + dx
        };
        let ny: i64 = if yb {
            self.position.y
        } else {
            self.position.y + dy
        };
        self.position.x = clamp_i64(nx, -POS_LIMIT, POS_LIMIT);
        self.position.y = clamp_i64(ny, -POS_LIMIT, POS_LIMIT);

        assert(self@ == spec_player_update(p0, *input, dt, tiles@).0);
    }
}

} // verus!
