//! Static level geometry, the patrolling ground enemy, and the session
//! that owns every entity and drives each frame.

use vstd::prelude::*;
use crate::math::{clamp_i64, clamped, integrate, integrated, sabs, sat_pos, v2, Vec2i, V2,
    DT_MAX, POS_LIMIT, TIME_CAP, UNIT};
use crate::physics::{blocked, any_tile_hit, collides, spec_collides};
use crate::player::{Player, PlayerV, Input, spec_player_update, spec_die, spec_attack};
use crate::monkey::{Monkey, MonkeyV, Banana, BananaV, MonkeyDraws, spec_monkey_step,
    spec_monkey_damage, spec_monkey_head, spec_bananas};
use crate::rng::GameRng;
use crate::sound::SoundEffect;

verus! {

/// Patrol speed magnitude of a freshly spawned enemy, in steps per second.
pub const ENEMY_SPEED: i64 = 5_000;

/// Largest patrol speed magnitude the enemy update accepts.
pub const PATROL_SPEED_MAX: i64 = 100_000;

/// How far below the leading edge the ledge probe reaches, in steps.
pub const LEDGE_PROBE_DOWN: i64 = 200;

/// Vertical thickness of an enemy's stompable head box, in steps.
pub const ENEMY_HEAD_THICKNESS: i64 = 200;

/// Full width and height of one square tile, in coordinate steps.
pub const TILE_SIDE: i64 = 1000;

/// One immovable square of level geometry, centered at `position`.
#[derive(Clone, Copy, Debug, PartialEq, Eq, Structural)]
pub struct Tile {
    pub position: Vec2i,
    pub sides: Vec2i,
}

/// The mathematical value of a tile.
pub ghost struct TileV {
    pub position: V2,
    pub sides: V2,
}

impl View for Tile {
    type V = TileV;

    open spec fn view(&self) -> TileV {
        TileV { position: self.position@, sides: self.sides@ }
    }
}

impl Tile {
    /// A tile's center stays in the position range and its extents are
    /// valid box extents.
    pub open spec fn wf(self) -> bool {
        self@.position.pos_ok() && self@.sides.sides_ok()
    }
}

/// Every tile of the sequence is well-formed.
pub open spec fn tiles_wf(tiles: Seq<Tile>) -> bool {
    forall|i: int| 0 <= i < tiles.len() ==> (#[trigger] tiles[i]).wf()
}

/// A ground patroller: it walks at a constant speed, reversing at walls and
/// ledges, dies to a single stomp, and then stays as an inert corpse.
#[derive(Clone, Copy, Debug)]
pub struct Enemy {
    pub spawn: Vec2i,
    pub position: Vec2i,
    pub sides: Vec2i,
    pub velocity: Vec2i,
    pub health: i32,
}

/// The mathematical value of an enemy.
pub ghost struct EnemyV {
    pub spawn: V2,
    pub position: V2,
    pub sides: V2,
    pub velocity: V2,
    pub health: int,
}

impl View for Enemy {
    type V = EnemyV;

    open spec fn view(&self) -> EnemyV {
        EnemyV {
            spawn: self.spawn@,
            position: self.position@,
            sides: self.sides@,
            velocity: self.velocity@,
            health: self.health as int,
        }
    }
}

impl EnemyV {
    /// Dead means out of health.
    pub open spec fn dead(self) -> bool {
        self.health <= 0
    }

    /// Positions and extents in range, a horizontal bounded patrol
    /// velocity, health never negative, and a dead enemy at rest.
    pub open spec fn wf(self) -> bool {
        &&& self.spawn.pos_ok()
        &&& self.position.pos_ok()
        &&& self.sides.sides_ok()
        &&& sabs(self.velocity.x) <= PATROL_SPEED_MAX
        &&& self.velocity.y == 0
        &&& 0 <= self.health
        &&& (self.dead() ==> self.velocity == V2::origin())
    }
}

/// One frame of patrol: the enemy reverses if the frame's displacement
/// would hit a wall or if the ground probe one unit ahead of it and just
/// below finds no tile (a ledge), then moves by its (possibly reversed)
/// velocity.
pub open spec fn spec_enemy_update(e: EnemyV, dt: int, tiles: Seq<Tile>) -> EnemyV {
    let dx = integrated(e.velocity.x, dt);
    let dy = integrated(e.velocity.y, dt);
    let wall = blocked(e.position, e.sides, v2(dx, dy), tiles);
    let ahead = if e.velocity.x >= 0 {
        UNIT as int
    } else {
        -UNIT as int
    };
    let ground = blocked(e.position, e.sides, v2(ahead, -LEDGE_PROBE_DOWN as int), tiles);
    let vel = if wall || !ground {
        v2(-e.velocity.x, -e.velocity.y)
    } else {
        e.velocity
    };
    EnemyV {
        position: sat_pos(
            v2(e.position.x + integrated(vel.x, dt), e.position.y + integrated(vel.y, dt)),
        ),
        velocity: vel,
        ..e
    }
}

/// An enemy's stompable head box.
pub open spec fn spec_enemy_head(e: EnemyV) -> (V2, V2) {
    (
        v2(e.position.x, e.position.y + e.sides.y / 2),
        v2(e.sides.x, ENEMY_HEAD_THICKNESS as int),
    )
}

/// A damage call: a dead enemy is out of reach; otherwise health drops by
/// the amount (never below zero) and a kill leaves the enemy at rest.
pub open spec fn spec_enemy_damage(e: EnemyV, amount: int) -> EnemyV {
    if e.dead() {
        e
    } else {
        let h = if e.health - amount < 0 {
            0int
        } else {
            e.health - amount
        };
        EnemyV {
            health: h,
            velocity: if h <= 0 {
                V2::origin()
            } else {
                e.velocity
            },
            ..e
        }
    }
}

/// The state of a freshly spawned enemy: at the origin with the default
/// extents, patrolling left, with one health.
pub open spec fn spec_enemy_new() -> EnemyV {
    EnemyV {
        spawn: V2::origin(),
        position: V2::origin(),
        sides: v2(1500, 3000),
        velocity: v2(-ENEMY_SPEED as int, 0),
        health: 1,
    }
}

impl Enemy {
    pub open spec fn wf(self) -> bool {
        self@.wf()
    }

    /// An enemy at the origin with the default extents, patrolling left,
    /// with one health.
    pub fn new() -> (e: Enemy)
        ensures
            e@ == spec_enemy_new(),
            e.wf(),
    {
        Enemy {
            spawn: Vec2i::new(0, 0),
            position: Vec2i::new(0, 0),
            sides: Vec2i::new(1500, 3000),
            velocity: Vec2i::new(-ENEMY_SPEED, 0),
            health: 1,
        }
    }

    pub fn dead(&self) -> (d: bool)
        ensures
            d == self@.dead(),
    {
        self.health <= 0
    }

    /// The stompable head box.
    pub fn head(&self) -> (r: (Vec2i, Vec2i))
        requires
            self.wf(),
        ensures
            (r.0@, r.1@) == spec_enemy_head(self@),
    {
        let half: i64 = ((self.sides.y as u64) / 2) as i64;
        (
            Vec2i::new(self.position.x, self.position.y + half),
            Vec2i::new(self.sides.x, ENEMY_HEAD_THICKNESS),
        )
    }

    /// Apply damage: health drops by the amount (never below zero) and a
    /// kill zeroes the velocity for good; a dead enemy is out of reach.
    pub fn damage(&mut self, damage: i32)
        requires
            old(self).wf(),
            0 <= damage,
        ensures
            final(self)@ == spec_enemy_damage(old(self)@, damage as int),
            final(self).wf(),
            final(self)@.health <= old(self)@.health,
            old(self)@.dead() ==> *final(self) == *old(self),
    {
        if self.health <= 0 {
            return ;
        }
        if damage >= self.health {
            self.health = 0;
        } else {
            self.health = self.health - damage;
        }
        if self.health <= 0 {
            self.velocity = Vec2i::new(0, 0);
        }
    }

    /// One frame of patrol simulation. A dead enemy never moves again: its
    /// velocity stays the zero vector and its position stays put.
    pub fn update(&mut self, elapsed: i64, tiles: &Vec<Tile>)
        requires
            old(self).wf(),
            0 <= elapsed <= DT_MAX,
            tiles_wf(tiles@),
        ensures
            final(self)@ == spec_enemy_update(old(self)@, elapsed as int, tiles@),
            final(self).wf(),
            old(self)@.dead() ==> final(self)@.velocity == V2::origin() && final(self)@.position
                == old(self)@.position,
    {
        let dx = integrate(self.velocity.x, elapsed);
        let dy = integrate(self.velocity.y, elapsed);
        let wall = any_tile_hit(self.position, self.sides, Vec2i::new(dx, dy), tiles);
        let ahead: i64 = if self.velocity.x >= 0 {
            UNIT
        } else {
            -UNIT
        };
        let ground = any_tile_hit(
            self.position,
            self.sides,
            Vec2i::new(ahead, -LEDGE_PROBE_DOWN),
            tiles,
        );
        if wall || !ground {
            self.velocity.x = -self.velocity.x;
            self.velocity.y = -self.velocity.y;
        }
        let ndx = integrate(self.velocity.x, elapsed);
        let ndy = integrate(self.velocity.y, elapsed);
        self.position.x = clamp_i64(self.position.x + ndx, -POS_LIMIT, POS_LIMIT);
        self.position.y = clamp_i64(self.position.y + ndy, -POS_LIMIT, POS_LIMIT);
        proof {
            if old(self)@.dead() {
                assert(old(self)@.velocity == V2::origin());
                assert(self@.velocity.x * (elapsed as int) == 0) by (nonlinear_arith)
                    requires
                        self@.velocity.x == 0,
                ;
                vstd::arithmetic::div_mod::lemma_div_of0(crate::math::TIME_SCALE as int);
            }
        }
    }
}

/// The mathematical values of a list of enemies.
pub open spec fn spec_enemies(es: Seq<Enemy>) -> Seq<EnemyV> {
    es.map_values(|e: Enemy| e@)
}

/// Every enemy of the sequence is well-formed.
pub open spec fn enemies_wf(es: Seq<EnemyV>) -> bool {
    forall|i: int| 0 <= i < es.len() ==> (#[trigger] es[i]).wf()
}

/// One patrol frame for each enemy in order.
pub open spec fn spec_enemies_update(es: Seq<EnemyV>, dt: int, tiles: Seq<Tile>) -> Seq<EnemyV>
    decreases es.len(),
{
    if es.len() == 0 {
        Seq::empty()
    } else {
        seq![spec_enemy_update(es[0], dt, tiles)] + spec_enemies_update(es.drop_first(), dt, tiles)
    }
}

pub proof fn lemma_enemies_update_index(es: Seq<EnemyV>, dt: int, tiles: Seq<Tile>, i: int)
    requires
        0 <= i < es.len(),
    ensures
        spec_enemies_update(es, dt, tiles).len() == es.len(),
        spec_enemies_update(es, dt, tiles)[i] == spec_enemy_update(es[i], dt, tiles),
    decreases es.len(),
{
    lemma_enemies_update_len(es, dt, tiles);
    lemma_enemies_update_len(es.drop_first(), dt, tiles);
    if i > 0 {
        lemma_enemies_update_index(es.drop_first(), dt, tiles, i - 1);
    }
}

pub proof fn lemma_enemies_update_len(es: Seq<EnemyV>, dt: int, tiles: Seq<Tile>)
    ensures
        spec_enemies_update(es, dt, tiles).len() == es.len(),
    decreases es.len(),
{
    if es.len() > 0 {
        lemma_enemies_update_len(es.drop_first(), dt, tiles);
    }
}

/// Player-versus-boss resolution: skipped entirely for a dead boss; a stomp
/// on the head box preempts lethal body contact and deals one damage,
/// sounding a hit (or a click against an invulnerable, enraged boss);
/// otherwise body overlap kills the player.
#[verifier::opaque]
pub open spec fn spec_combat_boss(p: PlayerV, m: MonkeyV) -> (PlayerV, MonkeyV, Seq<SoundEffect>) {
    if m.dead() {
        (p, m, Seq::empty())
    } else {
        let head = spec_monkey_head(m);
        let att = spec_attack(p, head.0, head.1);
        if att.1 {
            let dmg = spec_monkey_damage(m, 1);
            (
                att.0,
                dmg.0,
                if dmg.1 {
                    seq![SoundEffect::Hit]
                } else {
                    seq![SoundEffect::Click]
                },
            )
        } else if spec_collides(p.position, p.sides, m.position, m.sides) {
            (spec_die(att.0), m, seq![SoundEffect::Dead])
        } else {
            (att.0, m, Seq::empty())
        }
    }
}

/// Player-versus-projectiles: any body overlap kills the player, one death
/// cue per overlapping projectile, with no stomp exception.
pub open spec fn spec_banana_hits(p: PlayerV, bs: Seq<BananaV>) -> (PlayerV, Seq<SoundEffect>)
    decreases bs.len(),
{
    if bs.len() == 0 {
        (p, Seq::empty())
    } else {
        let hit = spec_collides(p.position, p.sides, bs[0].position, bs[0].sides);
        let p1 = if hit {
            spec_die(p)
        } else {
            p
        };
        let s1: Seq<SoundEffect> = if hit {
            seq![SoundEffect::Dead]
        } else {
            Seq::empty()
        };
        let rest = spec_banana_hits(p1, bs.drop_first());
        (rest.0, s1 + rest.1)
    }
}

/// Player-versus-one-enemy: dead enemies are inert; a stomp deals one
/// damage and scores a hundred points exactly when it kills; otherwise body
/// overlap kills the player.
pub open spec fn spec_enemy_combat_one(p: PlayerV, e: EnemyV, score: int) -> (
    PlayerV,
    EnemyV,
    int,
    Seq<SoundEffect>,
) {
    if e.dead() {
        (p, e, score, Seq::empty())
    } else {
        let head = spec_enemy_head(e);
        let att = spec_attack(p, head.0, head.1);
        if att.1 {
            let e2 = spec_enemy_damage(e, 1);
            let sc = if e2.dead() {
                sat_score(score + 100)
            } else {
                score
            };
            (att.0, e2, sc, seq![SoundEffect::Hit])
        } else if spec_collides(p.position, p.sides, e.position, e.sides) {
            (spec_die(att.0), e, score, seq![SoundEffect::Dead])
        } else {
            (att.0, e, score, Seq::empty())
        }
    }
}

/// Player-versus-enemies, in order.
pub open spec fn spec_enemy_combat(p: PlayerV, es: Seq<EnemyV>, score: int) -> (
    PlayerV,
    Seq<EnemyV>,
    int,
    Seq<SoundEffect>,
)
    decreases es.len(),
{
    if es.len() == 0 {
        (p, Seq::empty(), score, Seq::empty())
    } else {
        let one = spec_enemy_combat_one(p, es[0], score);
        let rest = spec_enemy_combat(one.0, es.drop_first(), one.2);
        (rest.0, seq![one.1] + rest.1, rest.2, one.3 + rest.3)
    }
}

/// The projectiles that survive a prune against the lower world bound, in
/// order: exactly those still strictly above it.
pub open spec fn spec_pruned(bs: Seq<BananaV>, miny: int) -> Seq<BananaV>
    decreases bs.len(),
{
    if bs.len() == 0 {
        Seq::empty()
    } else {
        let rest = spec_pruned(bs.drop_first(), miny);
        if bs[0].position.y > miny {
            seq![bs[0]] + rest
        } else {
            rest
        }
    }
}

/// The score counter saturates here.
pub const SCORE_CAP: i64 = 1_000_000_000_000_000;

/// A score increment limited to the counter's range.
pub open spec fn sat_score(s: int) -> int {
    if s > SCORE_CAP {
        SCORE_CAP as int
    } else {
        s
    }
}

/// One patrol frame for every enemy, in place.
fn update_enemies(enemies: &mut Vec<Enemy>, elapsed: i64, tiles: &Vec<Tile>)
    requires
        enemies_wf(spec_enemies(old(enemies)@)),
        0 <= elapsed <= DT_MAX,
        tiles_wf(tiles@),
    ensures
        spec_enemies(final(enemies)@) == spec_enemies_update(
            spec_enemies(old(enemies)@),
            elapsed as int,
            tiles@,
        ),
        enemies_wf(spec_enemies(final(enemies)@)),
{
    let ghost es0 = enemies@;
    proof {
        assert forall|j: int| 0 <= j < es0.len() implies (#[trigger] es0[j])@.wf() by {
            assert(spec_enemies(es0)[j] == es0[j]@);
        }
    }
    let n = enemies.len();
    let mut i: usize = 0;
    while i < n
        invariant
            0 <= i <= n,
            n == enemies@.len(),
            es0.len() == n,
            0 <= elapsed <= DT_MAX,
            tiles_wf(tiles@),
            forall|j: int| 0 <= j < es0.len() ==> (#[trigger] es0[j])@.wf(),
            forall|j: int| 0 <= j < i ==> (#[trigger] enemies@[j])@ == spec_enemy_update(
                es0[j]@,
                elapsed as int,
                tiles@,
            ),
            forall|j: int| 0 <= j < i ==> (#[trigger] enemies@[j])@.wf(),
            forall|j: int| i <= j < n ==> #[trigger] enemies@[j] == es0[j],
        decreases n - i,
    {
        let mut e = enemies[i];
        proof {
            assert(e == es0[i as int]);
        }
        e.update(elapsed, tiles);
        *vstd::std_specs::vec::vec_index_mut(enemies, i) = e;
        i += 1;
    }
    proof {
        lemma_enemies_update_len(spec_enemies(es0), elapsed as int, tiles@);
        assert forall|j: int| 0 <= j < n implies spec_enemies(enemies@)[j] == spec_enemies_update(
            spec_enemies(es0),
            elapsed as int,
            tiles@,
        )[j] by {
            lemma_enemies_update_index(spec_enemies(es0), elapsed as int, tiles@, j);
        }
        assert(spec_enemies(enemies@) =~= spec_enemies_update(
            spec_enemies(es0),
            elapsed as int,
            tiles@,
        ));
    }
}

/// Resolve the player against the boss for this frame.
fn combat_boss(p: &mut Player, m: &mut Monkey, sounds: &mut Vec<SoundEffect>)
    requires
        old(p).wf(),
        old(m).wf(),
    ensures
        ({
            let r = spec_combat_boss(old(p)@, old(m)@);
            final(p)@ == r.0 && final(m)@ == r.1 && final(sounds)@ == old(sounds)@ + r.2
        }),
        final(p).wf(),
        final(m).wf(),
{
    proof {
        reveal(spec_combat_boss);
    }
    let ghost s0 = sounds@;
    if !m.dead() {
        let (hp, hr) = m.head();
        let att = p.attack(hp, hr);
        if att {
            let hit = m.damage(1);
            if hit {
                sounds.push(SoundEffect::Hit);
            } else {
                sounds.push(SoundEffect::Click);
            }
        } else if collides(p.position, p.sides, m.position, m.sides) {
            p.die();
            sounds.push(SoundEffect::Dead);
        }
    }
    proof {
        assert(sounds@ =~= s0 + spec_combat_boss(old(p)@, old(m)@).2);
    }
}

/// Resolve the player against every projectile for this frame.
fn banana_hits(p: &mut Player, bananas: &Vec<Banana>, sounds: &mut Vec<SoundEffect>)
    requires
        old(p).wf(),
        forall|i: int| 0 <= i < bananas@.len() ==> (#[trigger] bananas@[i])@.wf(),
    ensures
        ({
            let r = spec_banana_hits(old(p)@, spec_bananas(bananas@));
            final(p)@ == r.0 && final(sounds)@ == old(sounds)@ + r.1
        }),
        final(p).wf(),
{
    let ghost bs = spec_bananas(bananas@);
    let ghost full = spec_banana_hits(old(p)@, bs);
    let ghost s0 = sounds@;
    let n = bananas.len();
    let mut i: usize = 0;
    proof {
        assert(bs.skip(0) =~= bs);
    }
    while i < n
        invariant
            0 <= i <= n,
            n == bananas@.len(),
            bs == spec_bananas(bananas@),
            forall|j: int| 0 <= j < n ==> (#[trigger] bananas@[j])@.wf(),
            p.wf(),
            full == spec_banana_hits(old(p)@, bs),
            sounds@.len() >= s0.len(),
            sounds@.take(s0.len() as int) == s0,
            full.0 == spec_banana_hits(p@, bs.skip(i as int)).0,
            full.1 == sounds@.skip(s0.len() as int) + spec_banana_hits(p@, bs.skip(i as int)).1,
        decreases n - i,
    {
        let ghost p_pre = p@;
        let ghost s_pre = sounds@;
        let ghost rem = spec_banana_hits(p_pre, bs.skip(i as int));
        let b = bananas[i];
        if collides(p.position, p.sides, b.position, b.sides) {
            p.die();
            sounds.push(SoundEffect::Dead);
        }
        proof {
            assert(bs.skip(i as int).drop_first() =~= bs.skip(i + 1));
            assert(bs.skip(i as int)[0] == b@);
            assert(rem.0 == spec_banana_hits(p@, bs.skip(i + 1)).0);
            assert(rem.1 =~= (sounds@.skip(s_pre.len() as int)) + spec_banana_hits(
                p@,
                bs.skip(i + 1),
            ).1);
            assert(sounds@.take(s0.len() as int) =~= s0);
            assert(sounds@.skip(s0.len() as int) =~= s_pre.skip(s0.len() as int) + sounds@.skip(
                s_pre.len() as int,
            ));
            assert(full.1 =~= sounds@.skip(s0.len() as int) + spec_banana_hits(
                p@,
                bs.skip(i + 1),
            ).1);
        }
        i += 1;
    }
    proof {
        assert(bs.skip(n as int) =~= Seq::<BananaV>::empty());
        assert(full.0 == p@);
        assert(sounds@ =~= s0 + sounds@.skip(s0.len() as int));
        assert(full.1 =~= sounds@.skip(s0.len() as int));
        assert(sounds@ =~= s0 + full.1);
    }
}

/// Resolve the player against every enemy for this frame, scoring kills.
fn enemy_combat(
    p: &mut Player,
    enemies: &mut Vec<Enemy>,
    score: &mut i64,
    sounds: &mut Vec<SoundEffect>,
)
    requires
        old(p).wf(),
        enemies_wf(spec_enemies(old(enemies)@)),
        0 <= *old(score) <= SCORE_CAP,
    ensures
        ({
            let r = spec_enemy_combat(old(p)@, spec_enemies(old(enemies)@), *old(score) as int);
            final(p)@ == r.0 && spec_enemies(final(enemies)@) == r.1 && *final(score) as int == r.2
                && final(sounds)@ == old(sounds)@ + r.3
        }),
        final(p).wf(),
        enemies_wf(spec_enemies(final(enemies)@)),
        0 <= *final(score) <= SCORE_CAP,
{
    let ghost es = spec_enemies(old(enemies)@);
    let ghost full = spec_enemy_combat(old(p)@, es, *old(score) as int);
    let ghost s0 = sounds@;
    let n = enemies.len();
    let mut i: usize = 0;
    proof {
        assert(es.skip(0) =~= es);
        assert(Seq::new(0, |j: int| enemies@[j]@) =~= Seq::<EnemyV>::empty());
        assert(full.1 =~= Seq::new(0, |j: int| enemies@[j]@) + spec_enemy_combat(
            p@,
            es.skip(0),
            *score as int,
        ).1);
    }
    while i < n
        invariant
            0 <= i <= n,
            n == enemies@.len(),
            es == spec_enemies(old(enemies)@),
            es.len() == n,
            enemies_wf(es),
            full == spec_enemy_combat(old(p)@, es, *old(score) as int),
            p.wf(),
            0 <= *score <= SCORE_CAP,
            forall|j: int| 0 <= j < i ==> (#[trigger] enemies@[j])@.wf(),
            forall|j: int| i <= j < n ==> #[trigger] enemies@[j] == old(enemies)@[j],
            sounds@.len() >= s0.len(),
            sounds@.take(s0.len() as int) == s0,
            full.0 == spec_enemy_combat(p@, es.skip(i as int), *score as int).0,
            full.2 == spec_enemy_combat(p@, es.skip(i as int), *score as int).2,
            full.1 =~= Seq::new(i as nat, |j: int| enemies@[j]@) + spec_enemy_combat(
                p@,
                es.skip(i as int),
                *score as int,
            ).1,
            full.3 =~= sounds@.skip(s0.len() as int) + spec_enemy_combat(
                p@,
                es.skip(i as int),
                *score as int,
            ).3,
        decreases n - i,
    {
        let ghost p_pre = p@;
        let ghost sc_pre = *score as int;
        let ghost s_pre = sounds@;
        let ghost rem = spec_enemy_combat(p_pre, es.skip(i as int), sc_pre);
        let ghost one = spec_enemy_combat_one(p_pre, es[i as int], sc_pre);
        let mut e = enemies[i];
        proof {
            assert(e == old(enemies)@[i as int]);
            assert(spec_enemies(old(enemies)@)[i as int] == e@);
            assert(e@.wf());
            assert(es[i as int] == e@);
        }
        if !e.dead() {
            let (hp, hr) = e.head();
            let att = p.attack(hp, hr);
            if att {
                e.damage(1);
                sounds.push(SoundEffect::Hit);
                if e.dead() {
                    if *score + 100 > SCORE_CAP {
                        *score = SCORE_CAP;
                    } else {
                        *score = *score + 100;
                    }
                }
            } else if collides(p.position, p.sides, e.position, e.sides) {
                p.die();
                sounds.push(SoundEffect::Dead);
            }
        }
        *vstd::std_specs::vec::vec_index_mut(enemies, i) = e;
        proof {
            assert(es.skip(i as int).drop_first() =~= es.skip(i + 1));
            assert(es.skip(i as int)[0] == es[i as int]);
            assert(p@ == one.0 && e@ == one.1 && *score as int == one.2);
            assert(sounds@ =~= s_pre + one.3);
            assert(rem.0 == spec_enemy_combat(p@, es.skip(i + 1), *score as int).0);
            assert(rem.2 == spec_enemy_combat(p@, es.skip(i + 1), *score as int).2);
            assert(rem.1 =~= seq![e@] + spec_enemy_combat(p@, es.skip(i + 1), *score as int).1);
            assert(rem.3 =~= one.3 + spec_enemy_combat(p@, es.skip(i + 1), *score as int).3);
            assert(Seq::new((i + 1) as nat, |j: int| enemies@[j]@) =~= Seq::new(
                i as nat,
                |j: int| enemies@[j]@,
            ) + seq![e@]);
            assert(full.1 =~= Seq::new((i + 1) as nat, |j: int| enemies@[j]@) + spec_enemy_combat(
                p@,
                es.skip(i + 1),
                *score as int,
            ).1);
            assert(sounds@.take(s0.len() as int) =~= s0);
            assert(sounds@.skip(s0.len() as int) =~= s_pre.skip(s0.len() as int) + one.3);
            assert(full.3 =~= sounds@.skip(s0.len() as int) + spec_enemy_combat(
                p@,
                es.skip(i + 1),
                *score as int,
            ).3);
        }
        i += 1;
    }
    proof {
        assert(es.skip(n as int) =~= Seq::<EnemyV>::empty());
        assert(full.0 == p@);
        assert(full.2 == *score as int);
        assert(spec_enemies(enemies@) =~= Seq::new(n as nat, |j: int| enemies@[j]@));
        assert(full.1 =~= spec_enemies(enemies@));
        assert(full.3 =~= sounds@.skip(s0.len() as int));
        assert(sounds@ =~= s0 + sounds@.skip(s0.len() as int));
        assert(sounds@ =~= s0 + full.3);
    }
}

/// Remove every projectile at or below the lower world bound, keeping the
/// order of the rest.
fn prune_bananas(bananas: &mut Vec<Banana>, miny: i64)
    requires
        forall|i: int| 0 <= i < old(bananas)@.len() ==> (#[trigger] old(bananas)@[i])@.wf(),
    ensures
        spec_bananas(final(bananas)@) == spec_pruned(spec_bananas(old(bananas)@), miny as int),
        forall|i: int| 0 <= i < final(bananas)@.len() ==> (#[trigger] final(bananas)@[i])@.wf(),
{
    let ghost bs = spec_bananas(old(bananas)@);
    let ghost full = spec_pruned(bs, miny as int);
    let mut kept: Vec<Banana> = Vec::new();
    let n = bananas.len();
    let mut i: usize = 0;
    proof {
        assert(bs.skip(0) =~= bs);
        assert(spec_bananas(kept@) =~= Seq::<BananaV>::empty());
    }
    while i < n
        invariant
            0 <= i <= n,
            n == bananas@.len(),
            bs == spec_bananas(bananas@),
            full == spec_pruned(bs, miny as int),
            full =~= spec_bananas(kept@) + spec_pruned(bs.skip(i as int), miny as int),
            forall|j: int| 0 <= j < n ==> (#[trigger] bananas@[j])@.wf(),
            forall|j: int| 0 <= j < kept@.len() ==> (#[trigger] kept@[j])@.wf(),
        decreases n - i,
    {
        let ghost kept_pre = spec_bananas(kept@);
        let b = bananas[i];
        if b.position.y > miny {
            kept.push(b);
        }
        proof {
            assert(bs.skip(i as int).drop_first() =~= bs.skip(i + 1));
            assert(bs.skip(i as int)[0] == b@);
            if b.position.y > miny {
                assert(spec_bananas(kept@) =~= kept_pre.push(b@));
                assert(kept_pre.push(b@) =~= kept_pre + seq![b@]);
                assert(spec_pruned(bs.skip(i as int), miny as int) =~= seq![b@] + spec_pruned(
                    bs.skip(i + 1),
                    miny as int,
                ));
            }
            assert(full =~= spec_bananas(kept@) + spec_pruned(bs.skip(i + 1), miny as int));
        }
        i += 1;
    }
    proof {
        assert(bs.skip(n as int) =~= Seq::<BananaV>::empty());
        assert(full =~= spec_bananas(kept@));
    }
    *bananas = kept;
}


/// One grid row applied to a level under construction, left to right.
fn apply_row_cells(l: &mut Level, row: &Vec<u8>, y: usize, bx: i64, by: i64)
    requires
        old(l).wf(),
        y <= GRID_MAX,
        row@.len() <= GRID_MAX,
        0 <= bx <= GRID_MAX,
        0 <= by <= GRID_MAX,
        old(l)@.monkey.sides.y >= TILE_SIDE,
        old(l)@.player.sides.y >= TILE_SIDE,
    ensures
        final(l)@ == spec_apply_row(old(l)@, row@, y as int, bx as int, by as int),
        final(l).wf(),
        final(l)@.monkey.sides == old(l)@.monkey.sides,
        final(l)@.player.sides == old(l)@.player.sides,
{
    let ghost l0 = l@;
    let n = row.len();
    let mut x: usize = 0;
    proof {
        assert(row@.take(0) =~= Seq::<u8>::empty());
    }
    while x < n
        invariant
            0 <= x <= n,
            n == row@.len(),
            n <= GRID_MAX,
            y <= GRID_MAX,
            0 <= bx <= GRID_MAX,
            0 <= by <= GRID_MAX,
            l@ == spec_apply_row(l0, row@.take(x as int), y as int, bx as int, by as int),
            l.wf(),
            l@.monkey.sides == l0.monkey.sides,
            l@.player.sides == l0.player.sides,
            l0.monkey.sides.y >= TILE_SIDE,
            l0.player.sides.y >= TILE_SIDE,
        decreases n - x,
    {
        let c = row[x];
        let ghost lpre = l@;
        let wx: i64 = 1000 * (x as i64) - 500 * bx + 500;
        let wy: i64 = -1000 * (y as i64) + 500 * by - 500;
        if c == CELL_TILE_LEFT || c == CELL_TILE_CENTER || c == CELL_TILE_RIGHT
            || c == CELL_TILE_BOTTOM {
            let t = Tile { position: Vec2i::new(wx, wy), sides: Vec2i::new(TILE_SIDE, TILE_SIDE) };
            l.tiles.push(t);
        } else if c == CELL_TRAP {
            l.trap = Vec2i::new(wx, wy);
        } else if c == CELL_ENEMY {
            let mut e = Enemy::new();
            let off: i64 = (((e.sides.y - TILE_SIDE) as u64) / 2) as i64;
            e.spawn = Vec2i::new(wx, wy + off);
            e.position = e.spawn;
            let ghost es_pre = l.enemies@;
            l.enemies.push(e);
            proof {
                assert(spec_enemies(l.enemies@) =~= spec_enemies(es_pre).push(e@));
            }
        } else if c == CELL_MONKEY {
            let off: i64 = (((l.monkey.sides.y - TILE_SIDE) as u64) / 2) as i64;
            l.monkey.spawn = Vec2i::new(wx, wy + off);
            l.monkey.position = l.monkey.spawn;
        } else if c == CELL_PLAYER {
            let off: i64 = (((l.player.sides.y - TILE_SIDE) as u64) / 2) as i64;
            l.player.spawn = Vec2i::new(wx, wy + off);
            l.player.position = l.player.spawn;
        }
        proof {
            assert(row@.take(x as int + 1).drop_last() =~= row@.take(x as int));
            assert(row@.take(x as int + 1).last() == c);
            assert(l@ == spec_apply_cell(lpre, c, x as int, y as int, bx as int, by as int));
        }
        x += 1;
    }
    proof {
        assert(row@.take(n as int) =~= row@);
    }
}

/// The whole session: every entity, the static geometry, the world bounds,
/// the trap latch, the score, and the session clock.
#[derive(Debug)]
pub struct Level {
    pub started: bool,
    pub bounds: Vec2i,
    pub tiles: Vec<Tile>,
    pub enemies: Vec<Enemy>,
    pub player: Player,
    pub monkey: Monkey,
    pub trapped: bool,
    pub trap: Vec2i,
    pub score: i64,
    pub elapsed_us: i64,
    pub final_time_us: i64,
    pub boss_scored: bool,
}

/// The mathematical value of the session state.
pub ghost struct LevelV {
    pub started: bool,
    pub bounds: V2,
    pub tiles: Seq<Tile>,
    pub enemies: Seq<EnemyV>,
    pub player: PlayerV,
    pub monkey: MonkeyV,
    pub trapped: bool,
    pub trap: V2,
    pub score: int,
    pub elapsed_us: int,
    pub final_time_us: int,
    pub boss_scored: bool,
}

impl View for Level {
    type V = LevelV;

    open spec fn view(&self) -> LevelV {
        LevelV {
            started: self.started,
            bounds: self.bounds@,
            tiles: self.tiles@,
            enemies: spec_enemies(self.enemies@),
            player: self.player@,
            monkey: self.monkey@,
            trapped: self.trapped,
            trap: self.trap@,
            score: self.score as int,
            elapsed_us: self.elapsed_us as int,
            final_time_us: self.final_time_us as int,
            boss_scored: self.boss_scored,
        }
    }
}

impl LevelV {
    /// Valid bounds and trap, well-formed geometry and entities, and the
    /// score and clocks within their ranges.
    pub open spec fn wf(self) -> bool {
        &&& self.bounds.sides_ok()
        &&& self.trap.pos_ok()
        &&& tiles_wf(self.tiles)
        &&& enemies_wf(self.enemies)
        &&& self.player.wf()
        &&& self.monkey.wf()
        &&& 0 <= self.score <= SCORE_CAP
        &&& 0 <= self.elapsed_us <= TIME_CAP
        &&& 0 <= self.final_time_us <= TIME_CAP
    }

    /// The lower-left corner of the world.
    pub open spec fn min_bounds(self) -> V2 {
        v2(-(self.bounds.x / 2), -(self.bounds.y / 2))
    }

    /// The upper-right corner of the world.
    pub open spec fn max_bounds(self) -> V2 {
        v2(self.bounds.x / 2, self.bounds.y / 2)
    }
}

/// The state of a freshly constructed, empty, unstarted session.
pub open spec fn spec_level_new() -> LevelV {
    LevelV {
        started: false,
        bounds: V2::origin(),
        tiles: Seq::empty(),
        enemies: Seq::empty(),
        player: crate::player::spec_player_new(),
        monkey: crate::monkey::spec_monkey_new(),
        trapped: false,
        trap: V2::origin(),
        score: 0,
        elapsed_us: 0,
        final_time_us: 0,
        boss_scored: false,
    }
}

/// One frame of the whole session, in the fixed order: skip everything
/// unless running; advance the session clock; update the player, then the
/// boss (aiming at the fresh player position), then the trap latch, then
/// every enemy; kill a player fallen below the world; resolve combat
/// against the boss (awarding the boss bonus once, when it dies), the
/// projectiles, and the enemies; finally prune fallen projectiles. The
/// elapsed time is clamped defensively to `[0, DT_MAX]`.
pub open spec fn spec_level_update(l: LevelV, input: Input, dt0: int, draws: MonkeyDraws) -> (
    LevelV,
    Seq<SoundEffect>,
) {
    let dt = clamped(dt0, 0, DT_MAX as int);
    if !l.started || l.player.dead {
        (l, Seq::empty())
    } else {
        spec_level_run(l, input, dt, draws)
    }
}

/// The running part of a frame, with the elapsed time already clamped.
#[verifier::opaque]
pub open spec fn spec_level_run(l: LevelV, input: Input, dt: int, draws: MonkeyDraws) -> (
    LevelV,
    Seq<SoundEffect>,
) {
    let elapsed1 = if l.elapsed_us + dt > TIME_CAP {
        TIME_CAP as int
    } else {
        l.elapsed_us + dt
    };
    let pu = spec_player_update(l.player, input, dt, l.tiles);
    let s1: Seq<SoundEffect> = if pu.1 {
        seq![SoundEffect::Jump]
    } else {
        Seq::empty()
    };
    let ms = spec_monkey_step(l.monkey, dt, pu.0.position, l.tiles, draws);
    let trapped1 = l.trapped || pu.0.position.x > l.trap.x;
    let es1 = spec_enemies_update(l.enemies, dt, l.tiles);
    let minb_y = l.min_bounds().y;
    let fell = pu.0.position.y < minb_y - 2 * pu.0.sides.y;
    let p2 = if fell {
        spec_die(pu.0)
    } else {
        pu.0
    };
    let s3: Seq<SoundEffect> = if fell {
        seq![SoundEffect::Fall]
    } else {
        Seq::empty()
    };
    let cb = spec_combat_boss(p2, ms.0);
    let scored = cb.1.dead() && !l.boss_scored;
    let score1 = if scored {
        sat_score(l.score + 500)
    } else {
        l.score
    };
    let bh = spec_banana_hits(cb.0, cb.1.bananas);
    let ec = spec_enemy_combat(bh.0, es1, score1);
    (
        LevelV {
            started: l.started,
            bounds: l.bounds,
            tiles: l.tiles,
            enemies: ec.1,
            player: ec.0,
            monkey: MonkeyV { bananas: spec_pruned(cb.1.bananas, minb_y), ..cb.1 },
            trapped: trapped1,
            trap: l.trap,
            score: ec.2,
            elapsed_us: elapsed1,
            final_time_us: if scored {
                elapsed1
            } else {
                l.final_time_us
            },
            boss_scored: l.boss_scored || scored,
        },
        s1 + ms.1 + s3 + cb.2 + bh.1 + ec.3,
    )
}


/// Glue for one running frame: a state and sound queue built piecewise in
/// the orchestrator's order equal the frame spec's result.
proof fn lemma_run_frame_assembly(
    l0: LevelV,
    input: Input,
    dt: int,
    draws: MonkeyDraws,
    lf: LevelV,
    s0: Seq<SoundEffect>,
    sf: Seq<SoundEffect>,
)
    requires
        ({
            let elapsed1 = if l0.elapsed_us + dt > TIME_CAP {
                TIME_CAP as int
            } else {
                l0.elapsed_us + dt
            };
            let pu = spec_player_update(l0.player, input, dt, l0.tiles);
            let s1: Seq<SoundEffect> = if pu.1 {
                seq![SoundEffect::Jump]
            } else {
                Seq::empty()
            };
            let ms = spec_monkey_step(l0.monkey, dt, pu.0.position, l0.tiles, draws);
            let trapped1 = l0.trapped || pu.0.position.x > l0.trap.x;
            let es1 = spec_enemies_update(l0.enemies, dt, l0.tiles);
            let minb_y = l0.min_bounds().y;
            let fell = pu.0.position.y < minb_y - 2 * pu.0.sides.y;
            let p2 = if fell {
                spec_die(pu.0)
            } else {
                pu.0
            };
            let s3: Seq<SoundEffect> = if fell {
                seq![SoundEffect::Fall]
            } else {
                Seq::empty()
            };
            let cb = spec_combat_boss(p2, ms.0);
            let scored = cb.1.dead() && !l0.boss_scored;
            let score1 = if scored {
                sat_score(l0.score + 500)
            } else {
                l0.score
            };
            let bh = spec_banana_hits(cb.0, cb.1.bananas);
            let ec = spec_enemy_combat(bh.0, es1, score1);
            &&& lf == (LevelV {
                started: l0.started,
                bounds: l0.bounds,
                tiles: l0.tiles,
                enemies: ec.1,
                player: ec.0,
                monkey: (MonkeyV { bananas: spec_pruned(cb.1.bananas, minb_y), ..cb.1 }),
                trapped: trapped1,
                trap: l0.trap,
                score: ec.2,
                elapsed_us: elapsed1,
                final_time_us: if scored {
                    elapsed1
                } else {
                    l0.final_time_us
                },
                boss_scored: l0.boss_scored || scored,
            })
            &&& sf == (((((s0 + s1) + ms.1) + s3) + cb.2) + bh.1) + ec.3
        }),
    ensures
        lf == spec_level_run(l0, input, dt, draws).0,
        sf == s0 + spec_level_run(l0, input, dt, draws).1,
{
    reveal(spec_level_run);
    let pu = spec_player_update(l0.player, input, dt, l0.tiles);
    let s1: Seq<SoundEffect> = if pu.1 {
        seq![SoundEffect::Jump]
    } else {
        Seq::empty()
    };
    let ms = spec_monkey_step(l0.monkey, dt, pu.0.position, l0.tiles, draws);
    let minb_y = l0.min_bounds().y;
    let fell = pu.0.position.y < minb_y - 2 * pu.0.sides.y;
    let p2 = if fell {
        spec_die(pu.0)
    } else {
        pu.0
    };
    let s3: Seq<SoundEffect> = if fell {
        seq![SoundEffect::Fall]
    } else {
        Seq::empty()
    };
    let cb = spec_combat_boss(p2, ms.0);
    let scored = cb.1.dead() && !l0.boss_scored;
    let score1 = if scored {
        sat_score(l0.score + 500)
    } else {
        l0.score
    };
    let bh = spec_banana_hits(cb.0, cb.1.bananas);
    let ec = spec_enemy_combat(bh.0, spec_enemies_update(l0.enemies, dt, l0.tiles), score1);
    assert(sf =~= s0 + (s1 + ms.1 + s3 + cb.2 + bh.1 + ec.3));
}


/// The grid bytes that lay a tile, each drawn with its own sprite by a
/// renderer; the simulation treats them alike.
pub const CELL_TILE_LEFT: u8 = 91;

pub const CELL_TILE_CENTER: u8 = 61;

pub const CELL_TILE_RIGHT: u8 = 93;

pub const CELL_TILE_BOTTOM: u8 = 35;

/// The grid byte that places the trap line.
pub const CELL_TRAP: u8 = 64;

/// The grid byte that spawns a patrolling enemy.
pub const CELL_ENEMY: u8 = 69;

/// The grid byte that places the boss spawn.
pub const CELL_MONKEY: u8 = 77;

/// The grid byte that places the player spawn.
pub const CELL_PLAYER: u8 = 83;

/// Rows and row lengths of a level grid are bounded by this many cells.
pub const GRID_MAX: i64 = 1_000_000;

/// The mathematical values of the byte rows of a level grid.
pub open spec fn spec_rows(rs: Seq<Vec<u8>>) -> Seq<Seq<u8>> {
    rs.map_values(|r: Vec<u8>| r@)
}

/// The width of a grid in cells: the length of its longest row.
pub open spec fn spec_grid_cols(g: Seq<Seq<u8>>) -> int
    decreases g.len(),
{
    if g.len() == 0 {
        0
    } else {
        let rest = spec_grid_cols(g.drop_last());
        if g.last().len() > rest {
            g.last().len() as int
        } else {
            rest
        }
    }
}

/// The height of a grid in cells: one past the index of its last row that
/// holds any byte at all.
pub open spec fn spec_grid_rows(g: Seq<Seq<u8>>) -> int
    decreases g.len(),
{
    if g.len() == 0 {
        0
    } else if g.last().len() > 0 {
        g.len() as int
    } else {
        spec_grid_rows(g.drop_last())
    }
}

/// One grid cell applied to a level under construction. The cell at column
/// `x` of row `y`, in a grid `bx` cells wide and `by` tall, sits at a world
/// position measured from the grid's center; a bracket, wall or floor byte
/// lays a tile there, and the marker bytes place the trap line, an enemy,
/// the boss, or the player, each lifted so its box rests on the cell.
pub open spec fn spec_apply_cell(l: LevelV, c: u8, x: int, y: int, bx: int, by: int) -> LevelV {
    let wx = 1000 * x - 500 * bx + 500;
    let wy = -1000 * y + 500 * by - 500;
    if c == CELL_TILE_LEFT || c == CELL_TILE_CENTER || c == CELL_TILE_RIGHT || c == CELL_TILE_BOTTOM {
        LevelV {
            tiles: l.tiles.push(
                Tile {
                    position: Vec2i { x: wx as i64, y: wy as i64 },
                    sides: Vec2i { x: TILE_SIDE, y: TILE_SIDE },
                },
            ),
            ..l
        }
    } else if c == CELL_TRAP {
        LevelV { trap: v2(wx, wy), ..l }
    } else if c == CELL_ENEMY {
        let p = v2(wx, wy + (spec_enemy_new().sides.y - TILE_SIDE) / 2);
        LevelV { enemies: l.enemies.push(EnemyV { spawn: p, position: p, ..spec_enemy_new() }), ..l }
    } else if c == CELL_MONKEY {
        let p = v2(wx, wy + (l.monkey.sides.y - TILE_SIDE) / 2);
        LevelV { monkey: MonkeyV { spawn: p, position: p, ..l.monkey }, ..l }
    } else if c == CELL_PLAYER {
        let p = v2(wx, wy + (l.player.sides.y - TILE_SIDE) / 2);
        LevelV { player: PlayerV { spawn: p, position: p, ..l.player }, ..l }
    } else {
        l
    }
}

/// One grid row applied cell by cell, left to right.
pub open spec fn spec_apply_row(l: LevelV, row: Seq<u8>, y: int, bx: int, by: int) -> LevelV
    decreases row.len(),
{
    if row.len() == 0 {
        l
    } else {
        spec_apply_cell(
            spec_apply_row(l, row.drop_last(), y, bx, by),
            row.last(),
            row.len() - 1,
            y,
            bx,
            by,
        )
    }
}

/// A whole grid applied row by row, top to bottom.
pub open spec fn spec_apply_rows(l: LevelV, g: Seq<Seq<u8>>, bx: int, by: int) -> LevelV
    decreases g.len(),
{
    if g.len() == 0 {
        l
    } else {
        spec_apply_row(spec_apply_rows(l, g.drop_last(), bx, by), g.last(), g.len() - 1, bx, by)
    }
}

/// The level a byte grid describes: an unstarted session whose bounds come
/// from the grid's size and whose tiles, trap, and spawns come from its
/// cells.
pub open spec fn spec_from_rows(g: Seq<Seq<u8>>) -> LevelV {
    let bx = spec_grid_cols(g);
    let by = spec_grid_rows(g);
    spec_apply_rows(
        LevelV { bounds: v2(1000 * bx, 1000 * by), ..spec_level_new() },
        g,
        bx,
        by,
    )
}

impl Level {
    pub open spec fn wf(self) -> bool {
        self@.wf()
    }

    /// An empty, unstarted session.
    pub fn new() -> (l: Level)
        ensures
            l@ == spec_level_new(),
            l.wf(),
    {
        let l = Level {
            started: false,
            bounds: Vec2i::new(0, 0),
            tiles: Vec::new(),
            enemies: Vec::new(),
            player: Player::new(),
            monkey: Monkey::new(),
            trapped: false,
            trap: Vec2i::new(0, 0),
            score: 0,
            elapsed_us: 0,
            final_time_us: 0,
            boss_scored: false,
        };
        proof {
            assert(l@.tiles =~= Seq::<Tile>::empty());
            assert(l@.enemies =~= Seq::<EnemyV>::empty());
        }
        l
    }

    /// The lower-left corner of the world.
    pub fn min_bounds(&self) -> (r: Vec2i)
        requires
            self@.bounds.sides_ok(),
        ensures
            r@ == self@.min_bounds(),
    {
        Vec2i::new(
            -(((self.bounds.x as u64) / 2) as i64),
            -(((self.bounds.y as u64) / 2) as i64),
        )
    }

    /// The upper-right corner of the world.
    pub fn max_bounds(&self) -> (r: Vec2i)
        requires
            self@.bounds.sides_ok(),
        ensures
            r@ == self@.max_bounds(),
    {
        Vec2i::new((((self.bounds.x as u64) / 2) as i64), (((self.bounds.y as u64) / 2) as i64))
    }

    /// Whether the session is running.
    pub fn started(&self) -> (s: bool)
        ensures
            s == self.started,
    {
        self.started
    }

    /// Arm the session: simulation runs from here on and the session clock
    /// starts from zero.
    pub fn start(&mut self)
        ensures
            final(self)@ == (LevelV { started: true, elapsed_us: 0, ..old(self)@ }),
    {
        self.started = true;
        self.elapsed_us = 0;
    }

    /// One frame of the whole session with the random draws supplied by the
    /// caller. A session that is not running, or whose player is dead, is
    /// left exactly as it is.
    pub fn step(
        &mut self,
        input: &Input,
        elapsed: i64,
        draws: &MonkeyDraws,
        sounds: &mut Vec<SoundEffect>,
    )
        requires
            old(self).wf(),
            draws.valid(),
        ensures
            final(self)@ == spec_level_update(old(self)@, *input, elapsed as int, *draws).0,
            final(sounds)@ == old(sounds)@ + spec_level_update(
                old(self)@,
                *input,
                elapsed as int,
                *draws,
            ).1,
            final(self).wf(),
            !old(self).started || old(self).player.dead ==> *final(self) == *old(self)
                && final(sounds)@ == old(sounds)@,
    {
        let ghost s0 = sounds@;
        let dt = clamp_i64(elapsed, 0, DT_MAX);
        if !self.started || self.player.dead {
            proof {
                assert(sounds@ =~= s0 + spec_level_update(
                    self@,
                    *input,
                    elapsed as int,
                    *draws,
                ).1);
            }
            return ;
        }
        self.run_frame(input, dt, draws, sounds);
    }

    /// The running part of one frame, after the elapsed-time clamp.
    #[verifier::rlimit(100)]
    #[verifier::spinoff_prover]
    fn run_frame(
        &mut self,
        input: &Input,
        dt: i64,
        draws: &MonkeyDraws,
        sounds: &mut Vec<SoundEffect>,
    )
        requires
            old(self).wf(),
            old(self).started,
            !old(self).player.dead,
            draws.valid(),
            0 <= dt <= DT_MAX,
        ensures
            final(self)@ == spec_level_run(old(self)@, *input, dt as int, *draws).0,
            final(sounds)@ == old(sounds)@ + spec_level_run(old(self)@, *input, dt as int, *draws).1,
            final(self).wf(),
    {
        let ghost l0 = self@;
        let ghost s0 = sounds@;
        let ghost dti = dt as int;
        if self.elapsed_us + dt > TIME_CAP {
            self.elapsed_us = TIME_CAP;
        } else {
            self.elapsed_us = self.elapsed_us + dt;
        }

        self.player.update(input, dt, &self.tiles, sounds);
        let ghost pu = spec_player_update(l0.player, *input, dti, l0.tiles);
        let ghost s_after_player = sounds@;
        proof {
            assert(self.player@ == pu.0);
            assert(s_after_player =~= s0 + if pu.1 {
                seq![SoundEffect::Jump]
            } else {
                Seq::<SoundEffect>::empty()
            });
        }

        let target = self.player.position;
        self.monkey.step(dt, target, &self.tiles, draws, sounds);
        let ghost ms = spec_monkey_step(l0.monkey, dti, pu.0.position, l0.tiles, *draws);
        proof {
            assert(self.monkey@ == ms.0);
        }

        if self.player.position.x > self.trap.x {
            self.trapped = true;
        }

        update_enemies(&mut self.enemies, dt, &self.tiles);
        proof {
            assert(spec_enemies(self.enemies@) == spec_enemies_update(l0.enemies, dti, l0.tiles));
        }

        let half_bound_y: i64 = ((self.bounds.y as u64) / 2) as i64;
        let minb_y: i64 = -half_bound_y;
        let line: i64 = minb_y - 2 * self.player.sides.y;
        if self.player.position.y < line {
            sounds.push(SoundEffect::Fall);
            self.player.die();
        }
        let ghost p2 = self.player@;
        let ghost s_after_fall = sounds@;

        combat_boss(&mut self.player, &mut self.monkey, sounds);
        let ghost cb = spec_combat_boss(p2, ms.0);
        proof {
            assert(self.player@ == cb.0 && self.monkey@ == cb.1);
        }

        if self.monkey.dead() && !self.boss_scored {
            if self.score + 500 > SCORE_CAP {
                self.score = SCORE_CAP;
            } else {
                self.score = self.score + 500;
            }
            self.boss_scored = true;
            self.final_time_us = self.elapsed_us;
        }

        proof {
            assert forall|i: int| 0 <= i < self.monkey.bananas@.len() implies (
            #[trigger] self.monkey.bananas@[i])@.wf() by {
                assert(self.monkey@.bananas[i] == self.monkey.bananas@[i]@);
            }
        }
        banana_hits(&mut self.player, &self.monkey.bananas, sounds);
        let ghost bh = spec_banana_hits(cb.0, cb.1.bananas);
        proof {
            assert(self.player@ == bh.0);
        }

        enemy_combat(&mut self.player, &mut self.enemies, &mut self.score, sounds);

        prune_bananas(&mut self.monkey.bananas, minb_y);

        proof {
            let es1 = spec_enemies_update(l0.enemies, dti, l0.tiles);
            let scored = cb.1.dead() && !l0.boss_scored;
            let score1 = if scored {
                sat_score(l0.score + 500)
            } else {
                l0.score
            };
            let ec = spec_enemy_combat(bh.0, es1, score1);
            let s1: Seq<SoundEffect> = if pu.1 {
                seq![SoundEffect::Jump]
            } else {
                Seq::empty()
            };
            let s3: Seq<SoundEffect> = if pu.0.position.y < l0.min_bounds().y - 2 * pu.0.sides.y {
                seq![SoundEffect::Fall]
            } else {
                Seq::empty()
            };
            assert(self.player@ == ec.0);
            assert(spec_enemies(self.enemies@) == ec.1);
            assert(self.score as int == ec.2);
            assert(self.monkey@ == (MonkeyV {
                bananas: spec_pruned(cb.1.bananas, l0.min_bounds().y),
                ..cb.1
            }));
            assert(s_after_fall =~= ((s0 + s1) + ms.1) + s3);
            assert(sounds@ == (((((s0 + s1) + ms.1) + s3) + cb.2) + bh.1) + ec.3);
            lemma_run_frame_assembly(l0, *input, dti, *draws, self@, s0, sounds@);
        }
    }

    /// Build a level from the byte rows of a level grid: tiles, trap line,
    /// and spawn points as the cell bytes describe them, with world bounds
    /// derived from the grid's size.
    pub fn from_rows(rows: &Vec<Vec<u8>>) -> (l: Level)
        requires
            rows@.len() <= GRID_MAX,
            forall|i: int| 0 <= i < rows@.len() ==> (#[trigger] rows@[i])@.len() <= GRID_MAX,
        ensures
            l@ == spec_from_rows(spec_rows(rows@)),
            l.wf(),
    {
        let ghost g = spec_rows(rows@);
        let n = rows.len();
        let mut bx: i64 = 0;
        let mut by: i64 = 0;
        let mut i: usize = 0;
        proof {
            assert(g.take(0) =~= Seq::<Seq<u8>>::empty());
        }
        while i < n
            invariant
                0 <= i <= n,
                n == rows@.len(),
                n <= GRID_MAX,
                g == spec_rows(rows@),
                forall|j: int| 0 <= j < rows@.len() ==> (#[trigger] rows@[j])@.len() <= GRID_MAX,
                bx == spec_grid_cols(g.take(i as int)),
                by == spec_grid_rows(g.take(i as int)),
                0 <= bx <= GRID_MAX,
                0 <= by <= i,
            decreases n - i,
        {
            let len_i = rows[i].len();
            proof {
                assert(g.take(i as int + 1).drop_last() =~= g.take(i as int));
                assert(g.take(i as int + 1).last() == rows@[i as int]@);
                assert(rows@[i as int]@.len() <= GRID_MAX);
            }
            if (len_i as i64) > bx {
                bx = len_i as i64;
            }
            if len_i > 0 {
                by = (i as i64) + 1;
            }
            i += 1;
        }
        proof {
            assert(g.take(n as int) =~= g);
        }
        let mut l = Level::new();
        l.bounds = Vec2i::new(1000 * bx, 1000 * by);
        let ghost base = LevelV { bounds: v2(1000 * bx, 1000 * by), ..spec_level_new() };
        proof {
            assert(l@ == base);
            assert(g.take(0) =~= Seq::<Seq<u8>>::empty());
        }
        let mut y: usize = 0;
        while y < n
            invariant
                0 <= y <= n,
                n == rows@.len(),
                n <= GRID_MAX,
                g == spec_rows(rows@),
                forall|j: int| 0 <= j < rows@.len() ==> (#[trigger] rows@[j])@.len() <= GRID_MAX,
                0 <= bx <= GRID_MAX,
                0 <= by <= GRID_MAX,
                l@ == spec_apply_rows(base, g.take(y as int), bx as int, by as int),
                l.wf(),
                l@.monkey.sides.y >= TILE_SIDE,
                l@.player.sides.y >= TILE_SIDE,
            decreases n - y,
        {
            let row = &rows[y];
            apply_row_cells(&mut l, row, y, bx, by);
            proof {
                assert(g.take(y as int + 1).drop_last() =~= g.take(y as int));
                assert(g.take(y as int + 1).last() == row@);
                assert(l@ == spec_apply_rows(base, g.take(y as int + 1), bx as int, by as int));
            }
            y += 1;
        }
        proof {
            assert(g.take(n as int) =~= g);
            assert(l@ == spec_from_rows(g));
        }
        l
    }

    /// One frame of the whole session, drawing the random values from the
    /// injected generator. Some valid draws explain whatever the frame did.
    pub fn update(
        &mut self,
        input: &Input,
        elapsed: i64,
        rng: &mut GameRng,
        sounds: &mut Vec<SoundEffect>,
    )
        requires
            old(self).wf(),
        ensures
            final(self).wf(),
            exists|d: MonkeyDraws|
                #[trigger] d.valid() && final(self)@ == spec_level_update(
                    old(self)@,
                    *input,
                    elapsed as int,
                    d,
                ).0 && final(sounds)@ == old(sounds)@ + spec_level_update(
                    old(self)@,
                    *input,
                    elapsed as int,
                    d,
                ).1,
            !old(self).started || old(self).player.dead ==> *final(self) == *old(self)
                && final(sounds)@ == old(sounds)@,
    {
        let nt = rng.sample_range(
            crate::monkey::THROW_WAIT_MIN_US as u64,
            crate::monkey::THROW_WAIT_MAX_US as u64,
        );
        let rt = rng.sample_range(
            crate::monkey::RAGE_COUNT_MIN as u64,
            crate::monkey::RAGE_COUNT_MAX as u64,
        );
        let jit = rng.sample_range(0, crate::monkey::THROW_JITTER_MAX as u64);
        let draws = MonkeyDraws {
            next_throw_us: nt as i64,
            rage_threshold: rt as i32,
            yvel_jitter: jit as i64,
        };
        assert(draws.valid());
        self.step(input, elapsed, &draws, sounds);
    }
}

} // verus!
