//! Tests of the player controller, the patrol enemy, and the boss.

use super_jeff::level::{Enemy, Tile};
use super_jeff::math::Vec2i;
use super_jeff::monkey::{Banana, Monkey, MonkeyDraws};
use super_jeff::player::{Input, Player};
use super_jeff::sound::SoundEffect;

/// One frame at sixty frames per second, in microseconds.
const FRAME: i64 = 16_667;

fn v(x: i64, y: i64) -> Vec2i {
    Vec2i::new(x, y)
}

fn tile(x: i64, y: i64) -> Tile {
    Tile { position: v(x, y), sides: v(1000, 1000) }
}

fn no_keys() -> Input {
    Input { left: false, right: false, down: false, jump: false }
}

fn draws() -> MonkeyDraws {
    MonkeyDraws { next_throw_us: 1_200_000, rage_threshold: 6, yvel_jitter: 0 }
}

#[test]
fn grounded_drag_decays_horizontal_speed() {
    let mut p = Player::new();
    p.grounded = true;
    p.velocity = v(5000, 0);
    let mut sounds: Vec<SoundEffect> = Vec::new();
    p.update(&no_keys(), FRAME, &vec![], &mut sounds);
    // decay = 3 * 5000 integrated over one frame = 250 steps per second
    assert_eq!(p.velocity.x, 4750);
    assert!(sounds.is_empty());
}

#[test]
fn airborne_speed_keeps_its_magnitude() {
    let mut p = Player::new();
    p.grounded = false;
    p.velocity = v(5000, 0);
    let mut sounds: Vec<SoundEffect> = Vec::new();
    p.update(&no_keys(), FRAME, &vec![], &mut sounds);
    assert_eq!(p.velocity.x, 5000);
}

#[test]
fn slow_grounded_speed_snaps_to_exact_zero() {
    let mut p = Player::new();
    p.grounded = true;
    p.velocity = v(99, 0);
    let mut sounds: Vec<SoundEffect> = Vec::new();
    p.update(&no_keys(), FRAME, &vec![], &mut sounds);
    assert_eq!(p.velocity.x, 0);
}

#[test]
fn jump_launches_only_from_the_ground() {
    let jump = Input { left: false, right: false, down: false, jump: true };
    let mut p = Player::new();
    p.grounded = true;
    let mut sounds: Vec<SoundEffect> = Vec::new();
    p.update(&jump, FRAME, &vec![], &mut sounds);
    // full jump speed minus one frame of gravity
    assert_eq!(p.velocity.y, 15_000 - 416);
    assert_eq!(sounds, vec![SoundEffect::Jump]);

    let mut q = Player::new();
    q.grounded = false;
    let mut qsounds: Vec<SoundEffect> = Vec::new();
    q.update(&jump, FRAME, &vec![], &mut qsounds);
    assert_eq!(q.velocity.y, -416);
    assert!(qsounds.is_empty());
}

#[test]
fn released_jump_key_caps_the_ascent() {
    let mut p = Player::new();
    p.velocity = v(0, 15_000);
    let mut sounds: Vec<SoundEffect> = Vec::new();
    p.update(&no_keys(), FRAME, &vec![], &mut sounds);
    // capped at half the jump speed, then one frame of gravity
    assert_eq!(p.velocity.y, 7500 - 416);
}

#[test]
fn landing_grounds_the_player_with_zero_vertical_speed() {
    // A player at rest a hundredth of a world unit above a tile. The first
    // frame falls freely (gravity moves it less than the gap); the second
    // frame's displacement reaches the tile, which grounds the player,
    // zeroes the vertical speed, and leaves the position unchanged.
    let tiles = vec![tile(0, 0)];
    let mut p = Player::new();
    p.position = v(0, 1410);
    let mut sounds: Vec<SoundEffect> = Vec::new();
    p.update(&no_keys(), FRAME, &tiles, &mut sounds);
    assert!(!p.grounded());
    assert_eq!(p.position.y, 1404);
    p.update(&no_keys(), FRAME, &tiles, &mut sounds);
    assert!(p.grounded());
    assert_eq!(p.velocity.y, 0);
    assert_eq!(p.position.y, 1404);
}

#[test]
fn crouching_halves_the_drawn_height_for_one_frame() {
    let down = Input { left: false, right: false, down: true, jump: false };
    let mut p = Player::new();
    let mut sounds: Vec<SoundEffect> = Vec::new();
    p.update(&down, FRAME, &vec![], &mut sounds);
    assert_eq!(p.sides().y, 900);
    p.update(&no_keys(), FRAME, &vec![], &mut sounds);
    assert_eq!(p.sides().y, 1800);
}

#[test]
fn dying_twice_changes_nothing() {
    let mut p = Player::new();
    p.velocity = v(4000, -2000);
    p.die();
    assert!(p.dead);
    assert_eq!(p.velocity, v(0, 0));
    p.die();
    assert!(p.dead);
    assert_eq!(p.velocity, v(0, 0));
}

#[test]
fn enemy_reverses_at_a_wall() {
    // An enemy walking left along a floor, with a wall tile ahead.
    let tiles = vec![tile(0, 0), tile(-1300, 2000)];
    let mut e = Enemy::new();
    e.position = v(0, 2000);
    assert_eq!(e.velocity.x, -5000);
    e.update(FRAME, &tiles);
    assert_eq!(e.velocity.x, 5000);
}

#[test]
fn enemy_reverses_at_a_ledge() {
    // An enemy walking left on a floor that ends beneath it.
    let tiles = vec![tile(0, 0)];
    let mut e = Enemy::new();
    e.position = v(0, 2000);
    // Ground ahead: keeps walking left.
    e.update(FRAME, &tiles);
    assert_eq!(e.velocity.x, -5000);
    // Far past the floor's edge, the probe finds no ground: reverses.
    e.position = v(-2400, 2000);
    e.update(FRAME, &tiles);
    assert_eq!(e.velocity.x, 5000);
}

#[test]
fn dead_enemy_stays_at_rest_forever() {
    let mut e = Enemy::new();
    e.position = v(500, 700);
    e.damage(1);
    assert!(e.dead());
    assert_eq!(e.velocity, v(0, 0));
    for _ in 0..5 {
        e.update(FRAME, &vec![]);
        assert_eq!(e.velocity, v(0, 0));
        assert_eq!(e.position, v(500, 700));
    }
    // A dead enemy takes no further damage.
    e.damage(3);
    assert_eq!(e.health, 0);
}

#[test]
fn boss_damage_rages_and_escalates() {
    let mut m = Monkey::new();
    let hit = m.damage(1);
    assert!(hit);
    assert_eq!(m.health, 2);
    assert!(m.enraged);
    assert_eq!(m.bananas_thrown, 0);
    // charge speed grew by one step
    assert_eq!(m.rage_velocity, v(-20_000, 0));
}

#[test]
fn enraged_boss_is_invulnerable() {
    let mut m = Monkey::new();
    m.enraged = true;
    let before_health = m.health;
    let before_rage = m.rage_velocity;
    let hit = m.damage(1);
    assert!(!hit);
    assert_eq!(m.health, before_health);
    assert_eq!(m.rage_velocity, before_rage);
    assert!(m.enraged);
}

#[test]
fn boss_dies_at_rest_without_raging() {
    let mut m = Monkey::new();
    m.health = 1;
    let hit = m.damage(1);
    assert!(hit);
    assert_eq!(m.health, 0);
    assert!(m.dead());
    assert!(!m.enraged);
    assert_eq!(m.velocity, v(0, 0));
    // Subsequent updates are no-ops for the boss itself.
    let mut sounds: Vec<SoundEffect> = Vec::new();
    for _ in 0..3 {
        m.step(FRAME, v(0, 0), &vec![], &draws(), &mut sounds);
        assert_eq!(m.velocity, v(0, 0));
        assert_eq!(m.position, v(0, 0));
        assert_eq!(m.health, 0);
    }
    assert!(sounds.is_empty());
    // Damage cannot reach a dead boss either.
    assert!(!m.damage(1));
    assert_eq!(m.health, 0);
}

#[test]
fn boss_throws_at_a_target_in_reach() {
    let mut m = Monkey::new();
    m.ai_time_us = 2_000_000;
    let mut sounds: Vec<SoundEffect> = Vec::new();
    m.step(FRAME, v(10_000, 0), &vec![], &draws(), &mut sounds);
    assert_eq!(sounds, vec![SoundEffect::Banana]);
    assert_eq!(m.bananas_thrown, 1);
    assert_eq!(m.ai_time_us, 0);
    assert_eq!(m.next_throw_us, 1_200_000);
    assert_eq!(m.bananas.len(), 1);
    let b: Banana = m.bananas[0];
    // Launch speeds from the ballistic formula, then one frame of flight.
    assert_eq!(b.velocity, v(14_705, 8084));
    assert_eq!(b.position, v(1245, -866));
}

#[test]
fn boss_holds_fire_when_target_is_out_of_range() {
    let mut m = Monkey::new();
    m.ai_time_us = 2_000_000;
    let mut sounds: Vec<SoundEffect> = Vec::new();
    m.step(FRAME, v(30_000, 0), &vec![], &draws(), &mut sounds);
    assert!(sounds.is_empty());
    assert_eq!(m.bananas.len(), 0);
    // The pause until the next throw was still redrawn.
    assert_eq!(m.next_throw_us, 1_200_000);
    assert_eq!(m.ai_time_us, 0);
}

#[test]
fn boss_rages_after_enough_throws() {
    let mut m = Monkey::new();
    m.bananas_thrown = 7;
    let mut sounds: Vec<SoundEffect> = Vec::new();
    m.step(FRAME, v(0, 0), &vec![], &draws(), &mut sounds);
    assert_eq!(sounds, vec![SoundEffect::Rage]);
    assert!(m.enraged);
    assert_eq!(m.bananas_thrown, 0);
    assert_eq!(m.bananas_before_rage, 6);
}

#[test]
fn enraged_boss_charges_after_its_delay() {
    let mut m = Monkey::new();
    m.enraged = true;
    m.ai_time_us = 750_000;
    let mut sounds: Vec<SoundEffect> = Vec::new();
    m.step(FRAME, v(0, 0), &vec![], &draws(), &mut sounds);
    assert_eq!(m.velocity, v(-15_000, 0));
    assert_eq!(m.position, v(-250, 0));
    assert!(m.enraged);
}

#[test]
fn charging_boss_stops_and_turns_at_a_wall() {
    let tiles = vec![tile(-1400, 0)];
    let mut m = Monkey::new();
    m.enraged = true;
    m.ai_time_us = 750_000;
    let mut sounds: Vec<SoundEffect> = Vec::new();
    m.step(FRAME, v(0, 0), &tiles, &draws(), &mut sounds);
    assert!(!m.enraged);
    assert_eq!(m.velocity, v(0, 0));
    assert_eq!(m.position, v(0, 0));
    assert_eq!(m.rage_velocity, v(15_000, 0));
    assert_eq!(m.ai_time_us, 0);
}

#[test]
fn projectile_descends_once_past_its_apex() {
    let mut m = Monkey::new();
    m.bananas.push(Banana { position: v(0, 5000), sides: v(800, 400), velocity: v(0, -1000) });
    let mut sounds: Vec<SoundEffect> = Vec::new();
    let mut last_y = 5000;
    for _ in 0..10 {
        m.step(FRAME, v(100_000, 0), &vec![], &draws(), &mut sounds);
        let y = m.bananas[0].position.y;
        assert!(y < last_y);
        assert!(m.bananas[0].velocity.y < 0);
        last_y = y;
    }
}

#[test]
fn probe_boxes_have_the_documented_shapes() {
    let p = Player::new();
    let (fp, fr) = p.foot_rect();
    assert_eq!(fp, v(0, -900));
    assert_eq!(fr, v(900, 200));
    assert_eq!(p.hitbox(), v(650, 1550));
    let m = Monkey::new();
    let (hp, hr) = m.head();
    assert_eq!(hp, v(0, 1777));
    assert_eq!(hr, v(2000, 500));
    assert_eq!(m.hitbox(), v(1750, 3500));
    let e = Enemy::new();
    let (ep, er) = e.head();
    assert_eq!(ep, v(0, 1500));
    assert_eq!(er, v(1500, 200));
}

#[test]
fn boss_facing_follows_its_charge_while_enraged() {
    let mut m = Monkey::new();
    assert!(m.right());
    m.enraged = true;
    assert!(m.right());
    m.rage_velocity = v(15_000, 0);
    assert!(!m.right());
}
