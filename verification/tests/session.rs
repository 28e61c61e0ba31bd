//! End-to-end tests of the session orchestrator and the grid parser.

use super_jeff::level::{Enemy, Level};
use super_jeff::monkey::Banana;
use super_jeff::math::Vec2i;
use super_jeff::monkey::MonkeyDraws;
use super_jeff::player::Input;
use super_jeff::rng::GameRng;
use super_jeff::sound::SoundEffect;

/// One frame at sixty frames per second, in microseconds.
const FRAME: i64 = 16_667;

fn v(x: i64, y: i64) -> Vec2i {
    Vec2i::new(x, y)
}

fn no_keys() -> Input {
    Input { left: false, right: false, down: false, jump: false }
}

fn draws() -> MonkeyDraws {
    MonkeyDraws { next_throw_us: 1_200_000, rage_threshold: 6, yvel_jitter: 0 }
}

/// A running session with the boss parked far away from the action.
fn arena() -> Level {
    let mut l = Level::new();
    l.monkey.position = v(100_000, 0);
    l.monkey.spawn = l.monkey.position;
    l.start();
    l
}

#[test]
fn unstarted_session_is_a_no_op() {
    let mut l = Level::new();
    l.player.position = v(123, 456);
    let mut sounds: Vec<SoundEffect> = Vec::new();
    l.step(&no_keys(), FRAME, &draws(), &mut sounds);
    assert!(sounds.is_empty());
    assert_eq!(l.player.position, v(123, 456));
    assert_eq!(l.elapsed_us, 0);
}

#[test]
fn stomp_kills_enemy_and_bounces_player() {
    let mut l = arena();
    l.player.position = v(0, 2450);
    l.player.velocity = v(0, -1000);
    let mut e = Enemy::new();
    e.position = v(0, 0);
    l.enemies.push(e);
    let mut sounds: Vec<SoundEffect> = Vec::new();
    l.step(&no_keys(), FRAME, &draws(), &mut sounds);
    assert_eq!(sounds, vec![SoundEffect::Hit]);
    assert_eq!(l.enemies[0].health, 0);
    assert_eq!(l.enemies[0].velocity, v(0, 0));
    // The stomp bounced the player at full jump speed in the same frame.
    assert_eq!(l.player.velocity.y, 15_000);
    assert!(!l.player.dead);
    assert_eq!(l.score, 100);
}

#[test]
fn body_contact_with_a_live_enemy_is_lethal() {
    let mut l = arena();
    l.player.position = v(0, 500);
    let mut e = Enemy::new();
    e.position = v(0, 0);
    l.enemies.push(e);
    let mut sounds: Vec<SoundEffect> = Vec::new();
    l.step(&no_keys(), FRAME, &draws(), &mut sounds);
    assert_eq!(sounds, vec![SoundEffect::Dead]);
    assert!(l.player.dead);
    assert_eq!(l.player.velocity, v(0, 0));
    assert_eq!(l.enemies[0].health, 1);
    assert_eq!(l.score, 0);
}

#[test]
fn falling_below_the_world_kills_once() {
    let mut l = arena();
    l.player.position = v(50_000, -3601);
    let mut sounds: Vec<SoundEffect> = Vec::new();
    l.step(&no_keys(), FRAME, &draws(), &mut sounds);
    assert_eq!(sounds, vec![SoundEffect::Fall]);
    assert!(l.player.dead);
    assert_eq!(l.player.velocity, v(0, 0));
    let after = l.player.position;
    // With the player dead the next frame simulates nothing at all.
    let mut more: Vec<SoundEffect> = Vec::new();
    l.step(&no_keys(), FRAME, &draws(), &mut more);
    assert!(more.is_empty());
    assert_eq!(l.player.position, after);
    assert_eq!(l.player.velocity, v(0, 0));
}

#[test]
fn trap_line_latches_for_good() {
    let mut l = arena();
    l.trap = v(1000, 0);
    l.player.position = v(50_000, 0);
    let mut sounds: Vec<SoundEffect> = Vec::new();
    l.step(&no_keys(), FRAME, &draws(), &mut sounds);
    assert!(l.trapped);
    // Retreating does not release the latch.
    l.player.position = v(0, 0);
    l.step(&no_keys(), FRAME, &draws(), &mut sounds);
    assert!(l.trapped);
}

#[test]
fn boss_bonus_is_scored_exactly_once() {
    let mut l = arena();
    l.player.position = v(50_000, 0);
    l.monkey.health = 1;
    l.monkey.damage(1);
    assert!(l.monkey.dead());
    let mut sounds: Vec<SoundEffect> = Vec::new();
    l.step(&no_keys(), FRAME, &draws(), &mut sounds);
    assert_eq!(l.score, 500);
    assert_eq!(l.final_time_us, FRAME);
    l.step(&no_keys(), FRAME, &draws(), &mut sounds);
    assert_eq!(l.score, 500);
    assert_eq!(l.final_time_us, FRAME);
}

#[test]
fn boss_stomp_during_rage_only_clicks() {
    let mut l = arena();
    // Park the player right above the boss's head, descending.
    l.monkey.enraged = true;
    let head_y = 4000 * 4 / 9;
    l.player.position = v(100_000, head_y + 900 + 100);
    l.player.velocity = v(0, -1000);
    let health_before = l.monkey.health;
    let mut sounds: Vec<SoundEffect> = Vec::new();
    l.step(&no_keys(), FRAME, &draws(), &mut sounds);
    assert_eq!(sounds, vec![SoundEffect::Click]);
    assert_eq!(l.monkey.health, health_before);
    // The bounce still happens even though no damage went through.
    assert_eq!(l.player.velocity.y, 15_000);
}

#[test]
fn fallen_projectiles_are_pruned_exactly_once() {
    let mut l = arena();
    l.bounds = v(10_000, 10_000);
    l.player.position = v(-4000, 0);
    l.monkey.bananas.push(
        Banana { position: v(4000, -4000), sides: v(800, 400), velocity: v(0, 0) },
    );
    l.monkey.bananas.push(
        Banana { position: v(4000, -5001), sides: v(800, 400), velocity: v(0, 0) },
    );
    let mut sounds: Vec<SoundEffect> = Vec::new();
    l.step(&no_keys(), FRAME, &draws(), &mut sounds);
    // The one below the lower bound is gone; the other keeps flying.
    assert_eq!(l.monkey.bananas.len(), 1);
    assert_eq!(l.monkey.bananas[0].position.x, 4000);
    l.step(&no_keys(), FRAME, &draws(), &mut sounds);
    assert_eq!(l.monkey.bananas.len(), 1);
}

#[test]
fn projectile_contact_is_lethal() {
    let mut l = arena();
    l.bounds = v(200_000, 200_000);
    l.player.position = v(50_000, 0);
    l.monkey.bananas.push(
        Banana { position: v(50_000, 0), sides: v(800, 400), velocity: v(0, 0) },
    );
    let mut sounds: Vec<SoundEffect> = Vec::new();
    l.step(&no_keys(), FRAME, &draws(), &mut sounds);
    assert!(l.player.dead);
    assert!(sounds.contains(&SoundEffect::Dead));
}

#[test]
fn session_clock_accumulates_while_running() {
    let mut l = arena();
    l.player.position = v(50_000, 0);
    let mut sounds: Vec<SoundEffect> = Vec::new();
    l.step(&no_keys(), FRAME, &draws(), &mut sounds);
    l.step(&no_keys(), FRAME, &draws(), &mut sounds);
    assert_eq!(l.elapsed_us, 2 * FRAME);
}

#[test]
fn negative_elapsed_time_is_clamped_to_zero() {
    let mut l = arena();
    l.player.position = v(50_000, 12_345);
    let mut sounds: Vec<SoundEffect> = Vec::new();
    l.step(&no_keys(), -5000, &draws(), &mut sounds);
    // Nothing moves in a zero-length frame: gravity integrates to zero.
    assert_eq!(l.player.position, v(50_000, 12_345));
    assert_eq!(l.elapsed_us, 0);
}

#[test]
fn update_draws_its_randomness_from_the_injected_generator() {
    let mut l = arena();
    l.player.position = v(50_000, 0);
    // Force the boss to redraw its throw pause this frame.
    l.monkey.ai_time_us = 2_000_000;
    let mut rng = GameRng::from_seed(42);
    let mut sounds: Vec<SoundEffect> = Vec::new();
    l.update(&no_keys(), FRAME, &mut rng, &mut sounds);
    assert!(1_000_000 <= l.monkey.next_throw_us && l.monkey.next_throw_us < 2_000_000);
    assert!(5 <= l.monkey.bananas_before_rage && l.monkey.bananas_before_rage < 10);
}

#[test]
fn grid_parsing_places_everything() {
    let rows: Vec<Vec<u8>> = vec![b"S E M".to_vec(), b"[===]".to_vec()];
    let l = Level::from_rows(&rows);
    assert!(!l.started());
    assert_eq!(l.max_bounds(), v(2500, 1000));
    assert_eq!(l.min_bounds(), v(-2500, -1000));
    assert_eq!(l.tiles.len(), 5);
    assert_eq!(l.tiles[0].position, v(-2000, -500));
    assert_eq!(l.tiles[4].position, v(2000, -500));
    assert_eq!(l.tiles[0].sides, v(1000, 1000));
    assert_eq!(l.player.spawn, v(-2000, 900));
    assert_eq!(l.player.position, l.player.spawn);
    assert_eq!(l.enemies.len(), 1);
    assert_eq!(l.enemies[0].position, v(0, 1500));
    assert_eq!(l.monkey.position, v(2000, 2000));
    assert_eq!(l.score, 0);
}

#[test]
fn grid_parsing_reads_the_trap_and_floor_bytes() {
    let rows: Vec<Vec<u8>> = vec![b"@".to_vec(), b"#".to_vec()];
    let l = Level::from_rows(&rows);
    assert_eq!(l.tiles.len(), 1);
    assert_eq!(l.trap, v(0, 500));
    assert_eq!(l.tiles[0].position, v(0, -500));
}

#[test]
fn empty_grid_gives_an_empty_level() {
    let rows: Vec<Vec<u8>> = Vec::new();
    let l = Level::from_rows(&rows);
    assert_eq!(l.max_bounds(), v(0, 0));
    assert!(l.tiles.is_empty());
    assert!(l.enemies.is_empty());
}
