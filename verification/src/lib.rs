//! A deterministic 2D platformer simulation core.
//!
//! World geometry, kinematics, player control, patrol and boss AI, and the
//! per-frame session orchestration are all expressed over fixed-point
//! integer coordinates: one world unit is `UNIT` coordinate steps, and time
//! is measured in microseconds. Every update is a pure function of the
//! current state, the elapsed time, the input snapshot, and explicitly
//! injected random draws, which makes each frame reproducible.

pub mod math;
pub mod physics;
pub mod sound;
pub mod level;
pub mod player;
pub mod monkey;
pub mod rng;
