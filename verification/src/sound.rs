//! Discrete sound-effect signals emitted by the simulation.
//!
//! Each frame the simulation appends the effects it triggered to a queue
//! that the caller consumes; the simulation itself never plays anything.

use vstd::prelude::*;

verus! {

/// A sound cue produced by one simulation event.
#[derive(Clone, Copy, Debug, PartialEq, Eq, Structural, Hash)]
pub enum SoundEffect {
    /// The player jumped.
    Jump,
    /// An attack landed and dealt damage.
    Hit,
    /// An attack landed while the target was invulnerable.
    Click,
    /// The player died from contact.
    Dead,
    /// The player fell out of the world.
    Fall,
    /// The boss threw a projectile.
    Banana,
    /// The boss became enraged.
    Rage,
}

} // verus!
