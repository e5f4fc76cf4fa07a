//! Simulation core of a tick-driven 2D tank game: a typed component store
//! with deferred entity creation, a dependency-ordered system pipeline, and
//! the per-tick systems (movement, rotation, fire control, spawning,
//! integration) that advance the world state.

pub mod angles;
pub mod bulletspawner_system;
pub mod components;
pub mod keyboard;
pub mod laws;
pub mod physics;
pub mod pipeline;
pub mod renderer;
pub mod tick;
pub mod world;


use vstd::prelude::*;

use crate::components::Angle;
use crate::components::Rotation;

verus! {

/// Per-tick command on the rotation channel. `None` in the command slot
/// means "no change this tick".
#[derive(Clone, Copy, Debug, PartialEq, Eq, Structural)]
pub enum RotationCommand {
    Stop,
    Move(Rotation),
}

/// Per-tick command on the movement channel.
#[derive(Clone, Copy, Debug, PartialEq, Eq, Structural)]
pub enum MovementCommand {
    Stop,
    Move(Angle),
}

impl MovementCommand {
    /// A movement command is valid when its direction is normalized.
    pub open spec fn wf(self) -> bool {
        match self {
            MovementCommand::Move(d) => d.wf(),
            MovementCommand::Stop => true,
        }
    }
}

/// Per-tick command on the fire channel.
#[derive(Clone, Copy, Debug, PartialEq, Eq, Structural)]
pub enum FireCommand {
    Stop,
    Fire,
}

/// The simulation core's failure modes: integration stepping a position out
/// of the coordinate range, or a cyclic system dependency graph found at
/// startup.
#[derive(Clone, Copy, Debug, PartialEq, Eq, Structural)]
pub enum SimError {
    PositionOverflow,
    DependencyCycle,
}

} // verus!
