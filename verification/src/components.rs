//! Component kinds: each is a typed value attached to at most one entity,
//! stored in its own table of the component store.

use vstd::prelude::*;

verus! {

/// A rectangular region of a spritesheet, in texture coordinates.
#[derive(Clone, Copy, Debug, PartialEq, Eq, Structural)]
pub struct Region {
    pub x: i32,
    pub y: i32,
    pub width: u32,
    pub height: u32,
}

/// The current position of a given entity, in world coordinates.
#[derive(Clone, Copy, Debug, PartialEq, Eq, Structural)]
pub struct Position {
    pub x: i32,
    pub y: i32,
}

/// The visual reference of a simple entity: a spritesheet index and the
/// region of it to be rendered. Carried but never interpreted by the core.
#[derive(Clone, Copy, Debug, PartialEq, Eq, Structural)]
pub struct Sprite {
    /// The specific spritesheet to render from
    pub spritesheet: usize,
    /// The current region of the spritesheet to be rendered
    pub region: Region,
}

/// Cooldown-gated spawning state machine data.
#[derive(Clone, Copy, Debug, PartialEq, Eq, Structural)]
pub struct BulletSpawner {
    pub spawning: bool,
    pub cooldown: u32,
    pub cooldown_rem: u32,
    pub bullet_speed: u32,
}

/// The visual reference of a layered entity: several sprites drawn at the
/// same position and orientation.
#[derive(Clone, Debug)]
pub struct LayeredSprite {
    pub sprites: Vec<Sprite>,
}

/// The sign of a rotation.
#[derive(Clone, Copy, Debug, PartialEq, Eq, Structural)]
pub enum Rotation {
    Clockwise,
    CounterClockwise,
}

/// Per-entity linear and angular speed constants used to interpret the
/// per-tick command resources.
#[derive(Clone, Copy, Debug, Default, PartialEq, Eq, Structural)]
pub struct KeyboardControlled {
    pub speed: u32,
    pub rotation_speed: u32,
}

/// An orientation in degrees; well-formed values lie in `[0, 360)`.
#[derive(Clone, Copy, Debug, Default, PartialEq, Eq, Structural)]
pub struct Angle {
    pub angle: u32,
}

impl Angle {
    /// The normalization invariant every system must maintain.
    pub open spec fn wf(self) -> bool {
        self.angle < 360
    }
}

/// The current scalar speed and travel direction of a given entity,
/// decoupled from the entity's own facing orientation.
#[derive(Clone, Copy, Debug, PartialEq, Eq, Structural)]
pub struct Velocity {
    pub speed: u32,
    pub direction: Angle,
}

impl Velocity {
    pub open spec fn wf(self) -> bool {
        self.direction.wf()
    }
}

/// The current scalar rotation speed and rotation sign of a given entity.
#[derive(Clone, Copy, Debug, PartialEq, Eq, Structural)]
pub struct AngularVelocity {
    pub speed: u32,
    pub rotation: Rotation,
}

} // verus!
