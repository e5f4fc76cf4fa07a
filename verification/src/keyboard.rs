//! The three input systems. Each reads one per-tick command slot and a
//! `KeyboardControlled` tag plus target component pair, and translates the
//! command into per-entity state: an empty slot means "no change this tick"
//! and performs no writes.

use vstd::prelude::*;
use vstd::pervasive::VecAdditionalExecFns;

use crate::components::AngularVelocity;
use crate::components::BulletSpawner;
use crate::components::KeyboardControlled;
use crate::components::Velocity;
use crate::world::World;
use crate::world::WorldView;
use crate::FireCommand;
use crate::MovementCommand;
use crate::RotationCommand;

verus! {

/// The velocity of a player-controlled entity after one movement command:
/// `Move` sets the speed constant and the commanded direction, `Stop`
/// zeroes only the speed and leaves the direction for a later restart.
pub open spec fn moved_velocity(
    cmd: MovementCommand,
    control: KeyboardControlled,
    v: Velocity,
) -> Velocity {
    match cmd {
        MovementCommand::Move(direction) => Velocity { speed: control.speed, direction },
        MovementCommand::Stop => Velocity { speed: 0, ..v },
    }
}

/// The velocity table after the movement channel's command is applied to
/// every entity carrying both the player tag and a velocity.
pub open spec fn apply_movement(
    cmd: Option<MovementCommand>,
    controls: Seq<Option<KeyboardControlled>>,
    velocities: Seq<Option<Velocity>>,
) -> Seq<Option<Velocity>>
    recommends
        controls.len() == velocities.len(),
{
    match cmd {
        None => velocities,
        Some(c) => Seq::new(
            velocities.len(),
            |i: int|
                match (controls[i], velocities[i]) {
                    (Some(control), Some(v)) => Some(moved_velocity(c, control, v)),
                    _ => velocities[i],
                },
        ),
    }
}

/// The angular velocity of a player-controlled entity after one rotation
/// command.
pub open spec fn rotated_angular_velocity(
    cmd: RotationCommand,
    control: KeyboardControlled,
    av: AngularVelocity,
) -> AngularVelocity {
    match cmd {
        RotationCommand::Move(rotation) => AngularVelocity {
            speed: control.rotation_speed,
            rotation,
        },
        RotationCommand::Stop => AngularVelocity { speed: 0, ..av },
    }
}

/// The angular velocity table after the rotation channel's command.
pub open spec fn apply_rotation(
    cmd: Option<RotationCommand>,
    controls: Seq<Option<KeyboardControlled>>,
    angular_velocities: Seq<Option<AngularVelocity>>,
) -> Seq<Option<AngularVelocity>>
    recommends
        controls.len() == angular_velocities.len(),
{
    match cmd {
        None => angular_velocities,
        Some(c) => Seq::new(
            angular_velocities.len(),
            |i: int|
                match (controls[i], angular_velocities[i]) {
                    (Some(control), Some(av)) => Some(rotated_angular_velocity(c, control, av)),
                    _ => angular_velocities[i],
                },
        ),
    }
}

/// The spawner of a player-controlled entity after one fire command: only
/// the `spawning` flag flips; cooldown fields are never touched here.
pub open spec fn fired_spawner(cmd: FireCommand, s: BulletSpawner) -> BulletSpawner {
    match cmd {
        FireCommand::Fire => BulletSpawner { spawning: true, ..s },
        FireCommand::Stop => BulletSpawner { spawning: false, ..s },
    }
}

/// The spawner table after the fire channel's command.
pub open spec fn apply_fire(
    cmd: Option<FireCommand>,
    controls: Seq<Option<KeyboardControlled>>,
    spawners: Seq<Option<BulletSpawner>>,
) -> Seq<Option<BulletSpawner>>
    recommends
        controls.len() == spawners.len(),
{
    match cmd {
        None => spawners,
        Some(c) => Seq::new(
            spawners.len(),
            |i: int|
                match (controls[i], spawners[i]) {
                    (Some(control), Some(s)) => Some(fired_spawner(c, s)),
                    _ => spawners[i],
                },
        ),
    }
}

/// The movement system.
pub struct KeyboardMove;

impl KeyboardMove {
    /// Applies the movement command slot to every player-controlled
    /// entity's velocity; writes nothing else and nothing when the slot is
    /// empty.
    pub fn run(&self, movement_command: Option<MovementCommand>, world: &mut World)
        requires
            old(world).wf(),
            movement_command matches Some(c) ==> c.wf(),
        ensures
            final(world)@ == (WorldView {
                velocities: apply_movement(
                    movement_command,
                    old(world)@.controls,
                    old(world)@.velocities,
                ),
                ..old(world)@
            }),
            final(world).wf(),
    {
        let c = match movement_command {
            Some(c) => c,
            None => {
                return ;
            },
        };
        let ghost w0 = world@;
        let n = world.velocities.len();
        let mut i: usize = 0;
        while i < n
            invariant
                w0.wf(),
                c.wf(),
                n == w0.velocities.len(),
                w0.controls.len() == n,
                i <= n,
                world@ == (WorldView { velocities: world@.velocities, ..w0 }),
                world@.velocities.len() == n,
                forall|j: int|
                    0 <= j < i ==> world@.velocities[j] == apply_movement(
                        Some(c),
                        w0.controls,
                        w0.velocities,
                    )[j],
                forall|j: int| i <= j < n ==> world@.velocities[j] == w0.velocities[j],
            decreases n - i,
        {
            match (world.controls[i], world.velocities[i]) {
                (Some(control), Some(v)) => {
                    let nv = match c {
                        MovementCommand::Move(direction) => Velocity {
                            speed: control.speed,
                            direction,
                        },
                        MovementCommand::Stop => Velocity { speed: 0, direction: v.direction },
                    };
                    world.velocities.set(i, Some(nv));
                },
                _ => {},
            }
            i = i + 1;
        }
        proof {
            assert(world@.velocities =~= apply_movement(Some(c), w0.controls, w0.velocities));
        }
    }
}

/// The rotation system.
pub struct KeyboardRotate;

impl KeyboardRotate {
    /// Applies the rotation command slot to every player-controlled
    /// entity's angular velocity.
    pub fn run(&self, rotation_command: Option<RotationCommand>, world: &mut World)
        requires
            old(world).wf(),
        ensures
            final(world)@ == (WorldView {
                angular_velocities: apply_rotation(
                    rotation_command,
                    old(world)@.controls,
                    old(world)@.angular_velocities,
                ),
                ..old(world)@
            }),
            final(world).wf(),
    {
        let c = match rotation_command {
            Some(c) => c,
            None => {
                return ;
            },
        };
        let ghost w0 = world@;
        let n = world.angular_velocities.len();
        let mut i: usize = 0;
        while i < n
            invariant
                w0.wf(),
                n == w0.angular_velocities.len(),
                w0.controls.len() == n,
                i <= n,
                world@ == (WorldView { angular_velocities: world@.angular_velocities, ..w0 }),
                world@.angular_velocities.len() == n,
                forall|j: int|
                    0 <= j < i ==> world@.angular_velocities[j] == apply_rotation(
                        Some(c),
                        w0.controls,
                        w0.angular_velocities,
                    )[j],
                forall|j: int| i <= j < n ==> world@.angular_velocities[j] == w0.angular_velocities[j],
            decreases n - i,
        {
            match (world.controls[i], world.angular_velocities[i]) {
                (Some(control), Some(av)) => {
                    let nav = match c {
                        RotationCommand::Move(rotation) => AngularVelocity {
                            speed: control.rotation_speed,
                            rotation,
                        },
                        RotationCommand::Stop => AngularVelocity {
                            speed: 0,
                            rotation: av.rotation,
                        },
                    };
                    world.angular_velocities.set(i, Some(nav));
                },
                _ => {},
            }
            i = i + 1;
        }
        proof {
            assert(world@.angular_velocities =~= apply_rotation(
                Some(c),
                w0.controls,
                w0.angular_velocities,
            ));
        }
    }
}

/// The fire-control system.
pub struct KeyboardShoot;

impl KeyboardShoot {
    /// Applies the fire command slot to every player-controlled entity's
    /// spawner: it flips only the `spawning` flag and never touches the
    /// cooldown fields.
    pub fn run(&self, fire_command: Option<FireCommand>, world: &mut World)
        requires
            old(world).wf(),
        ensures
            final(world)@ == (WorldView {
                spawners: apply_fire(fire_command, old(world)@.controls, old(world)@.spawners),
                ..old(world)@
            }),
            final(world).wf(),
    {
        let c = match fire_command {
            Some(c) => c,
            None => {
                return ;
            },
        };
        let ghost w0 = world@;
        let n = world.spawners.len();
        let mut i: usize = 0;
        while i < n
            invariant
                w0.wf(),
                n == w0.spawners.len(),
                w0.controls.len() == n,
                i <= n,
                world@ == (WorldView { spawners: world@.spawners, ..w0 }),
                world@.spawners.len() == n,
                forall|j: int|
                    0 <= j < i ==> world@.spawners[j] == apply_fire(
                        Some(c),
                        w0.controls,
                        w0.spawners,
                    )[j],
                forall|j: int| i <= j < n ==> world@.spawners[j] == w0.spawners[j],
            decreases n - i,
        {
            match (world.controls[i], world.spawners[i]) {
                (Some(_control), Some(s)) => {
                    let ns = match c {
                        FireCommand::Fire => BulletSpawner { spawning: true, ..s },
                        FireCommand::Stop => BulletSpawner { spawning: false, ..s },
                    };
                    world.spawners.set(i, Some(ns));
                },
                _ => {},
            }
            i = i + 1;
        }
        proof {
            assert(world@.spawners =~= apply_fire(Some(c), w0.controls, w0.spawners));
        }
    }
}

} // verus!
