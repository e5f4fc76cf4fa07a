//! One whole simulation tick: the per-tick commands are written into the
//! systems, the pipeline runs in dependency order — fire control, movement
//! and rotation (mutually unordered), then the spawner, then integration —
//! and the maintenance flush makes this tick's deferred creations visible.

use vstd::prelude::*;

use crate::bulletspawner_system::spawn_applied;
use crate::bulletspawner_system::BulletSpawnerSystem;
use crate::keyboard::apply_fire;
use crate::keyboard::apply_movement;
use crate::keyboard::apply_rotation;
use crate::keyboard::KeyboardMove;
use crate::keyboard::KeyboardRotate;
use crate::keyboard::KeyboardShoot;
use crate::physics::physics_applied;
use crate::physics::physics_fits;
use crate::physics::Physics;
use crate::world::flushed;
use crate::world::World;
use crate::world::WorldView;
use crate::FireCommand;
use crate::MovementCommand;
use crate::RotationCommand;
use crate::SimError;

verus! {

/// The world after the three input systems: each writes its own target
/// table from its own command channel, so their mutual order is
/// irrelevant.
pub open spec fn inputs_applied(
    w: WorldView,
    movement: Option<MovementCommand>,
    rotation: Option<RotationCommand>,
    fire: Option<FireCommand>,
) -> WorldView {
    WorldView {
        velocities: apply_movement(movement, w.controls, w.velocities),
        angular_velocities: apply_rotation(rotation, w.controls, w.angular_velocities),
        spawners: apply_fire(fire, w.controls, w.spawners),
        ..w
    }
}

/// The world after the input systems and the spawner system, just before
/// integration: the state whose positions the integration step must keep
/// in range.
pub open spec fn pre_integration(
    w: WorldView,
    movement: Option<MovementCommand>,
    rotation: Option<RotationCommand>,
    fire: Option<FireCommand>,
) -> WorldView {
    spawn_applied(inputs_applied(w, movement, rotation, fire))
}

/// The world after one complete tick, maintenance flush included; where
/// integration would leave the coordinate range the tick instead stops at
/// the pre-integration state, unflushed, and the process is to be torn
/// down.
pub open spec fn tick_view(
    w: WorldView,
    movement: Option<MovementCommand>,
    rotation: Option<RotationCommand>,
    fire: Option<FireCommand>,
) -> WorldView {
    let pv = pre_integration(w, movement, rotation, fire);
    if physics_fits(pv) {
        flushed(physics_applied(pv))
    } else {
        pv
    }
}

/// The input systems preserve well-formedness: they only rewrite their
/// three target tables, and only with normalized directions.
pub proof fn lemma_inputs_applied_wf(
    w: WorldView,
    movement: Option<MovementCommand>,
    rotation: Option<RotationCommand>,
    fire: Option<FireCommand>,
)
    requires
        w.wf(),
        movement matches Some(c) ==> c.wf(),
    ensures
        inputs_applied(w, movement, rotation, fire).wf(),
        inputs_applied(w, movement, rotation, fire).live() == w.live(),
{
    let iw = inputs_applied(w, movement, rotation, fire);
    assert(iw.angles_ok()) by {
        assert forall|i: int|
            0 <= i < iw.velocities.len() implies ((#[trigger] iw.velocities[i]) matches Some(v)
            ==> v.wf()) by {
            match movement {
                Option::Some(c) => {
                    if w.controls[i] is Some && w.velocities[i] is Some {
                        assert(w.velocities[i] matches Some(ov) ==> ov.wf());
                    } else {
                        assert(iw.velocities[i] == w.velocities[i]);
                    }
                },
                Option::None => {
                    assert(iw.velocities[i] == w.velocities[i]);
                },
            }
        }
    }
}

/// Runs one whole tick on the world: fire control, movement and rotation
/// from the given per-tick commands, the spawner pass, the integration
/// pass, and the maintenance flush. Succeeds — and flushes — exactly when
/// integration keeps every position in the coordinate range.
pub fn tick(
    world: &mut World,
    movement: Option<MovementCommand>,
    rotation: Option<RotationCommand>,
    fire: Option<FireCommand>,
) -> (r: Result<(), SimError>)
    requires
        old(world).wf(),
        movement matches Some(c) ==> c.wf(),
        old(world)@.next + old(world)@.live() <= usize::MAX,
    ensures
        r is Ok <==> physics_fits(pre_integration(old(world)@, movement, rotation, fire)),
        final(world)@ == tick_view(old(world)@, movement, rotation, fire),
        r is Err ==> r == Err::<(), SimError>(SimError::PositionOverflow),
        final(world).wf(),
{
    let ghost w0 = world@;
    let shoot = KeyboardShoot;
    shoot.run(fire, world);
    let kmove = KeyboardMove;
    kmove.run(movement, world);
    let krotate = KeyboardRotate;
    krotate.run(rotation, world);
    proof {
        assert(world@ =~= inputs_applied(w0, movement, rotation, fire));
    }
    let spawner = BulletSpawnerSystem;
    spawner.run(world);
    let physics = Physics;
    let r = physics.run(world);
    match r {
        Ok(()) => {
            world.flush();
            Ok(())
        },
        Err(e) => Err(e),
    }
}

} // verus!
