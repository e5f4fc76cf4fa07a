//! The integration system: once per tick it advances position from
//! velocity (speed along a heading in degrees, decoupled from the entity's
//! own facing) and orientation from angular velocity (wrapped by floor
//! modulo into `[0, 360)`).

use vstd::prelude::*;
use vstd::pervasive::VecAdditionalExecFns;

use crate::angles::displacement;
use crate::angles::dx_of;
use crate::angles::dy_of;
use crate::angles::norm_deg;
use crate::components::Angle;
use crate::components::AngularVelocity;
use crate::components::Position;
use crate::components::Rotation;
use crate::components::Velocity;
use crate::world::World;
use crate::world::WorldView;
use crate::SimError;

verus! {

/// The translation join predicate: the entity carries a position and a
/// velocity.
pub open spec fn moves_at(w: WorldView, i: int) -> bool {
    &&& 0 <= i < w.live()
    &&& w.positions[i] is Some
    &&& w.velocities[i] is Some
}

/// The rotation join predicate: the entity carries an orientation and an
/// angular velocity.
pub open spec fn turns_at(w: WorldView, i: int) -> bool {
    &&& 0 <= i < w.angles.len()
    &&& w.angles[i] is Some
    &&& w.angular_velocities[i] is Some
}

/// The exact abscissa an entity reaches after one integration step.
pub open spec fn new_x(p: Position, v: Velocity) -> int {
    p.x + dx_of(v.speed as int, v.direction.angle as int)
}

/// The exact ordinate an entity reaches after one integration step.
pub open spec fn new_y(p: Position, v: Velocity) -> int {
    p.y + dy_of(v.speed as int, v.direction.angle as int)
}

/// One entity's integration step stays inside the coordinate range.
pub open spec fn step_fits(p: Position, v: Velocity) -> bool {
    &&& i32::MIN <= new_x(p, v) <= i32::MAX
    &&& i32::MIN <= new_y(p, v) <= i32::MAX
}

/// The whole integration pass stays inside the coordinate range.
pub open spec fn physics_fits(w: WorldView) -> bool {
    forall|i: int|
        #[trigger] moves_at(w, i) ==> step_fits(w.positions[i].unwrap(), w.velocities[i].unwrap())
}

/// The position table after the integration pass.
pub open spec fn integrated_positions(w: WorldView) -> Seq<Option<Position>>
    recommends
        physics_fits(w),
{
    Seq::new(
        w.positions.len(),
        |i: int|
            if moves_at(w, i) {
                let p = w.positions[i].unwrap();
                let v = w.velocities[i].unwrap();
                Some(Position { x: new_x(p, v) as i32, y: new_y(p, v) as i32 })
            } else {
                w.positions[i]
            },
    )
}

/// The orientation after one tick of angular velocity: `+speed` for
/// clockwise, `-speed` for counterclockwise, wrapped by floor modulo.
pub open spec fn turned_angle(a: Angle, av: AngularVelocity) -> Angle {
    match av.rotation {
        Rotation::Clockwise => Angle { angle: norm_deg(a.angle + av.speed) as u32 },
        Rotation::CounterClockwise => Angle { angle: norm_deg(a.angle - av.speed) as u32 },
    }
}

/// The orientation table after the integration pass.
pub open spec fn rotated_angles(w: WorldView) -> Seq<Option<Angle>> {
    Seq::new(
        w.angles.len(),
        |i: int|
            if turns_at(w, i) {
                Some(turned_angle(w.angles[i].unwrap(), w.angular_velocities[i].unwrap()))
            } else {
                w.angles[i]
            },
    )
}

/// The whole integration pass.
pub open spec fn physics_applied(w: WorldView) -> WorldView {
    WorldView { positions: integrated_positions(w), angles: rotated_angles(w), ..w }
}

/// The integration pass preserves well-formedness: wrapped orientations
/// stay normalized and no other table changes.
pub proof fn lemma_physics_applied_wf(w: WorldView)
    requires
        w.wf(),
    ensures
        physics_applied(w).wf(),
        physics_applied(w).live() == w.live(),
        physics_applied(w).next == w.next,
        physics_applied(w).pending == w.pending,
{
    let pw = physics_applied(w);
    assert(pw.angles_ok()) by {
        assert forall|i: int|
            0 <= i < pw.angles.len() implies ((#[trigger] pw.angles[i]) matches Some(a)
            ==> a.wf()) by {
            if turns_at(w, i) {
                assert(pw.angles[i] == Some(
                    turned_angle(w.angles[i].unwrap(), w.angular_velocities[i].unwrap()),
                ));
            } else {
                assert(pw.angles[i] == w.angles[i]);
            }
        }
    }
}

/// The integration system.
pub struct Physics;

impl Physics {
    /// Advances every moving entity's position and every turning entity's
    /// orientation, once per tick. Succeeds exactly when every new
    /// position fits the coordinate range; on failure the world is left
    /// untouched, matching the all-or-nothing tick contract.
    pub fn run(&self, world: &mut World) -> (r: Result<(), SimError>)
        requires
            old(world).wf(),
        ensures
            r is Ok <==> physics_fits(old(world)@),
            r is Ok ==> final(world)@ == physics_applied(old(world)@),
            r is Err ==> final(world)@ == old(world)@ && r == Err::<(), SimError>(
                SimError::PositionOverflow,
            ),
            final(world).wf(),
    {
        let ghost w0 = world@;
        let n = world.positions.len();
        // First pass: compute every new position into a fresh table,
        // detecting any overflow before a single live entry changes.
        let mut new_positions: Vec<Option<Position>> = Vec::new();
        let mut i: usize = 0;
        while i < n
            invariant
                w0.wf(),
                world@ == w0,
                n == w0.live(),
                i <= n,
                new_positions@.len() == i,
                forall|j: int|
                    0 <= j < i && #[trigger] moves_at(w0, j) ==> step_fits(
                        w0.positions[j].unwrap(),
                        w0.velocities[j].unwrap(),
                    ),
                forall|j: int| 0 <= j < i ==> new_positions@[j] == integrated_positions(w0)[j],
            decreases n - i,
        {
            match (world.positions[i], world.velocities[i]) {
                (Some(p), Some(v)) => {
                    let (dx, dy) = displacement(v.speed, v.direction.angle);
                    let nx = p.x as i64 + dx;
                    let ny = p.y as i64 + dy;
                    if nx < i32::MIN as i64 || nx > i32::MAX as i64 || ny < i32::MIN as i64
                        || ny > i32::MAX as i64 {
                        proof {
                            assert(moves_at(w0, i as int));
                            assert(!step_fits(p, v));
                            assert(!physics_fits(w0));
                        }
                        return Err(SimError::PositionOverflow);
                    }
                    new_positions.push(Some(Position { x: nx as i32, y: ny as i32 }));
                    proof {
                        assert(moves_at(w0, i as int));
                        assert(new_positions@[i as int] == integrated_positions(w0)[i as int]);
                    }
                },
                _ => {
                    new_positions.push(world.positions[i]);
                    proof {
                        assert(!moves_at(w0, i as int));
                    }
                },
            }
            i = i + 1;
        }
        world.positions = new_positions;
        proof {
            assert(world@.positions =~= integrated_positions(w0));
        }
        // Second pass: wrap every turning entity's orientation.
        let m = world.angles.len();
        let mut k: usize = 0;
        while k < m
            invariant
                w0.wf(),
                m == w0.angles.len(),
                world@ == (WorldView {
                    positions: integrated_positions(w0),
                    angles: world@.angles,
                    ..w0
                }),
                world@.angles.len() == m,
                k <= m,
                forall|j: int| 0 <= j < k ==> world@.angles[j] == rotated_angles(w0)[j],
                forall|j: int| k <= j < m ==> world@.angles[j] == w0.angles[j],
            decreases m - k,
        {
            match (world.angles[k], world.angular_velocities[k]) {
                (Some(a), Some(av)) => {
                    let na: u32 = match av.rotation {
                        Rotation::Clockwise => (((a.angle as u64) + (av.speed as u64)) % 360)
                            as u32,
                        Rotation::CounterClockwise => {
                            let sm: u32 = av.speed % 360;
                            proof {
                                let s = av.speed as int;
                                let aa = a.angle as int;
                                vstd::arithmetic::div_mod::lemma_fundamental_div_mod(s, 360);
                                assert(aa + 360 - sm == 360 * (1 + s / 360) + (aa - s));
                                vstd::arithmetic::div_mod::lemma_mod_multiples_vanish(
                                    1 + s / 360,
                                    aa - s,
                                    360,
                                );
                            }
                            (a.angle + 360 - sm) % 360
                        },
                    };
                    world.angles.set(k, Some(Angle { angle: na }));
                    proof {
                        assert(turns_at(w0, k as int));
                        assert(world@.angles[k as int] == rotated_angles(w0)[k as int]);
                    }
                },
                _ => {
                    proof {
                        assert(!turns_at(w0, k as int));
                    }
                },
            }
            k = k + 1;
        }
        proof {
            assert(world@.angles =~= rotated_angles(w0));
            assert(world@ =~= physics_applied(w0));
        }
        Ok(())
    }
}

} // verus!
