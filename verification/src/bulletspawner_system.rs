//! The spawner system: advances each entity's cooldown state machine and,
//! when one is armed, reserves a bullet entity whose components are
//! buffered and become visible only at the maintenance flush — a bullet
//! spawned during tick N is never integrated before tick N+1.

use vstd::prelude::*;
use vstd::pervasive::VecAdditionalExecFns;

use crate::components::AngularVelocity;
use crate::components::BulletSpawner;
use crate::components::Rotation;
use crate::components::Sprite;
use crate::components::Velocity;
use crate::world::apply_attaches;
use crate::world::apply_one;
use crate::world::lemma_apply_attaches_concat;
use crate::world::lemma_apply_attaches_keeps_some;
use crate::world::lemma_apply_attaches_shape;
use crate::world::tank_region;
use crate::world::tank_region_x;
use crate::world::ComponentValue;
use crate::world::PendingAttach;
use crate::world::World;
use crate::world::WorldView;

verus! {

/// The spawner system's join predicate: the entity carries a position, an
/// orientation and a spawner.
pub open spec fn spawner_joined(w: WorldView, i: int) -> bool {
    &&& 0 <= i < w.live()
    &&& w.positions[i] is Some
    &&& w.angles[i] is Some
    &&& w.spawners[i] is Some
}

/// A spawner is armed when it is active with nothing remaining of its
/// cooldown — judged on the pre-decrement value read at tick start, so a
/// zero-period spawner fires every tick it is active.
pub open spec fn spawner_fires(s: BulletSpawner) -> bool {
    s.spawning && s.cooldown_rem == 0
}

/// Entity `i` fires this tick.
pub open spec fn fires_at(w: WorldView, i: int) -> bool {
    spawner_joined(w, i) && spawner_fires(w.spawners[i].unwrap())
}

/// One tick of the cooldown state machine: armed resets the remaining
/// count to the period, cooling decrements it, idle rests.
pub open spec fn stepped_spawner(s: BulletSpawner) -> BulletSpawner {
    if spawner_fires(s) {
        BulletSpawner { cooldown_rem: s.cooldown, ..s }
    } else if s.cooldown_rem > 0 {
        BulletSpawner { cooldown_rem: (s.cooldown_rem - 1) as u32, ..s }
    } else {
        s
    }
}

/// The spawner table after the spawner system's pass.
pub open spec fn stepped_spawners(w: WorldView) -> Seq<Option<BulletSpawner>> {
    Seq::new(
        w.spawners.len(),
        |i: int|
            if spawner_joined(w, i) {
                Some(stepped_spawner(w.spawners[i].unwrap()))
            } else {
                w.spawners[i]
            },
    )
}

/// How many of the first `i` entities fire this tick; fixes each bullet's
/// reserved identity.
pub open spec fn fired_before(w: WorldView, i: int) -> nat
    decreases i,
{
    if i <= 0 {
        0
    } else {
        fired_before(w, i - 1) + (if fires_at(w, i - 1) {
            1nat
        } else {
            0nat
        })
    }
}

/// The five attachment requests assembling the bullet of firing entity
/// `i`: a velocity along the spawner's current orientation at its bullet
/// speed, position and orientation copied from the spawner, a fixed
/// clockwise spin, and the bullet sprite.
pub open spec fn bullet_attaches(w: WorldView, i: int) -> Seq<PendingAttach>
    recommends
        fires_at(w, i),
{
    let b = (w.next + fired_before(w, i)) as usize;
    let pos = w.positions[i].unwrap();
    let ang = w.angles[i].unwrap();
    let s = w.spawners[i].unwrap();
    seq![
        PendingAttach {
            entity: b,
            value: ComponentValue::Vel(Velocity { speed: s.bullet_speed, direction: ang }),
        },
        PendingAttach { entity: b, value: ComponentValue::Pos(pos) },
        PendingAttach { entity: b, value: ComponentValue::Ang(ang) },
        PendingAttach {
            entity: b,
            value: ComponentValue::AngVel(
                AngularVelocity { speed: 2, rotation: Rotation::Clockwise },
            ),
        },
        PendingAttach {
            entity: b,
            value: ComponentValue::Spr(Sprite { spritesheet: 0, region: tank_region() }),
        },
    ]
}

/// All attachment requests buffered by the first `i` entities' firings,
/// in entity order.
pub open spec fn pending_added(w: WorldView, i: int) -> Seq<PendingAttach>
    decreases i,
{
    if i <= 0 {
        Seq::empty()
    } else {
        pending_added(w, i - 1) + (if fires_at(w, i - 1) {
            bullet_attaches(w, i - 1)
        } else {
            Seq::empty()
        })
    }
}

/// The whole spawner pass: stepped cooldowns, one reserved identity per
/// firing entity, and the firing entities' bullet requests appended to the
/// pending buffer.
pub open spec fn spawn_applied(w: WorldView) -> WorldView {
    WorldView {
        next: w.next + fired_before(w, w.live() as int),
        spawners: stepped_spawners(w),
        pending: w.pending + pending_added(w, w.live() as int),
        ..w
    }
}

/// At most one firing per entity.
pub proof fn lemma_fired_before_le(w: WorldView, i: int)
    requires
        0 <= i,
    ensures
        fired_before(w, i) <= i,
    decreases i,
{
    if i > 0 {
        lemma_fired_before_le(w, i - 1);
    }
}

/// Firing counts grow with the prefix.
pub proof fn lemma_fired_before_mono(w: WorldView, i: int, j: int)
    requires
        0 <= i <= j,
    ensures
        fired_before(w, i) <= fired_before(w, j),
    decreases j,
{
    if i < j {
        lemma_fired_before_mono(w, i, j - 1);
    }
}

/// Every bullet request buffered by the first `i` entities names a fresh
/// identity in `[next, next + fired)` and carries valid component values.
pub proof fn lemma_pending_added_props(w: WorldView, i: int)
    requires
        w.wf(),
        w.next + w.live() <= usize::MAX,
        0 <= i <= w.live(),
    ensures
        forall|k: int|
            0 <= k < pending_added(w, i).len() ==> {
                &&& w.next <= ((#[trigger] pending_added(w, i)[k]).entity as nat)
                &&& ((pending_added(w, i)[k]).entity as nat) < w.next + fired_before(w, i)
                &&& (pending_added(w, i)[k]).value.wf()
            },
    decreases i,
{
    if i > 0 {
        lemma_pending_added_props(w, i - 1);
        lemma_fired_before_le(w, i - 1);
        if fires_at(w, i - 1) {
            assert(w.angles[i - 1] matches Some(a) ==> a.wf());
        }
    }
}

/// The spawner pass preserves well-formedness; it grows only the
/// allocation bound and the pending buffer.
pub proof fn lemma_spawn_applied_wf(w: WorldView)
    requires
        w.wf(),
        w.next + w.live() <= usize::MAX,
    ensures
        spawn_applied(w).wf(),
        spawn_applied(w).live() == w.live(),
        w.next <= spawn_applied(w).next,
        spawn_applied(w).next <= w.next + w.live(),
        spawn_applied(w).pending == w.pending + pending_added(w, w.live() as int),
        forall|k: int|
            0 <= k < pending_added(w, w.live() as int).len() ==> w.next <= ((
            #[trigger] pending_added(w, w.live() as int)[k]).entity as nat),
{
    let n = w.live() as int;
    lemma_fired_before_le(w, n);
    lemma_pending_added_props(w, n);
    let sa = spawn_applied(w);
    assert(sa.pending_ok()) by {
        assert forall|k: int|
            0 <= k < sa.pending.len() implies (#[trigger] sa.pending[k]).wf_for(sa.next) by {
            if k < w.pending.len() {
                assert(sa.pending[k] == w.pending[k]);
                assert(w.pending[k].wf_for(w.next));
            } else {
                assert(sa.pending[k] == pending_added(w, n)[k - w.pending.len()]);
            }
        }
    }
}

/// Applying a firing entity's five bullet requests fills the bullet's
/// position and velocity slots.
proof fn lemma_bullet_attaches_fill(g: WorldView, w: WorldView, e: int)
    requires
        g.tables_len_ok(),
        w.wf(),
        w.next + w.live() <= usize::MAX,
        fires_at(w, e),
        0 <= e < w.live(),
        w.next + fired_before(w, e) < g.live(),
    ensures
        apply_attaches(g, bullet_attaches(w, e)).positions[(w.next + fired_before(w, e)) as int]
            is Some,
        apply_attaches(g, bullet_attaches(w, e)).velocities[(w.next + fired_before(w, e)) as int]
            is Some,
{
    lemma_fired_before_le(w, e);
    let ps = bullet_attaches(w, e);
    let b: int = (w.next + fired_before(w, e)) as int;
    assert(ps[0].entity as int == b);
    let s1 = ps.take(1);
    let s2 = ps.take(2);
    let s3 = ps.take(3);
    let s4 = ps.take(4);
    assert(s1.drop_last() =~= Seq::<PendingAttach>::empty());
    assert(apply_attaches(g, Seq::<PendingAttach>::empty()) == g);
    let g1 = apply_attaches(g, s1);
    assert(g1 == apply_one(g, ps[0]));
    assert(s2.drop_last() =~= s1);
    let g2 = apply_attaches(g, s2);
    assert(g2 == apply_one(g1, ps[1]));
    assert(s3.drop_last() =~= s2);
    let g3 = apply_attaches(g, s3);
    assert(g3 == apply_one(g2, ps[2]));
    assert(s4.drop_last() =~= s3);
    let g4 = apply_attaches(g, s4);
    assert(g4 == apply_one(g3, ps[3]));
    assert(ps.drop_last() =~= s4);
    let g5 = apply_attaches(g, ps);
    assert(g5 == apply_one(g4, ps[4]));
    assert(g1.velocities[b] is Some);
    assert(g2.velocities[b] is Some && g2.positions[b] is Some);
    assert(g5.velocities[b] is Some && g5.positions[b] is Some);
}

/// From the prefix just past a firing entity on, the bullet it spawned
/// stays visible in the tables being flushed.
proof fn lemma_bullet_filled_upto(g: WorldView, w: WorldView, e: int, i: int)
    requires
        g.tables_len_ok(),
        w.wf(),
        w.next + w.live() <= usize::MAX,
        g.live() == w.next + fired_before(w, w.live() as int),
        fires_at(w, e),
        0 <= e < w.live(),
        e + 1 <= i <= w.live(),
    ensures
        apply_attaches(g, pending_added(w, i)).positions[(w.next + fired_before(w, e)) as int]
            is Some,
        apply_attaches(g, pending_added(w, i)).velocities[(w.next + fired_before(w, e)) as int]
            is Some,
    decreases i,
{
    let b: int = (w.next + fired_before(w, e)) as int;
    lemma_fired_before_le(w, e);
    lemma_fired_before_mono(w, e + 1, w.live() as int);
    lemma_pending_added_props(w, w.live() as int);
    lemma_pending_added_props(w, i - 1);
    assert(fired_before(w, i - 1) <= fired_before(w, w.live() as int)) by {
        lemma_fired_before_mono(w, i - 1, w.live() as int);
    }
    if i == e + 1 {
        assert(pending_added(w, i) == pending_added(w, e) + bullet_attaches(w, e));
        lemma_apply_attaches_concat(g, pending_added(w, e), bullet_attaches(w, e));
        lemma_pending_added_props(w, e);
        let gmid = apply_attaches(g, pending_added(w, e));
        lemma_apply_attaches_shape(g, pending_added(w, e));
        lemma_bullet_attaches_fill(gmid, w, e);
    } else {
        lemma_bullet_filled_upto(g, w, e, i - 1);
        let gprev = apply_attaches(g, pending_added(w, i - 1));
        lemma_apply_attaches_shape(g, pending_added(w, i - 1));
        if fires_at(w, i - 1) {
            assert(pending_added(w, i) == pending_added(w, i - 1) + bullet_attaches(w, i - 1));
            lemma_apply_attaches_concat(g, pending_added(w, i - 1), bullet_attaches(w, i - 1));
            lemma_pending_added_props(w, i);
            lemma_fired_before_mono(w, i, w.live() as int);
            assert forall|k: int|
                0 <= k < bullet_attaches(w, i - 1).len() implies ((#[trigger] bullet_attaches(
                w,
                i - 1,
            )[k]).entity as nat) < gprev.live() by {
                assert(bullet_attaches(w, i - 1)[k] == pending_added(w, i)[pending_added(
                    w,
                    i - 1,
                ).len() + k]);
            }
            lemma_apply_attaches_keeps_some(gprev, bullet_attaches(w, i - 1), b);
        } else {
            assert(pending_added(w, i) =~= pending_added(w, i - 1) + Seq::<
                PendingAttach,
            >::empty());
            lemma_apply_attaches_concat(g, pending_added(w, i - 1), Seq::empty());
        }
    }
}

/// A bullet reserved by the spawner pass is visible in the flushed world:
/// its position and velocity slots are filled.
pub proof fn lemma_spawned_bullet_visible(g: WorldView, w: WorldView, e: int)
    requires
        g.tables_len_ok(),
        w.wf(),
        w.next + w.live() <= usize::MAX,
        g.live() == w.next + fired_before(w, w.live() as int),
        fires_at(w, e),
        0 <= e < w.live(),
    ensures
        apply_attaches(g, pending_added(w, w.live() as int)).positions[(w.next + fired_before(w, e)) as int] is Some,
        apply_attaches(g, pending_added(w, w.live() as int)).velocities[(w.next + fired_before(w, e)) as int] is Some,
        w.next + fired_before(w, e) < g.live(),
{
    lemma_fired_before_mono(w, e + 1, w.live() as int);
    lemma_bullet_filled_upto(g, w, e, w.live() as int);
}

/// The spawner system.
pub struct BulletSpawnerSystem;

impl BulletSpawnerSystem {
    /// Advances every spawner's cooldown state machine; each armed one
    /// resets its cooldown, reserves a bullet identity and buffers the
    /// bullet's components for the flush.
    pub fn run(&self, world: &mut World)
        requires
            old(world).wf(),
            old(world)@.next + old(world)@.live() <= usize::MAX,
        ensures
            final(world)@ == spawn_applied(old(world)@),
            final(world).wf(),
    {
        let ghost w0 = world@;
        let n = world.spawners.len();
        let mut i: usize = 0;
        while i < n
            invariant
                w0.wf(),
                world@.wf(),
                n == w0.spawners.len(),
                n == w0.live(),
                w0.next + n <= usize::MAX,
                i <= n,
                world@.next == w0.next + fired_before(w0, i as int),
                world@.positions == w0.positions,
                world@.angles == w0.angles,
                world@.velocities == w0.velocities,
                world@.angular_velocities == w0.angular_velocities,
                world@.controls == w0.controls,
                world@.sprites == w0.sprites,
                world@.layered_sprites == w0.layered_sprites,
                world@.spawners.len() == n,
                forall|j: int| 0 <= j < i ==> world@.spawners[j] == stepped_spawners(w0)[j],
                forall|j: int| i <= j < n ==> world@.spawners[j] == w0.spawners[j],
                world@.pending == w0.pending + pending_added(w0, i as int),
            decreases n - i,
        {
            proof {
                lemma_fired_before_le(w0, i as int);
            }
            let joined = world.positions[i].is_some() && world.angles[i].is_some()
                && world.spawners[i].is_some();
            if joined {
                let s = world.spawners[i].unwrap();
                if s.spawning && s.cooldown_rem == 0 {
                    world.spawners.set(
                        i,
                        Some(
                            BulletSpawner {
                                spawning: s.spawning,
                                cooldown: s.cooldown,
                                cooldown_rem: s.cooldown,
                                bullet_speed: s.bullet_speed,
                            },
                        ),
                    );
                    let bullet = world.create_entity();
                    let pos = world.positions[i].unwrap();
                    let ang = world.angles[i].unwrap();
                    world.request_attach(
                        bullet,
                        ComponentValue::Vel(Velocity { speed: s.bullet_speed, direction: ang }),
                    );
                    world.request_attach(bullet, ComponentValue::Pos(pos));
                    world.request_attach(bullet, ComponentValue::Ang(ang));
                    world.request_attach(
                        bullet,
                        ComponentValue::AngVel(
                            AngularVelocity { speed: 2, rotation: Rotation::Clockwise },
                        ),
                    );
                    world.request_attach(
                        bullet,
                        ComponentValue::Spr(Sprite { spritesheet: 0, region: tank_region_x() }),
                    );
                    proof {
                        assert(fires_at(w0, i as int));
                        assert(world@.pending =~= w0.pending + pending_added(w0, i as int + 1));
                    }
                } else {
                    if s.cooldown_rem > 0 {
                        world.spawners.set(
                            i,
                            Some(
                                BulletSpawner {
                                    spawning: s.spawning,
                                    cooldown: s.cooldown,
                                    cooldown_rem: s.cooldown_rem - 1,
                                    bullet_speed: s.bullet_speed,
                                },
                            ),
                        );
                    }
                    proof {
                        assert(!fires_at(w0, i as int));
                        assert(world@.pending =~= w0.pending + pending_added(w0, i as int + 1));
                    }
                }
            } else {
                proof {
                    assert(!fires_at(w0, i as int));
                    assert(world@.pending =~= w0.pending + pending_added(w0, i as int + 1));
                }
            }
            i = i + 1;
        }
        proof {
            assert(world@.spawners =~= stepped_spawners(w0));
            assert(world@ =~= spawn_applied(w0));
        }
    }
}

} // verus!
