//! The component store and entity lifecycle manager: typed per-kind tables
//! keyed by entity identity, synchronous identity reservation, and a command
//! buffer of attachment requests that becomes visible only at the single
//! per-tick maintenance flush.

use vstd::prelude::*;
use vstd::pervasive::VecAdditionalExecFns;

use crate::components::Angle;
use crate::components::AngularVelocity;
use crate::components::BulletSpawner;
use crate::components::KeyboardControlled;
use crate::components::LayeredSprite;
use crate::components::Position;
use crate::components::Region;
use crate::components::Rotation;
use crate::components::Sprite;
use crate::components::Velocity;

verus! {

/// A component value of any kind, as carried by a buffered attachment
/// request.
#[derive(Clone, Debug)]
pub enum ComponentValue {
    Pos(Position),
    Ang(Angle),
    Vel(Velocity),
    AngVel(AngularVelocity),
    Control(KeyboardControlled),
    Spawn(BulletSpawner),
    Spr(Sprite),
    Layer(LayeredSprite),
}

impl ComponentValue {
    /// Component validity: orientations and travel directions are
    /// normalized.
    pub open spec fn wf(self) -> bool {
        match self {
            ComponentValue::Ang(a) => a.wf(),
            ComponentValue::Vel(v) => v.wf(),
            _ => true,
        }
    }
}

/// A buffered request to attach a component value to an entity, applied at
/// the maintenance flush.
#[derive(Clone, Debug)]
pub struct PendingAttach {
    pub entity: usize,
    pub value: ComponentValue,
}

impl PendingAttach {
    /// A request is valid for a world whose allocation bound is `next`: it
    /// targets a reserved identity and carries a valid value.
    pub open spec fn wf_for(self, next: nat) -> bool {
        &&& (self.entity as nat) < next
        &&& self.value.wf()
    }
}

/// The mathematical model of the world: one sequence per component table
/// (indexed by entity identity, `None` where the entity lacks the kind),
/// the allocation bound of reserved identities, and the buffer of pending
/// attachment requests.
#[verifier::ext_equal]
pub ghost struct WorldView {
    pub next: nat,
    pub positions: Seq<Option<Position>>,
    pub angles: Seq<Option<Angle>>,
    pub velocities: Seq<Option<Velocity>>,
    pub angular_velocities: Seq<Option<AngularVelocity>>,
    pub controls: Seq<Option<KeyboardControlled>>,
    pub spawners: Seq<Option<BulletSpawner>>,
    pub sprites: Seq<Option<Sprite>>,
    pub layered_sprites: Seq<Option<LayeredSprite>>,
    pub pending: Seq<PendingAttach>,
}

impl WorldView {
    /// Number of live entities: identities whose components are visible in
    /// the tables. Reserved-but-unflushed identities lie in
    /// `[live, next)`.
    pub open spec fn live(self) -> nat {
        self.positions.len()
    }

    /// Every component table has one slot per live entity.
    pub open spec fn tables_len_ok(self) -> bool {
        &&& self.angles.len() == self.live()
        &&& self.velocities.len() == self.live()
        &&& self.angular_velocities.len() == self.live()
        &&& self.controls.len() == self.live()
        &&& self.spawners.len() == self.live()
        &&& self.sprites.len() == self.live()
        &&& self.layered_sprites.len() == self.live()
    }

    /// Every stored orientation and travel direction is normalized.
    pub open spec fn angles_ok(self) -> bool {
        &&& forall|i: int|
            0 <= i < self.angles.len() ==> ((#[trigger] self.angles[i]) matches Some(a)
                ==> a.wf())
        &&& forall|i: int|
            0 <= i < self.velocities.len() ==> ((#[trigger] self.velocities[i]) matches Some(v)
                ==> v.wf())
    }

    /// Every buffered request targets a reserved identity and carries a
    /// valid value.
    pub open spec fn pending_ok(self) -> bool {
        forall|i: int|
            0 <= i < self.pending.len() ==> (#[trigger] self.pending[i]).wf_for(self.next)
    }

    /// Well-formedness of the whole store.
    pub open spec fn wf(self) -> bool {
        &&& self.tables_len_ok()
        &&& self.live() <= self.next
        &&& self.angles_ok()
        &&& self.pending_ok()
    }

    /// The world with no entities, no reservations and no pending requests.
    pub open spec fn empty() -> WorldView {
        WorldView {
            next: 0,
            positions: Seq::empty(),
            angles: Seq::empty(),
            velocities: Seq::empty(),
            angular_velocities: Seq::empty(),
            controls: Seq::empty(),
            spawners: Seq::empty(),
            sprites: Seq::empty(),
            layered_sprites: Seq::empty(),
            pending: Seq::empty(),
        }
    }
}

/// A table extended with empty slots up to `n` entities.
pub open spec fn extended<T>(s: Seq<Option<T>>, n: nat) -> Seq<Option<T>>
    recommends
        s.len() <= n,
{
    Seq::new(n, |i: int| if i < s.len() { s[i] } else { None })
}

/// The world with every table extended so that each reserved identity has
/// a slot; the first half of the maintenance flush.
pub open spec fn grown(w: WorldView) -> WorldView {
    WorldView {
        positions: extended(w.positions, w.next),
        angles: extended(w.angles, w.next),
        velocities: extended(w.velocities, w.next),
        angular_velocities: extended(w.angular_velocities, w.next),
        controls: extended(w.controls, w.next),
        spawners: extended(w.spawners, w.next),
        sprites: extended(w.sprites, w.next),
        layered_sprites: extended(w.layered_sprites, w.next),
        ..w
    }
}

/// One attachment request applied to the live tables.
pub open spec fn apply_one(w: WorldView, p: PendingAttach) -> WorldView
    recommends
        (p.entity as nat) < w.live(),
{
    let e = p.entity as int;
    match p.value {
        ComponentValue::Pos(v) => WorldView { positions: w.positions.update(e, Some(v)), ..w },
        ComponentValue::Ang(v) => WorldView { angles: w.angles.update(e, Some(v)), ..w },
        ComponentValue::Vel(v) => WorldView { velocities: w.velocities.update(e, Some(v)), ..w },
        ComponentValue::AngVel(v) => WorldView {
            angular_velocities: w.angular_velocities.update(e, Some(v)),
            ..w
        },
        ComponentValue::Control(v) => WorldView { controls: w.controls.update(e, Some(v)), ..w },
        ComponentValue::Spawn(v) => WorldView { spawners: w.spawners.update(e, Some(v)), ..w },
        ComponentValue::Spr(v) => WorldView { sprites: w.sprites.update(e, Some(v)), ..w },
        ComponentValue::Layer(v) => WorldView {
            layered_sprites: w.layered_sprites.update(e, Some(v)),
            ..w
        },
    }
}

/// A whole buffer of attachment requests applied in order.
pub open spec fn apply_attaches(w: WorldView, ps: Seq<PendingAttach>) -> WorldView
    decreases ps.len(),
{
    if ps.len() == 0 {
        w
    } else {
        apply_one(apply_attaches(w, ps.drop_last()), ps.last())
    }
}

/// The maintenance flush: tables grown to cover every reserved identity,
/// all buffered requests applied in order, and the buffer emptied. This is
/// the only transition that makes mid-tick creations visible.
pub open spec fn flushed(w: WorldView) -> WorldView {
    WorldView { pending: Seq::empty(), ..apply_attaches(grown(w), w.pending) }
}

/// The component store. All component data lives here, one `Vec` per
/// component kind, indexed by entity identity; `pending` buffers deferred
/// creations and attachments until `flush`.
pub struct World {
    pub next_id: usize,
    pub positions: Vec<Option<Position>>,
    pub angles: Vec<Option<Angle>>,
    pub velocities: Vec<Option<Velocity>>,
    pub angular_velocities: Vec<Option<AngularVelocity>>,
    pub controls: Vec<Option<KeyboardControlled>>,
    pub spawners: Vec<Option<BulletSpawner>>,
    pub sprites: Vec<Option<Sprite>>,
    pub layered_sprites: Vec<Option<LayeredSprite>>,
    pub pending: Vec<PendingAttach>,
}

impl View for World {
    type V = WorldView;

    open spec fn view(&self) -> WorldView {
        WorldView {
            next: self.next_id as nat,
            positions: self.positions@,
            angles: self.angles@,
            velocities: self.velocities@,
            angular_velocities: self.angular_velocities@,
            controls: self.controls@,
            spawners: self.spawners@,
            sprites: self.sprites@,
            layered_sprites: self.layered_sprites@,
            pending: self.pending@,
        }
    }
}

impl World {
    pub open spec fn wf(&self) -> bool {
        self@.wf()
    }

    /// A fresh world with no entities.
    pub fn new() -> (w: World)
        ensures
            w@ == WorldView::empty(),
            w.wf(),
    {
        let w = World {
            next_id: 0,
            positions: Vec::new(),
            angles: Vec::new(),
            velocities: Vec::new(),
            angular_velocities: Vec::new(),
            controls: Vec::new(),
            spawners: Vec::new(),
            sprites: Vec::new(),
            layered_sprites: Vec::new(),
            pending: Vec::new(),
        };
        proof {
            assert(w@ =~= WorldView::empty());
        }
        w
    }

    /// Reserves a fresh entity identity synchronously, with no components
    /// attached; its component slots become visible at the next flush.
    pub fn create_entity(&mut self) -> (e: usize)
        requires
            old(self).next_id < usize::MAX,
        ensures
            e as nat == old(self)@.next,
            final(self)@ == (WorldView { next: old(self)@.next + 1, ..old(self)@ }),
            old(self).wf() ==> final(self).wf(),
    {
        let e = self.next_id;
        self.next_id = self.next_id + 1;
        proof {
            assert(self@ =~= (WorldView { next: old(self)@.next + 1, ..old(self)@ }));
        }
        e
    }

    /// Buffers a request to attach `value` to entity `e`; invisible to all
    /// reads until the next flush.
    pub fn request_attach(&mut self, e: usize, value: ComponentValue)
        requires
            e < old(self).next_id,
            value.wf(),
        ensures
            final(self)@ == (WorldView {
                pending: old(self)@.pending.push(PendingAttach { entity: e, value }),
                ..old(self)@
            }),
            old(self).wf() ==> final(self).wf(),
    {
        self.pending.push(PendingAttach { entity: e, value });
        proof {
            assert(self@ =~= (WorldView {
                pending: old(self)@.pending.push(PendingAttach { entity: e, value: value }),
                ..old(self)@
            }));
        }
    }

    /// Reserves a fresh identity and buffers one attachment request per
    /// given component; the new entity becomes visible at the next flush.
    pub fn request_create_with(&mut self, components: Vec<ComponentValue>) -> (e: usize)
        requires
            old(self).next_id < usize::MAX,
            forall|i: int| 0 <= i < components@.len() ==> (#[trigger] components@[i]).wf(),
        ensures
            e as nat == old(self)@.next,
            final(self)@ == (WorldView {
                next: old(self)@.next + 1,
                pending: old(self)@.pending + Seq::new(
                    components@.len(),
                    |i: int| PendingAttach { entity: e, value: components@[i] },
                ),
                ..old(self)@
            }),
            old(self).wf() ==> final(self).wf(),
    {
        let e = self.create_entity();
        let ghost reserved = self@;
        let ghost comps = components@;
        let mut components = components;
        let mut k: usize = 0;
        let n = components.len();
        while k < n
            invariant
                n == comps.len(),
                k <= n,
                components@ == comps.skip(k as int),
                e < self.next_id,
                forall|i: int| 0 <= i < comps.len() ==> (#[trigger] comps[i]).wf(),
                self@ == (WorldView {
                    pending: reserved.pending + Seq::new(
                        k as nat,
                        |i: int| PendingAttach { entity: e, value: comps[i] },
                    ),
                    ..reserved
                }),
            decreases n - k,
        {
            let c = components.remove(0);
            proof {
                assert(c == comps[k as int]);
            }
            self.request_attach(e, c);
            k = k + 1;
            proof {
                assert(components@ =~= comps.skip(k as int));
            }
            proof {
                assert(self@.pending =~= reserved.pending + Seq::new(
                    k as nat,
                    |i: int| PendingAttach { entity: e, value: comps[i] },
                ));
                assert(self@ =~= (WorldView {
                    pending: reserved.pending + Seq::new(
                        k as nat,
                        |i: int| PendingAttach { entity: e, value: comps[i] },
                    ),
                    ..reserved
                }));
            }
        }
        proof {
            assert(self@ =~= (WorldView {
                next: old(self)@.next + 1,
                pending: old(self)@.pending + Seq::new(
                    comps.len(),
                    |i: int| PendingAttach { entity: e, value: comps[i] },
                ),
                ..old(self)@
            }));
        }
        e
    }

    /// Creates an entity with the given components attached immediately,
    /// as the bootstrap does at world initialization, before any tick runs.
    /// Requires a settled world: every reserved identity already live.
    pub fn build_entity(
        &mut self,
        position: Option<Position>,
        angle: Option<Angle>,
        velocity: Option<Velocity>,
        angular_velocity: Option<AngularVelocity>,
        control: Option<KeyboardControlled>,
        spawner: Option<BulletSpawner>,
        sprite: Option<Sprite>,
        layered: Option<LayeredSprite>,
    ) -> (e: usize)
        requires
            old(self).wf(),
            old(self)@.live() == old(self)@.next,
            old(self).next_id < usize::MAX,
            angle matches Some(a) ==> a.wf(),
            velocity matches Some(v) ==> v.wf(),
        ensures
            e as nat == old(self)@.next,
            final(self)@ == (WorldView {
                next: old(self)@.next + 1,
                positions: old(self)@.positions.push(position),
                angles: old(self)@.angles.push(angle),
                velocities: old(self)@.velocities.push(velocity),
                angular_velocities: old(self)@.angular_velocities.push(angular_velocity),
                controls: old(self)@.controls.push(control),
                spawners: old(self)@.spawners.push(spawner),
                sprites: old(self)@.sprites.push(sprite),
                layered_sprites: old(self)@.layered_sprites.push(layered),
                ..old(self)@
            }),
            final(self).wf(),
            final(self)@.live() == final(self)@.next,
    {
        let e = self.next_id;
        self.next_id = self.next_id + 1;
        self.positions.push(position);
        self.angles.push(angle);
        self.velocities.push(velocity);
        self.angular_velocities.push(angular_velocity);
        self.controls.push(control);
        self.spawners.push(spawner);
        self.sprites.push(sprite);
        self.layered_sprites.push(layered);
        e
    }

    /// The maintenance step: applies every buffered creation and
    /// attachment to the live tables, exactly once per tick, after all
    /// systems have run. The sole externally visible state transition for
    /// entity lifecycle.
    pub fn flush(&mut self)
        requires
            old(self).wf(),
        ensures
            final(self)@ == flushed(old(self)@),
            final(self).wf(),
            final(self)@.live() == old(self)@.next,
            final(self)@.next == old(self)@.next,
    {
        let n = self.next_id;
        grow_table(&mut self.positions, n);
        grow_table(&mut self.angles, n);
        grow_table(&mut self.velocities, n);
        grow_table(&mut self.angular_velocities, n);
        grow_table(&mut self.controls, n);
        grow_table(&mut self.spawners, n);
        grow_table(&mut self.sprites, n);
        grow_table(&mut self.layered_sprites, n);
        proof {
            assert(self@ =~= grown(old(self)@));
        }
        let ghost w0 = self@;
        let ghost k: int = 0;
        while self.pending.len() > 0
            invariant
                0 <= k <= w0.pending.len(),
                w0.wf(),
                w0.live() == w0.next,
                self@.pending == w0.pending.skip(k),
                same_tables(self@, apply_attaches(w0, w0.pending.take(k))),
                self@.next == w0.next,
                self@.tables_len_ok(),
                self@.live() == w0.next,
                self@.angles_ok(),
            decreases self.pending.len(),
        {
            proof {
                assert(w0.pending[k].wf_for(w0.next));
            }
            let p = self.pending.remove(0);
            let e = p.entity;
            let ghost pre = self@;
            match p.value {
                ComponentValue::Pos(v) => self.positions.set(e, Some(v)),
                ComponentValue::Ang(v) => self.angles.set(e, Some(v)),
                ComponentValue::Vel(v) => self.velocities.set(e, Some(v)),
                ComponentValue::AngVel(v) => self.angular_velocities.set(e, Some(v)),
                ComponentValue::Control(v) => self.controls.set(e, Some(v)),
                ComponentValue::Spawn(v) => self.spawners.set(e, Some(v)),
                ComponentValue::Spr(v) => self.sprites.set(e, Some(v)),
                ComponentValue::Layer(v) => self.layered_sprites.set(e, Some(v)),
            }
            proof {
                assert(self@.pending =~= w0.pending.skip(k + 1));
                assert(w0.pending.take(k + 1).drop_last() =~= w0.pending.take(k));
                assert(w0.pending.take(k + 1).last() == w0.pending[k]);
                assert(same_tables(self@, apply_attaches(w0, w0.pending.take(k + 1))));
                k = k + 1;
            }
        }
        proof {
            assert(w0.pending.take(k) =~= w0.pending);
        }
        self.pending.clear();
        proof {
            assert(self@ =~= flushed(old(self)@));
        }
    }
}

/// Equality of the component tables and the allocation bound of two world
/// views, leaving the pending buffer aside.
pub open spec fn same_tables(a: WorldView, b: WorldView) -> bool {
    &&& a.next == b.next
    &&& a.positions == b.positions
    &&& a.angles == b.angles
    &&& a.velocities == b.velocities
    &&& a.angular_velocities == b.angular_velocities
    &&& a.controls == b.controls
    &&& a.spawners == b.spawners
    &&& a.sprites == b.sprites
    &&& a.layered_sprites == b.layered_sprites
}

/// The fixed bootstrap world: a player-controlled tank base and turret at
/// the origin (the turret carrying an inactive spawner), and a non-player
/// decoy base and turret that rotate on their own (the decoy turret
/// spawning continuously).
pub fn initialize_tank(world: &mut World, tank_base_sprite: usize, tank_turret_sprite: usize)
    requires
        old(world).wf(),
        old(world)@.live() == old(world)@.next,
        old(world)@.next + 4 <= usize::MAX,
    ensures
        final(world).wf(),
        final(world)@.next == old(world)@.next + 4,
        final(world)@.live() == final(world)@.next,
        final(world)@.pending == old(world)@.pending,
        final(world)@.positions == old(world)@.positions + seq![
            Some(Position { x: 0, y: 0 }),
            Some(Position { x: 0, y: 0 }),
            Some(Position { x: 10, y: 0 }),
            Some(Position { x: 10, y: 0 }),
        ],
        final(world)@.angles == old(world)@.angles + seq![
            Some(Angle { angle: 0 }),
            Some(Angle { angle: 0 }),
            Some(Angle { angle: 0 }),
            Some(Angle { angle: 10 }),
        ],
        final(world)@.sprites == old(world)@.sprites + seq![
            Some(Sprite { spritesheet: tank_base_sprite, region: tank_region() }),
            Some(Sprite { spritesheet: tank_turret_sprite, region: tank_region() }),
            Some(Sprite { spritesheet: tank_base_sprite, region: tank_region() }),
            Some(Sprite { spritesheet: tank_turret_sprite, region: tank_region() }),
        ],
        final(world)@.controls == old(world)@.controls + seq![
            Some(KeyboardControlled { speed: 20, rotation_speed: 1 }),
            Some(KeyboardControlled { speed: 20, rotation_speed: 1 }),
            None,
            None,
        ],
        final(world)@.velocities == old(world)@.velocities + seq![
            Some(Velocity { speed: 0, direction: Angle { angle: 0 } }),
            Some(Velocity { speed: 0, direction: Angle { angle: 0 } }),
            Some(Velocity { speed: 0, direction: Angle { angle: 0 } }),
            None,
        ],
        final(world)@.angular_velocities == old(world)@.angular_velocities + seq![
            None,
            Some(AngularVelocity { speed: 0, rotation: Rotation::Clockwise }),
            Some(AngularVelocity { speed: 2, rotation: Rotation::Clockwise }),
            Some(AngularVelocity { speed: 3, rotation: Rotation::Clockwise }),
        ],
        final(world)@.spawners == old(world)@.spawners + seq![
            None,
            Some(BulletSpawner { spawning: false, cooldown: 2, cooldown_rem: 0, bullet_speed: 15 }),
            None,
            Some(BulletSpawner { spawning: true, cooldown: 15, cooldown_rem: 0, bullet_speed: 8 }),
        ],
        final(world)@.layered_sprites == old(world)@.layered_sprites + seq![
            None,
            None,
            None,
            None,
        ],
{
    // The player tank base.
    world.build_entity(
        Some(Position { x: 0, y: 0 }),
        Some(Angle { angle: 0 }),
        Some(Velocity { speed: 0, direction: Angle { angle: 0 } }),
        None,
        Some(KeyboardControlled { speed: 20, rotation_speed: 1 }),
        None,
        Some(Sprite { spritesheet: tank_base_sprite, region: tank_region_x() }),
        None,
    );
    // The player tank turret, carrying the player's spawner.
    world.build_entity(
        Some(Position { x: 0, y: 0 }),
        Some(Angle { angle: 0 }),
        Some(Velocity { speed: 0, direction: Angle { angle: 0 } }),
        Some(AngularVelocity { speed: 0, rotation: Rotation::Clockwise }),
        Some(KeyboardControlled { speed: 20, rotation_speed: 1 }),
        Some(BulletSpawner { spawning: false, cooldown: 2, cooldown_rem: 0, bullet_speed: 15 }),
        Some(Sprite { spritesheet: tank_turret_sprite, region: tank_region_x() }),
        None,
    );
    // The decoy base: rotates on its own, no player control.
    world.build_entity(
        Some(Position { x: 10, y: 0 }),
        Some(Angle { angle: 0 }),
        Some(Velocity { speed: 0, direction: Angle { angle: 0 } }),
        Some(AngularVelocity { speed: 2, rotation: Rotation::Clockwise }),
        None,
        None,
        Some(Sprite { spritesheet: tank_base_sprite, region: tank_region_x() }),
        None,
    );
    // The decoy turret: rotates and spawns continuously.
    world.build_entity(
        Some(Position { x: 10, y: 0 }),
        Some(Angle { angle: 10 }),
        None,
        Some(AngularVelocity { speed: 3, rotation: Rotation::Clockwise }),
        None,
        Some(BulletSpawner { spawning: true, cooldown: 15, cooldown_rem: 0, bullet_speed: 8 }),
        Some(Sprite { spritesheet: tank_turret_sprite, region: tank_region_x() }),
        None,
    );
    proof {
        assert(world@.positions =~= old(world)@.positions + seq![
            Some(Position { x: 0, y: 0 }),
            Some(Position { x: 0, y: 0 }),
            Some(Position { x: 10, y: 0 }),
            Some(Position { x: 10, y: 0 }),
        ]);
        assert(world@.angles =~= old(world)@.angles + seq![
            Some(Angle { angle: 0 }),
            Some(Angle { angle: 0 }),
            Some(Angle { angle: 0 }),
            Some(Angle { angle: 10 }),
        ]);
        assert(world@.sprites =~= old(world)@.sprites + seq![
            Some(Sprite { spritesheet: tank_base_sprite, region: tank_region() }),
            Some(Sprite { spritesheet: tank_turret_sprite, region: tank_region() }),
            Some(Sprite { spritesheet: tank_base_sprite, region: tank_region() }),
            Some(Sprite { spritesheet: tank_turret_sprite, region: tank_region() }),
        ]);
        assert(world@.controls =~= old(world)@.controls + seq![
            Some(KeyboardControlled { speed: 20, rotation_speed: 1 }),
            Some(KeyboardControlled { speed: 20, rotation_speed: 1 }),
            None,
            None,
        ]);
        assert(world@.velocities =~= old(world)@.velocities + seq![
            Some(Velocity { speed: 0, direction: Angle { angle: 0 } }),
            Some(Velocity { speed: 0, direction: Angle { angle: 0 } }),
            Some(Velocity { speed: 0, direction: Angle { angle: 0 } }),
            None,
        ]);
        assert(world@.angular_velocities =~= old(world)@.angular_velocities + seq![
            None,
            Some(AngularVelocity { speed: 0, rotation: Rotation::Clockwise }),
            Some(AngularVelocity { speed: 2, rotation: Rotation::Clockwise }),
            Some(AngularVelocity { speed: 3, rotation: Rotation::Clockwise }),
        ]);
        assert(world@.spawners =~= old(world)@.spawners + seq![
            None,
            Some(BulletSpawner { spawning: false, cooldown: 2, cooldown_rem: 0, bullet_speed: 15 }),
            None,
            Some(BulletSpawner { spawning: true, cooldown: 15, cooldown_rem: 0, bullet_speed: 8 }),
        ]);
        assert(world@.layered_sprites =~= old(world)@.layered_sprites + seq![
            None,
            None,
            None,
            None,
        ]);
    }
}

/// The spritesheet region every tank part and bullet is drawn from.
pub open spec fn tank_region() -> Region {
    Region { x: 0, y: 0, width: 32, height: 32 }
}

/// Executable counterpart of `tank_region`.
pub fn tank_region_x() -> (r: Region)
    ensures
        r == tank_region(),
{
    Region { x: 0, y: 0, width: 32, height: 32 }
}

/// Applying attachment requests to live entities preserves table shapes,
/// the allocation bound and the pending buffer.
pub proof fn lemma_apply_attaches_shape(w: WorldView, ps: Seq<PendingAttach>)
    requires
        w.tables_len_ok(),
        forall|k: int| 0 <= k < ps.len() ==> ((#[trigger] ps[k]).entity as nat) < w.live(),
    ensures
        apply_attaches(w, ps).next == w.next,
        apply_attaches(w, ps).live() == w.live(),
        apply_attaches(w, ps).tables_len_ok(),
        apply_attaches(w, ps).pending == w.pending,
    decreases ps.len(),
{
    if ps.len() > 0 {
        lemma_apply_attaches_shape(w, ps.drop_last());
    }
}

/// Applying valid attachment requests also preserves component validity.
pub proof fn lemma_apply_attaches_wf(w: WorldView, ps: Seq<PendingAttach>)
    requires
        w.tables_len_ok(),
        w.angles_ok(),
        forall|k: int|
            0 <= k < ps.len() ==> ((#[trigger] ps[k]).entity as nat) < w.live()
                && ps[k].value.wf(),
    ensures
        apply_attaches(w, ps).next == w.next,
        apply_attaches(w, ps).live() == w.live(),
        apply_attaches(w, ps).tables_len_ok(),
        apply_attaches(w, ps).angles_ok(),
        apply_attaches(w, ps).pending == w.pending,
    decreases ps.len(),
{
    if ps.len() > 0 {
        lemma_apply_attaches_wf(w, ps.drop_last());
    }
}

/// Requests that never name entity `i` leave every table's slot `i`
/// untouched.
pub proof fn lemma_apply_attaches_untouched(w: WorldView, ps: Seq<PendingAttach>, i: int)
    requires
        w.tables_len_ok(),
        0 <= i < w.live(),
        forall|k: int| 0 <= k < ps.len() ==> ((#[trigger] ps[k]).entity as int) != i,
        forall|k: int| 0 <= k < ps.len() ==> ((#[trigger] ps[k]).entity as nat) < w.live(),
    ensures
        apply_attaches(w, ps).positions[i] == w.positions[i],
        apply_attaches(w, ps).angles[i] == w.angles[i],
        apply_attaches(w, ps).velocities[i] == w.velocities[i],
        apply_attaches(w, ps).angular_velocities[i] == w.angular_velocities[i],
        apply_attaches(w, ps).controls[i] == w.controls[i],
        apply_attaches(w, ps).spawners[i] == w.spawners[i],
        apply_attaches(w, ps).sprites[i] == w.sprites[i],
        apply_attaches(w, ps).layered_sprites[i] == w.layered_sprites[i],
    decreases ps.len(),
{
    if ps.len() > 0 {
        lemma_apply_attaches_untouched(w, ps.drop_last(), i);
        lemma_apply_attaches_shape(w, ps.drop_last());
    }
}

/// Folding a concatenation of request buffers equals folding each part in
/// turn.
pub proof fn lemma_apply_attaches_concat(
    w: WorldView,
    ps1: Seq<PendingAttach>,
    ps2: Seq<PendingAttach>,
)
    ensures
        apply_attaches(w, ps1 + ps2) == apply_attaches(apply_attaches(w, ps1), ps2),
    decreases ps2.len(),
{
    if ps2.len() == 0 {
        assert(ps1 + ps2 =~= ps1);
    } else {
        lemma_apply_attaches_concat(w, ps1, ps2.drop_last());
        assert((ps1 + ps2).drop_last() =~= ps1 + ps2.drop_last());
        assert((ps1 + ps2).last() == ps2.last());
    }
}

/// A slot already filled stays filled under any run of attachment
/// requests: a request can only write a value, never clear one.
pub proof fn lemma_apply_attaches_keeps_some(w: WorldView, ps: Seq<PendingAttach>, b: int)
    requires
        w.tables_len_ok(),
        0 <= b < w.live(),
        forall|k: int| 0 <= k < ps.len() ==> ((#[trigger] ps[k]).entity as nat) < w.live(),
        w.positions[b] is Some,
        w.velocities[b] is Some,
    ensures
        apply_attaches(w, ps).positions[b] is Some,
        apply_attaches(w, ps).velocities[b] is Some,
    decreases ps.len(),
{
    if ps.len() > 0 {
        lemma_apply_attaches_keeps_some(w, ps.drop_last(), b);
        lemma_apply_attaches_shape(w, ps.drop_last());
    }
}

/// The flush preserves well-formedness, makes every reserved identity
/// live, and empties the buffer.
pub proof fn lemma_flushed_wf(w: WorldView)
    requires
        w.wf(),
    ensures
        flushed(w).wf(),
        flushed(w).live() == w.next,
        flushed(w).next == w.next,
        flushed(w).pending.len() == 0,
{
    assert(grown(w).angles_ok()) by {
        assert forall|i: int|
            0 <= i < grown(w).angles.len() implies ((#[trigger] grown(w).angles[i]) matches Some(
            a,
        ) ==> a.wf()) by {
            if i < w.angles.len() {
                assert(grown(w).angles[i] == w.angles[i]);
            }
        }
        assert forall|i: int|
            0 <= i < grown(w).velocities.len() implies ((#[trigger] grown(
            w,
        ).velocities[i]) matches Some(v) ==> v.wf()) by {
            if i < w.velocities.len() {
                assert(grown(w).velocities[i] == w.velocities[i]);
            }
        }
    }
    lemma_apply_attaches_wf(grown(w), w.pending);
}

/// A flush never touches the slots of a live entity that none of the
/// buffered requests name.
pub proof fn lemma_flushed_low(w: WorldView, i: int)
    requires
        w.wf(),
        0 <= i < w.live(),
        forall|k: int| 0 <= k < w.pending.len() ==> ((#[trigger] w.pending[k]).entity as int) != i,
    ensures
        flushed(w).positions[i] == w.positions[i],
        flushed(w).angles[i] == w.angles[i],
        flushed(w).velocities[i] == w.velocities[i],
        flushed(w).angular_velocities[i] == w.angular_velocities[i],
        flushed(w).controls[i] == w.controls[i],
        flushed(w).spawners[i] == w.spawners[i],
        flushed(w).sprites[i] == w.sprites[i],
        flushed(w).layered_sprites[i] == w.layered_sprites[i],
{
    lemma_apply_attaches_untouched(grown(w), w.pending, i);
}

fn grow_table<T>(v: &mut Vec<Option<T>>, n: usize)
    requires
        old(v)@.len() <= n,
    ensures
        final(v)@ == extended(old(v)@, n as nat),
{
    while v.len() < n
        invariant
            old(v)@.len() <= v@.len() <= n,
            v@ == extended(old(v)@, v@.len()),
        decreases n - v@.len(),
    {
        v.push(None);
        proof {
            assert(v@ =~= extended(old(v)@, v@.len()));
        }
    }
    proof {
        assert(v@ =~= extended(old(v)@, n as nat));
    }
}

} // verus!
