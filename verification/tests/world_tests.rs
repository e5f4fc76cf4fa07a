use rusty_tanks::components::Angle;
use rusty_tanks::components::AngularVelocity;
use rusty_tanks::components::BulletSpawner;
use rusty_tanks::components::KeyboardControlled;
use rusty_tanks::components::Position;
use rusty_tanks::components::Region;
use rusty_tanks::components::Rotation;
use rusty_tanks::components::Sprite;
use rusty_tanks::components::Velocity;
use rusty_tanks::world::initialize_tank;
use rusty_tanks::world::ComponentValue;
use rusty_tanks::world::World;

fn tank_sprite(sheet: usize) -> Sprite {
    Sprite { spritesheet: sheet, region: Region { x: 0, y: 0, width: 32, height: 32 } }
}

#[test]
fn create_entity_reserves_without_visible_slots() {
    let mut w = World::new();
    let e = w.create_entity();
    assert_eq!(e, 0);
    assert_eq!(w.next_id, 1);
    // The identity is reserved, but no table has a slot for it yet.
    assert_eq!(w.positions.len(), 0);
}

#[test]
fn buffered_attach_is_invisible_until_flush() {
    let mut w = World::new();
    let e = w.create_entity();
    w.request_attach(e, ComponentValue::Pos(Position { x: 3, y: 4 }));
    assert_eq!(w.positions.len(), 0);
    w.flush();
    assert_eq!(w.positions.len(), 1);
    assert_eq!(w.positions[0], Some(Position { x: 3, y: 4 }));
    assert_eq!(w.angles[0], None);
    assert!(w.pending.is_empty());
}

#[test]
fn later_attach_wins_over_earlier() {
    let mut w = World::new();
    let e = w.create_entity();
    w.request_attach(e, ComponentValue::Pos(Position { x: 1, y: 1 }));
    w.request_attach(e, ComponentValue::Pos(Position { x: 2, y: 2 }));
    w.flush();
    assert_eq!(w.positions[0], Some(Position { x: 2, y: 2 }));
}

#[test]
fn attach_to_live_entity_applies_at_next_flush() {
    let mut w = World::new();
    let e = w.create_entity();
    w.flush();
    w.request_attach(e, ComponentValue::Ang(Angle { angle: 30 }));
    // The live table never shows a buffered-but-unflushed mutation.
    assert_eq!(w.angles[0], None);
    w.flush();
    assert_eq!(w.angles[0], Some(Angle { angle: 30 }));
}

#[test]
fn request_create_with_builds_a_whole_entity() {
    let mut w = World::new();
    let e = w.request_create_with(vec![
        ComponentValue::Pos(Position { x: 7, y: -7 }),
        ComponentValue::Ang(Angle { angle: 45 }),
        ComponentValue::Vel(Velocity { speed: 3, direction: Angle { angle: 45 } }),
    ]);
    assert_eq!(e, 0);
    w.flush();
    assert_eq!(w.positions[0], Some(Position { x: 7, y: -7 }));
    assert_eq!(w.angles[0], Some(Angle { angle: 45 }));
    assert_eq!(w.velocities[0], Some(Velocity { speed: 3, direction: Angle { angle: 45 } }));
    assert_eq!(w.spawners[0], None);
}

#[test]
fn initialize_tank_builds_the_reference_world() {
    let mut w = World::new();
    initialize_tank(&mut w, 1, 2);
    assert_eq!(w.next_id, 4);
    assert_eq!(w.positions.len(), 4);

    // The player base.
    assert_eq!(w.positions[0], Some(Position { x: 0, y: 0 }));
    assert_eq!(w.angles[0], Some(Angle { angle: 0 }));
    assert_eq!(w.sprites[0], Some(tank_sprite(1)));
    assert_eq!(w.controls[0], Some(KeyboardControlled { speed: 20, rotation_speed: 1 }));
    assert_eq!(w.velocities[0], Some(Velocity { speed: 0, direction: Angle { angle: 0 } }));
    assert_eq!(w.angular_velocities[0], None);
    assert_eq!(w.spawners[0], None);

    // The player turret carries the inactive spawner.
    assert_eq!(w.sprites[1], Some(tank_sprite(2)));
    assert_eq!(
        w.spawners[1],
        Some(BulletSpawner { spawning: false, cooldown: 2, cooldown_rem: 0, bullet_speed: 15 })
    );
    assert_eq!(
        w.angular_velocities[1],
        Some(AngularVelocity { speed: 0, rotation: Rotation::Clockwise })
    );

    // The decoy base rotates on its own and has no player control.
    assert_eq!(w.positions[2], Some(Position { x: 10, y: 0 }));
    assert_eq!(w.controls[2], None);
    assert_eq!(
        w.angular_velocities[2],
        Some(AngularVelocity { speed: 2, rotation: Rotation::Clockwise })
    );

    // The decoy turret spawns continuously.
    assert_eq!(w.angles[3], Some(Angle { angle: 10 }));
    assert_eq!(
        w.spawners[3],
        Some(BulletSpawner { spawning: true, cooldown: 15, cooldown_rem: 0, bullet_speed: 8 })
    );
    assert_eq!(w.velocities[3], None);
}
