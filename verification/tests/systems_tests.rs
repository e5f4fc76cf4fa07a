use rusty_tanks::components::Angle;
use rusty_tanks::components::AngularVelocity;
use rusty_tanks::components::BulletSpawner;
use rusty_tanks::components::KeyboardControlled;
use rusty_tanks::components::Position;
use rusty_tanks::components::Rotation;
use rusty_tanks::components::Velocity;
use rusty_tanks::keyboard::KeyboardMove;
use rusty_tanks::keyboard::KeyboardRotate;
use rusty_tanks::keyboard::KeyboardShoot;
use rusty_tanks::physics::Physics;
use rusty_tanks::world::World;
use rusty_tanks::MovementCommand;
use rusty_tanks::RotationCommand;
use rusty_tanks::FireCommand;
use rusty_tanks::SimError;

fn player_world() -> World {
    let mut w = World::new();
    w.build_entity(
        Some(Position { x: 0, y: 0 }),
        Some(Angle { angle: 0 }),
        Some(Velocity { speed: 5, direction: Angle { angle: 90 } }),
        Some(AngularVelocity { speed: 4, rotation: Rotation::CounterClockwise }),
        Some(KeyboardControlled { speed: 20, rotation_speed: 3 }),
        Some(BulletSpawner { spawning: false, cooldown: 2, cooldown_rem: 0, bullet_speed: 15 }),
        None,
        None,
    );
    w
}

#[test]
fn movement_none_changes_nothing() {
    let mut w = player_world();
    KeyboardMove.run(None, &mut w);
    assert_eq!(w.velocities[0], Some(Velocity { speed: 5, direction: Angle { angle: 90 } }));
}

#[test]
fn movement_move_sets_speed_constant_and_direction() {
    let mut w = player_world();
    KeyboardMove.run(Some(MovementCommand::Move(Angle { angle: 180 })), &mut w);
    assert_eq!(w.velocities[0], Some(Velocity { speed: 20, direction: Angle { angle: 180 } }));
}

#[test]
fn movement_ignores_entities_without_the_player_tag() {
    let mut w = player_world();
    w.build_entity(
        None,
        None,
        Some(Velocity { speed: 9, direction: Angle { angle: 45 } }),
        None,
        None,
        None,
        None,
        None,
    );
    KeyboardMove.run(Some(MovementCommand::Move(Angle { angle: 0 })), &mut w);
    assert_eq!(w.velocities[1], Some(Velocity { speed: 9, direction: Angle { angle: 45 } }));
}

#[test]
fn stop_zeroes_only_the_speed_and_move_restores_it() {
    let mut w = player_world();
    KeyboardMove.run(Some(MovementCommand::Stop), &mut w);
    // Only the speed field is zeroed; the direction survives the stop.
    assert_eq!(w.velocities[0], Some(Velocity { speed: 0, direction: Angle { angle: 90 } }));
    KeyboardMove.run(Some(MovementCommand::Move(Angle { angle: 270 })), &mut w);
    // The restart is independent of the pre-stop direction.
    assert_eq!(w.velocities[0], Some(Velocity { speed: 20, direction: Angle { angle: 270 } }));
}

#[test]
fn rotation_stop_keeps_the_rotation_sign() {
    let mut w = player_world();
    KeyboardRotate.run(Some(RotationCommand::Stop), &mut w);
    assert_eq!(
        w.angular_velocities[0],
        Some(AngularVelocity { speed: 0, rotation: Rotation::CounterClockwise })
    );
    KeyboardRotate.run(Some(RotationCommand::Move(Rotation::Clockwise)), &mut w);
    assert_eq!(
        w.angular_velocities[0],
        Some(AngularVelocity { speed: 3, rotation: Rotation::Clockwise })
    );
}

#[test]
fn fire_flips_only_the_spawning_flag() {
    let mut w = player_world();
    KeyboardShoot.run(Some(FireCommand::Fire), &mut w);
    assert_eq!(
        w.spawners[0],
        Some(BulletSpawner { spawning: true, cooldown: 2, cooldown_rem: 0, bullet_speed: 15 })
    );
    KeyboardShoot.run(Some(FireCommand::Stop), &mut w);
    assert_eq!(
        w.spawners[0],
        Some(BulletSpawner { spawning: false, cooldown: 2, cooldown_rem: 0, bullet_speed: 15 })
    );
}

#[test]
fn integration_moves_along_the_velocity_direction() {
    let mut w = World::new();
    w.build_entity(
        Some(Position { x: 0, y: 0 }),
        None,
        Some(Velocity { speed: 20, direction: Angle { angle: 0 } }),
        None,
        None,
        None,
        None,
        None,
    );
    assert_eq!(Physics.run(&mut w), Ok(()));
    assert_eq!(w.positions[0], Some(Position { x: 20, y: 0 }));
}

#[test]
fn integration_wraps_orientation_without_going_negative() {
    let mut w = World::new();
    w.build_entity(
        None,
        Some(Angle { angle: 350 }),
        None,
        Some(AngularVelocity { speed: 2, rotation: Rotation::Clockwise }),
        None,
        None,
        None,
        None,
    );
    assert_eq!(Physics.run(&mut w), Ok(()));
    // 350 + 2 stays in range: 352, not a negative or out-of-range value.
    assert_eq!(w.angles[0], Some(Angle { angle: 352 }));
}

#[test]
fn integration_wraps_counterclockwise_past_zero() {
    let mut w = World::new();
    w.build_entity(
        None,
        Some(Angle { angle: 10 }),
        None,
        Some(AngularVelocity { speed: 30, rotation: Rotation::CounterClockwise }),
        None,
        None,
        None,
        None,
    );
    assert_eq!(Physics.run(&mut w), Ok(()));
    // Floor modulo: 10 - 30 wraps to 340, never -20.
    assert_eq!(w.angles[0], Some(Angle { angle: 340 }));
}

#[test]
fn integration_travel_is_decoupled_from_facing() {
    let mut w = World::new();
    w.build_entity(
        Some(Position { x: 0, y: 0 }),
        Some(Angle { angle: 180 }),
        Some(Velocity { speed: 10, direction: Angle { angle: 90 } }),
        None,
        None,
        None,
        None,
        None,
    );
    assert_eq!(Physics.run(&mut w), Ok(()));
    // The entity faces 180 but travels along its velocity direction 90.
    assert_eq!(w.positions[0], Some(Position { x: 0, y: 10 }));
    assert_eq!(w.angles[0], Some(Angle { angle: 180 }));
}

#[test]
fn integration_out_of_range_fails_and_leaves_the_world_untouched() {
    let mut w = World::new();
    w.build_entity(
        Some(Position { x: i32::MAX, y: 0 }),
        None,
        Some(Velocity { speed: 20, direction: Angle { angle: 0 } }),
        None,
        None,
        None,
        None,
        None,
    );
    assert_eq!(Physics.run(&mut w), Err(SimError::PositionOverflow));
    assert_eq!(w.positions[0], Some(Position { x: i32::MAX, y: 0 }));
}
