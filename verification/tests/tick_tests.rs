use rusty_tanks::components::Angle;
use rusty_tanks::components::AngularVelocity;
use rusty_tanks::components::KeyboardControlled;
use rusty_tanks::components::Position;
use rusty_tanks::components::Rotation;
use rusty_tanks::components::Velocity;
use rusty_tanks::tick::tick;
use rusty_tanks::world::World;
use rusty_tanks::MovementCommand;

#[test]
fn end_to_end_translation_then_commanded_turn() {
    let mut w = World::new();
    w.build_entity(
        Some(Position { x: 0, y: 0 }),
        Some(Angle { angle: 350 }),
        Some(Velocity { speed: 20, direction: Angle { angle: 0 } }),
        Some(AngularVelocity { speed: 2, rotation: Rotation::Clockwise }),
        Some(KeyboardControlled { speed: 20, rotation_speed: 2 }),
        None,
        None,
        None,
    );
    // One integration tick moves the entity to (20, 0) and wraps the
    // orientation 350 + 2 to 352 — never a negative or out-of-range value.
    assert_eq!(tick(&mut w, None, None, None), Ok(()));
    assert_eq!(w.positions[0], Some(Position { x: 20, y: 0 }));
    assert_eq!(w.angles[0], Some(Angle { angle: 352 }));

    // A Move(90) command redirects travel upward for the next tick.
    assert_eq!(tick(&mut w, Some(MovementCommand::Move(Angle { angle: 90 })), None, None), Ok(()));
    assert_eq!(w.velocities[0], Some(Velocity { speed: 20, direction: Angle { angle: 90 } }));
    assert_eq!(w.positions[0], Some(Position { x: 20, y: 20 }));
    assert_eq!(w.angles[0], Some(Angle { angle: 354 }));
}

#[test]
fn a_tick_with_no_commands_still_integrates() {
    let mut w = World::new();
    w.build_entity(
        Some(Position { x: 3, y: -3 }),
        None,
        Some(Velocity { speed: 1, direction: Angle { angle: 180 } }),
        None,
        None,
        None,
        None,
        None,
    );
    assert_eq!(tick(&mut w, None, None, None), Ok(()));
    assert_eq!(w.positions[0], Some(Position { x: 2, y: -3 }));
}
