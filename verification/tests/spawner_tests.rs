use rusty_tanks::bulletspawner_system::BulletSpawnerSystem;
use rusty_tanks::components::Angle;
use rusty_tanks::components::AngularVelocity;
use rusty_tanks::components::BulletSpawner;
use rusty_tanks::components::Position;
use rusty_tanks::components::Region;
use rusty_tanks::components::Rotation;
use rusty_tanks::components::Sprite;
use rusty_tanks::components::Velocity;
use rusty_tanks::tick::tick;
use rusty_tanks::world::World;

fn spawner_world(spawner: BulletSpawner) -> World {
    let mut w = World::new();
    w.build_entity(
        Some(Position { x: 10, y: 0 }),
        Some(Angle { angle: 10 }),
        None,
        None,
        None,
        Some(spawner),
        None,
        None,
    );
    w
}

#[test]
fn armed_spawner_defers_the_bullet_until_flush() {
    let mut w = spawner_world(BulletSpawner {
        spawning: true,
        cooldown: 15,
        cooldown_rem: 0,
        bullet_speed: 8,
    });
    BulletSpawnerSystem.run(&mut w);
    // The identity is reserved at once, but the bullet's components are
    // buffered: no live table grew, so this tick's integration cannot see
    // the bullet.
    assert_eq!(w.next_id, 2);
    assert_eq!(w.positions.len(), 1);
    assert_eq!(w.velocities.len(), 1);
    assert_eq!(w.pending.len(), 5);
    // The flush makes it visible for the next tick.
    w.flush();
    assert_eq!(w.positions.len(), 2);
    assert_eq!(w.positions[1], Some(Position { x: 10, y: 0 }));
    assert_eq!(w.velocities[1], Some(Velocity { speed: 8, direction: Angle { angle: 10 } }));
    assert_eq!(w.angles[1], Some(Angle { angle: 10 }));
    assert_eq!(
        w.angular_velocities[1],
        Some(AngularVelocity { speed: 2, rotation: Rotation::Clockwise })
    );
    assert_eq!(
        w.sprites[1],
        Some(Sprite { spritesheet: 0, region: Region { x: 0, y: 0, width: 32, height: 32 } })
    );
}

#[test]
fn two_spawners_spawn_distinct_bullets_in_one_tick() {
    let mut w = spawner_world(BulletSpawner {
        spawning: true,
        cooldown: 15,
        cooldown_rem: 0,
        bullet_speed: 8,
    });
    w.build_entity(
        Some(Position { x: -4, y: 9 }),
        Some(Angle { angle: 200 }),
        None,
        None,
        None,
        Some(BulletSpawner { spawning: true, cooldown: 3, cooldown_rem: 0, bullet_speed: 15 }),
        None,
        None,
    );
    BulletSpawnerSystem.run(&mut w);
    w.flush();
    // Each firing spawner got its own fresh identity, with its own data.
    assert_eq!(w.positions.len(), 4);
    assert_eq!(w.positions[2], Some(Position { x: 10, y: 0 }));
    assert_eq!(w.velocities[2], Some(Velocity { speed: 8, direction: Angle { angle: 10 } }));
    assert_eq!(w.positions[3], Some(Position { x: -4, y: 9 }));
    assert_eq!(w.velocities[3], Some(Velocity { speed: 15, direction: Angle { angle: 200 } }));
}

#[test]
fn spawner_scenario_fires_at_tick_zero_and_sixteen() {
    // Spawner{active, period 15, remaining 0}: tick 0 spawns and resets the
    // remaining count to 15; ticks 1..=15 only decrement it; tick 16
    // reproduces the tick-0 behavior.
    let mut w = spawner_world(BulletSpawner {
        spawning: true,
        cooldown: 15,
        cooldown_rem: 0,
        bullet_speed: 8,
    });
    assert_eq!(tick(&mut w, None, None, None), Ok(()));
    assert_eq!(w.next_id, 2);
    assert_eq!(
        w.spawners[0],
        Some(BulletSpawner { spawning: true, cooldown: 15, cooldown_rem: 15, bullet_speed: 8 })
    );
    for k in 1..=15u32 {
        assert_eq!(tick(&mut w, None, None, None), Ok(()));
        assert_eq!(w.next_id, 2, "no bullet during cooldown tick {k}");
        assert_eq!(
            w.spawners[0],
            Some(BulletSpawner {
                spawning: true,
                cooldown: 15,
                cooldown_rem: 15 - k,
                bullet_speed: 8
            })
        );
    }
    assert_eq!(tick(&mut w, None, None, None), Ok(()));
    assert_eq!(w.next_id, 3, "tick 16 fires again");
    assert_eq!(
        w.spawners[0],
        Some(BulletSpawner { spawning: true, cooldown: 15, cooldown_rem: 15, bullet_speed: 8 })
    );
}

#[test]
fn zero_period_spawner_fires_every_tick() {
    let mut w = spawner_world(BulletSpawner {
        spawning: true,
        cooldown: 0,
        cooldown_rem: 0,
        bullet_speed: 8,
    });
    for k in 1..=4usize {
        BulletSpawnerSystem.run(&mut w);
        assert_eq!(w.next_id, 1 + k);
    }
}

#[test]
fn period_two_spawner_fires_every_third_tick() {
    let mut w = spawner_world(BulletSpawner {
        spawning: true,
        cooldown: 2,
        cooldown_rem: 0,
        bullet_speed: 8,
    });
    let mut fired = Vec::new();
    let mut bullets = 0;
    for k in 0..9usize {
        let before = w.next_id;
        assert_eq!(tick(&mut w, None, None, None), Ok(()));
        if w.next_id > before {
            fired.push(k);
            bullets += 1;
        }
    }
    assert_eq!(fired, vec![0, 3, 6]);
    assert_eq!(bullets, 3);
}

#[test]
fn inactive_spawner_never_fires() {
    let mut w = spawner_world(BulletSpawner {
        spawning: false,
        cooldown: 2,
        cooldown_rem: 0,
        bullet_speed: 8,
    });
    for _ in 0..5 {
        assert_eq!(tick(&mut w, None, None, None), Ok(()));
    }
    assert_eq!(w.next_id, 1);
}

#[test]
fn cooling_spawner_decrements_even_when_inactive() {
    let mut w = spawner_world(BulletSpawner {
        spawning: false,
        cooldown: 5,
        cooldown_rem: 3,
        bullet_speed: 8,
    });
    BulletSpawnerSystem.run(&mut w);
    assert_eq!(
        w.spawners[0],
        Some(BulletSpawner { spawning: false, cooldown: 5, cooldown_rem: 2, bullet_speed: 8 })
    );
}

#[test]
fn noop_commands_leave_velocities_and_activation_unchanged() {
    let mut w = World::new();
    w.build_entity(
        Some(Position { x: 0, y: 0 }),
        Some(Angle { angle: 0 }),
        Some(Velocity { speed: 7, direction: Angle { angle: 45 } }),
        Some(AngularVelocity { speed: 3, rotation: Rotation::CounterClockwise }),
        None,
        Some(BulletSpawner { spawning: false, cooldown: 9, cooldown_rem: 6, bullet_speed: 4 }),
        None,
        None,
    );
    for _ in 0..5 {
        assert_eq!(tick(&mut w, None, None, None), Ok(()));
    }
    assert_eq!(w.velocities[0], Some(Velocity { speed: 7, direction: Angle { angle: 45 } }));
    assert_eq!(
        w.angular_velocities[0],
        Some(AngularVelocity { speed: 3, rotation: Rotation::CounterClockwise })
    );
    // Only the remaining cooldown decreased.
    assert_eq!(
        w.spawners[0],
        Some(BulletSpawner { spawning: false, cooldown: 9, cooldown_rem: 1, bullet_speed: 4 })
    );
}
