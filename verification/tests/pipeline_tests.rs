use rusty_tanks::pipeline::conflicts;
use rusty_tanks::pipeline::resolve_order;
use rusty_tanks::pipeline::standard_pipeline;
use rusty_tanks::pipeline::ComponentKind;
use rusty_tanks::pipeline::SystemDecl;
use rusty_tanks::renderer::layered_snapshot;
use rusty_tanks::renderer::render_snapshot;
use rusty_tanks::renderer::RenderItem;
use rusty_tanks::components::Angle;
use rusty_tanks::components::LayeredSprite;
use rusty_tanks::components::Position;
use rusty_tanks::components::Region;
use rusty_tanks::components::Sprite;
use rusty_tanks::world::World;
use rusty_tanks::SimError;

#[test]
fn standard_pipeline_resolves_in_dependency_order() {
    let decls = standard_pipeline();
    let order = resolve_order(&decls).expect("the standard pipeline is acyclic");
    assert_eq!(order.len(), 5);
    let pos_of = |s: usize| order.iter().position(|&x| x == s).unwrap();
    // The spawner runs after all three input systems.
    assert!(pos_of(3) > pos_of(0));
    assert!(pos_of(3) > pos_of(1));
    assert!(pos_of(3) > pos_of(2));
    // Integration runs last.
    assert_eq!(pos_of(4), 4);
}

#[test]
fn cyclic_dependencies_are_a_configuration_error() {
    let decls = vec![
        SystemDecl { reads: vec![], writes: vec![], after: vec![1] },
        SystemDecl { reads: vec![], writes: vec![], after: vec![0] },
    ];
    assert_eq!(resolve_order(&decls), Err(SimError::DependencyCycle));
}

#[test]
fn self_dependency_is_a_cycle() {
    let decls = vec![SystemDecl { reads: vec![], writes: vec![], after: vec![0] }];
    assert_eq!(resolve_order(&decls), Err(SimError::DependencyCycle));
}

#[test]
fn empty_pipeline_resolves() {
    let decls: Vec<SystemDecl> = Vec::new();
    assert_eq!(resolve_order(&decls), Ok(Vec::new()));
}

#[test]
fn input_systems_do_not_conflict_with_each_other() {
    let decls = standard_pipeline();
    assert!(!conflicts(&decls[0], &decls[1]));
    assert!(!conflicts(&decls[0], &decls[2]));
    assert!(!conflicts(&decls[1], &decls[2]));
}

#[test]
fn spawner_and_integration_conflict() {
    let decls = standard_pipeline();
    // The spawner reads positions and orientations; integration writes
    // them — they must never run concurrently.
    assert!(conflicts(&decls[3], &decls[4]));
    assert!(conflicts(&decls[4], &decls[3]));
}

#[test]
fn write_write_overlap_is_a_conflict() {
    let a = SystemDecl { reads: vec![], writes: vec![ComponentKind::Velocity], after: vec![] };
    let b = SystemDecl {
        reads: vec![ComponentKind::Position],
        writes: vec![ComponentKind::Velocity],
        after: vec![],
    };
    assert!(conflicts(&a, &b));
}

#[test]
fn snapshot_joins_position_sprite_and_angle() {
    let mut w = World::new();
    let sprite = Sprite { spritesheet: 3, region: Region { x: 0, y: 0, width: 32, height: 32 } };
    w.build_entity(
        Some(Position { x: 5, y: 6 }),
        Some(Angle { angle: 90 }),
        None,
        None,
        None,
        None,
        Some(sprite),
        None,
    );
    // An entity without a sprite is not part of the presentation join.
    w.build_entity(Some(Position { x: 1, y: 1 }), Some(Angle { angle: 0 }), None, None, None, None, None, None);
    let snap = render_snapshot(&w);
    assert_eq!(snap, vec![RenderItem { x: 5, y: 6, angle: 90, sprite }]);
    assert_eq!(layered_snapshot(&w), Vec::new());
}

#[test]
fn layered_snapshot_flattens_each_layer_in_order() {
    let mut w = World::new();
    let bottom = Sprite { spritesheet: 1, region: Region { x: 0, y: 0, width: 32, height: 32 } };
    let top = Sprite { spritesheet: 2, region: Region { x: 0, y: 0, width: 16, height: 16 } };
    w.build_entity(
        Some(Position { x: -3, y: 4 }),
        Some(Angle { angle: 45 }),
        None,
        None,
        None,
        None,
        None,
        Some(LayeredSprite { sprites: vec![bottom, top] }),
    );
    let snap = layered_snapshot(&w);
    assert_eq!(
        snap,
        vec![
            RenderItem { x: -3, y: 4, angle: 45, sprite: bottom },
            RenderItem { x: -3, y: 4, angle: 45, sprite: top },
        ]
    );
}
