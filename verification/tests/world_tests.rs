use ecs_core::components::MovementAnimation;
use ecs_core::components::Point;
use ecs_core::components::Position;
use ecs_core::components::Rect;
use ecs_core::components::Sprite;
use ecs_core::components::Velocity;
use ecs_core::direction::Direction;
use ecs_core::systems::movement_system;
use ecs_core::world::ComponentSet;
use ecs_core::world::World;

fn moving_entity(x: i32, y: i32, speed: i32) -> ComponentSet {
    ComponentSet {
        position: Some(Position(Point::new(x, y))),
        velocity: Some(Velocity { speed, direction: Direction::Right }),
        sprite: None,
        animation: None,
        player: false,
    }
}

#[test]
fn commit_barrier_hides_mid_frame_creation() {
    let mut world = World::new();
    let e = world.create_entity(ComponentSet {
        position: Some(Position(Point::new(4, 5))),
        velocity: None,
        sprite: Some(Sprite { spritesheet: 0, region: Rect::new(0, 0, 8, 8) }),
        animation: None,
        player: false,
    });
    // Queued but not committed: absent from every storage and every join.
    assert_eq!(world.get_position(e), None);
    assert_eq!(world.get_sprite(e), None);
    assert_eq!(world.positions_and_sprites().len(), 0);

    world.commit();
    assert_eq!(world.get_position(e), Some(Position(Point::new(4, 5))));
    assert!(world.get_sprite(e).is_some());
    let pairs = world.positions_and_sprites();
    assert_eq!(pairs.len(), 1);
    assert_eq!(pairs[0].0, e);
}

#[test]
fn commit_barrier_keeps_systems_blind_until_commit() {
    let mut world = World::new();
    let e = world.create_entity(moving_entity(0, 0, 7));
    // The movement system runs after the creation was queued but before the
    // commit: it must not see the entity.
    movement_system(&mut world);
    world.commit();
    assert_eq!(world.get_position(e), Some(Position(Point::new(0, 0))));
    // The next frame's movement runs after the commit and sees it.
    movement_system(&mut world);
    assert_eq!(world.get_position(e), Some(Position(Point::new(7, 0))));
}

#[test]
fn destroy_takes_effect_at_commit() {
    let mut world = World::new();
    let e = world.create_entity(moving_entity(1, 2, 0));
    world.commit();
    assert!(world.get_position(e).is_some());
    world.destroy_entity(e);
    // Still visible until the barrier.
    assert!(world.get_position(e).is_some());
    world.commit();
    assert_eq!(world.get_position(e), None);
}

#[test]
fn fresh_identifiers_are_distinct() {
    let mut world = World::new();
    let a = world.create_entity(moving_entity(0, 0, 0));
    let b = world.create_entity(moving_entity(0, 0, 0));
    assert_ne!(a, b);
    world.commit();
    assert!(world.get_position(a).is_some());
    assert!(world.get_position(b).is_some());
}

#[test]
fn join_excludes_entities_missing_a_component() {
    let mut world = World::new();
    let only_pos = world.create_entity(ComponentSet {
        position: Some(Position(Point::new(1, 1))),
        velocity: None,
        sprite: None,
        animation: None,
        player: false,
    });
    let both = world.create_entity(ComponentSet {
        position: Some(Position(Point::new(2, 2))),
        velocity: None,
        sprite: Some(Sprite { spritesheet: 0, region: Rect::new(0, 0, 4, 4) }),
        animation: None,
        player: false,
    });
    world.commit();
    let pairs = world.positions_and_sprites();
    assert_eq!(pairs.len(), 1);
    assert_eq!(pairs[0].0, both);
    assert_ne!(pairs[0].0, only_pos);
}

#[test]
fn animation_component_round_trip() {
    let mut world = World::new();
    let frames = vec![Sprite { spritesheet: 1, region: Rect::new(0, 0, 2, 2) }];
    let e = world.create_entity(ComponentSet {
        position: None,
        velocity: None,
        sprite: None,
        animation: Some(MovementAnimation {
            current_frame: 2,
            up_frames: frames.clone(),
            down_frames: frames.clone(),
            left_frames: frames.clone(),
            right_frames: frames,
        }),
        player: false,
    });
    world.commit();
    let stored = world.animations.slots[e].as_ref().unwrap();
    assert_eq!(stored.current_frame, 2);
    assert_eq!(stored.up_frames.len(), 1);
}
