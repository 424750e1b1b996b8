use ecs_core::components::MovementAnimation;
use ecs_core::components::Point;
use ecs_core::components::Position;
use ecs_core::components::Rect;
use ecs_core::components::Sprite;
use ecs_core::components::Velocity;
use ecs_core::direction::Direction;
use ecs_core::systems::animation_system;
use ecs_core::systems::movement_system;
use ecs_core::world::ComponentSet;
use ecs_core::world::World;

fn frame(n: i32) -> Sprite {
    Sprite { spritesheet: 0, region: Rect::new(26 * n, 0, 26, 36) }
}

fn animated_entity(speed: i32, direction: Direction) -> ComponentSet {
    ComponentSet {
        position: Some(Position(Point::new(0, 0))),
        velocity: Some(Velocity { speed, direction }),
        sprite: Some(frame(0)),
        animation: Some(MovementAnimation {
            current_frame: 0,
            up_frames: vec![frame(10), frame(11), frame(12)],
            down_frames: vec![frame(20), frame(21), frame(22)],
            left_frames: vec![frame(30), frame(31), frame(32)],
            right_frames: vec![frame(40), frame(41), frame(42)],
        }),
        player: false,
    }
}

#[test]
fn movement_zero_speed_leaves_position_unchanged() {
    let mut world = World::new();
    let e = world.create_entity(ComponentSet {
        position: Some(Position(Point::new(-3, 17))),
        velocity: Some(Velocity { speed: 0, direction: Direction::Up }),
        sprite: None,
        animation: None,
        player: false,
    });
    world.commit();
    movement_system(&mut world);
    movement_system(&mut world);
    assert_eq!(world.get_position(e), Some(Position(Point::new(-3, 17))));
}

#[test]
fn movement_advances_by_direction_times_speed() {
    let mut world = World::new();
    let cases = [
        (Direction::Right, (5, 0)),
        (Direction::Left, (-5, 0)),
        (Direction::Up, (0, -5)),
        (Direction::Down, (0, 5)),
    ];
    let mut ids = Vec::new();
    for (d, _) in cases.iter() {
        ids.push(world.create_entity(ComponentSet {
            position: Some(Position(Point::new(0, 0))),
            velocity: Some(Velocity { speed: 5, direction: *d }),
            sprite: None,
            animation: None,
            player: false,
        }));
    }
    world.commit();
    movement_system(&mut world);
    for (i, (_, (x, y))) in cases.iter().enumerate() {
        assert_eq!(world.get_position(ids[i]), Some(Position(Point::new(*x, *y))));
    }
}

#[test]
fn movement_skips_entities_without_velocity() {
    let mut world = World::new();
    let e = world.create_entity(ComponentSet {
        position: Some(Position(Point::new(8, 9))),
        velocity: None,
        sprite: None,
        animation: None,
        player: false,
    });
    world.commit();
    movement_system(&mut world);
    assert_eq!(world.get_position(e), Some(Position(Point::new(8, 9))));
}

#[test]
fn animation_freezes_at_zero_speed() {
    let mut world = World::new();
    let e = world.create_entity(animated_entity(0, Direction::Down));
    world.commit();
    for _ in 0..5 {
        animation_system(&mut world);
        assert_eq!(world.animations.slots[e].as_ref().unwrap().current_frame, 0);
    }
    // The sprite is still re-selected from the facing's list at the frozen
    // frame index.
    assert_eq!(world.get_sprite(e), Some(frame(20)));
}

#[test]
fn animation_cycles_with_period_three() {
    let mut world = World::new();
    let e = world.create_entity(animated_entity(4, Direction::Right));
    world.commit();
    let expected = [1usize, 2, 0, 1, 2, 0];
    for want in expected.iter() {
        animation_system(&mut world);
        assert_eq!(world.animations.slots[e].as_ref().unwrap().current_frame, *want);
    }
}

#[test]
fn animation_selects_the_facing_frame_list() {
    let mut world = World::new();
    let e = world.create_entity(animated_entity(4, Direction::Left));
    world.commit();
    animation_system(&mut world);
    assert_eq!(world.get_sprite(e), Some(frame(31)));
}

#[test]
fn malformed_animation_leaves_sprite_unchanged() {
    let mut world = World::new();
    let e = world.create_entity(ComponentSet {
        position: None,
        velocity: Some(Velocity { speed: 3, direction: Direction::Up }),
        sprite: Some(frame(7)),
        animation: Some(MovementAnimation {
            current_frame: 0,
            up_frames: Vec::new(),
            down_frames: Vec::new(),
            left_frames: Vec::new(),
            right_frames: Vec::new(),
        }),
        player: false,
    });
    world.commit();
    animation_system(&mut world);
    // The frame index still advances; the sprite stays, as a defensive
    // no-op on the empty frame list.
    assert_eq!(world.animations.slots[e].as_ref().unwrap().current_frame, 1);
    assert_eq!(world.get_sprite(e), Some(frame(7)));
}

#[test]
fn animation_skips_entities_missing_a_component() {
    let mut world = World::new();
    let no_velocity = world.create_entity(ComponentSet {
        position: None,
        velocity: None,
        sprite: Some(frame(3)),
        animation: Some(MovementAnimation {
            current_frame: 2,
            up_frames: vec![frame(10), frame(11), frame(12)],
            down_frames: vec![frame(20), frame(21), frame(22)],
            left_frames: vec![frame(30), frame(31), frame(32)],
            right_frames: vec![frame(40), frame(41), frame(42)],
        }),
        player: false,
    });
    world.commit();
    animation_system(&mut world);
    assert_eq!(world.animations.slots[no_velocity].as_ref().unwrap().current_frame, 2);
    assert_eq!(world.get_sprite(no_velocity), Some(frame(3)));
}
