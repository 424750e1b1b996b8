use ecs_core::PLAYER_MOVEMENT_SPEED;
use ecs_core::components::Point;
use ecs_core::components::Position;
use ecs_core::components::Rect;
use ecs_core::direction::Direction;
use ecs_core::game::Game;
use ecs_core::game::character_animation_frames;
use ecs_core::game::direction_spritesheet_row;
use ecs_core::screen::screen_rect;

#[test]
fn end_to_end_scenario() {
    let mut game = Game::new();
    let player = game.create_player();
    assert_eq!(game.world.get_position(player), Some(Position(Point::new(0, 0))));

    game.handle_input(Direction::Right, true);
    game.update();
    assert_eq!(
        game.world.get_position(player),
        Some(Position(Point::new(PLAYER_MOVEMENT_SPEED, 0)))
    );
    assert_eq!(game.world.animations.slots[player].as_ref().unwrap().current_frame, 1);

    game.handle_input(Direction::Right, false);
    game.update();
    // Released: the player stops and the animation freezes at frame 1.
    assert_eq!(
        game.world.get_position(player),
        Some(Position(Point::new(PLAYER_MOVEMENT_SPEED, 0)))
    );
    assert_eq!(game.world.animations.slots[player].as_ref().unwrap().current_frame, 1);
}

#[test]
fn create_player_builds_the_five_components() {
    let mut game = Game::new();
    let player = game.create_player();
    let vel = game.world.velocities.get(player).unwrap();
    assert_eq!(vel.speed, 0);
    assert_eq!(vel.direction, Direction::Right);
    // The visible sprite is the first right-facing frame: row 2 of the
    // spritesheet, frames 26x36 starting at the origin.
    let sprite = game.world.get_sprite(player).unwrap();
    assert_eq!(sprite.spritesheet, 0);
    assert_eq!(sprite.region, Rect::new(0, 72, 26, 36));
    assert!(game.world.players.contains(player));
    let anim = game.world.animations.slots[player].as_ref().unwrap();
    assert_eq!(anim.current_frame, 0);
    assert_eq!(anim.up_frames.len(), 3);
    assert_eq!(anim.down_frames.len(), 3);
    assert_eq!(anim.left_frames.len(), 3);
    assert_eq!(anim.right_frames.len(), 3);
}

#[test]
fn update_without_input_keeps_the_player_still() {
    let mut game = Game::new();
    let player = game.create_player();
    game.update();
    game.update();
    assert_eq!(game.world.get_position(player), Some(Position(Point::new(0, 0))));
    assert_eq!(game.world.animations.slots[player].as_ref().unwrap().current_frame, 0);
}

#[test]
fn update_turns_the_player_without_losing_facing_on_stop() {
    let mut game = Game::new();
    let player = game.create_player();
    game.handle_input(Direction::Up, true);
    game.update();
    assert_eq!(game.world.get_position(player), Some(Position(Point::new(0, -PLAYER_MOVEMENT_SPEED))));
    game.handle_input(Direction::Up, false);
    game.update();
    let vel = game.world.velocities.get(player).unwrap();
    assert_eq!(vel.speed, 0);
    // The direction is retained as the last-known facing.
    assert_eq!(vel.direction, Direction::Up);
}

#[test]
fn update_before_create_player_is_inert() {
    let mut game = Game::new();
    game.handle_input(Direction::Left, true);
    game.update();
    assert_eq!(game.world.positions_and_sprites().len(), 0);
}

#[test]
fn opposing_keys_freeze_the_player() {
    let mut game = Game::new();
    let player = game.create_player();
    game.handle_input(Direction::Left, true);
    game.handle_input(Direction::Right, true);
    game.update();
    assert_eq!(game.world.get_position(player), Some(Position(Point::new(0, 0))));
    let vel = game.world.velocities.get(player).unwrap();
    assert_eq!(vel.speed, 0);
}

#[test]
fn spritesheet_rows_per_direction() {
    assert_eq!(direction_spritesheet_row(Direction::Up), 3);
    assert_eq!(direction_spritesheet_row(Direction::Down), 0);
    assert_eq!(direction_spritesheet_row(Direction::Left), 1);
    assert_eq!(direction_spritesheet_row(Direction::Right), 2);
}

#[test]
fn character_animation_frames_formula() {
    let frames = character_animation_frames(4, Rect::new(10, 20, 26, 36), Direction::Up);
    assert_eq!(frames.len(), 3);
    for (i, f) in frames.iter().enumerate() {
        assert_eq!(f.spritesheet, 4);
        assert_eq!(f.region, Rect::new(10 + 26 * i as i32, 20 + 36 * 3, 26, 36));
    }
    let down = character_animation_frames(0, Rect::new(0, 0, 26, 36), Direction::Down);
    assert_eq!(down[0].region, Rect::new(0, 0, 26, 36));
    assert_eq!(down[2].region, Rect::new(52, 0, 26, 36));
}

#[test]
fn screen_rect_centers_on_the_window() {
    let r = screen_rect(Point::new(0, 0), Rect::new(0, 72, 26, 36), 800, 600);
    assert_eq!(r, Rect::new(400 - 13, 300 - 18, 26, 36));
    let shifted = screen_rect(Point::new(20, -10), Rect::new(0, 0, 26, 36), 800, 600);
    assert_eq!(shifted, Rect::new(407, 272, 26, 36));
}
