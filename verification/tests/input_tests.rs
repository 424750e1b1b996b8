use ecs_core::direction::Direction;
use ecs_core::input::InputHandler;

#[test]
fn press_release_symmetry() {
    let mut h = InputHandler::new();
    h.press_key(Direction::Up);
    let before = h.get_effective_direction();
    assert_eq!(before, Some(Direction::Up));
    h.press_key(Direction::Left);
    h.release_key(Direction::Left);
    assert_eq!(h.get_effective_direction(), before);
    assert_eq!(h.horizontal_balance, 0);
    assert_eq!(h.vertical_balance, -1);
}

#[test]
fn recency_wins_across_axes() {
    let mut h = InputHandler::new();
    h.press_key(Direction::Up);
    assert_eq!(h.get_effective_direction(), Some(Direction::Up));
    h.press_key(Direction::Right);
    assert_eq!(h.get_effective_direction(), Some(Direction::Right));
    h.release_key(Direction::Right);
    assert_eq!(h.get_effective_direction(), Some(Direction::Up));
}

#[test]
fn same_axis_release_resumes_older_press() {
    let mut h = InputHandler::new();
    h.press_key(Direction::Left);
    assert_eq!(h.get_effective_direction(), Some(Direction::Left));
    h.press_key(Direction::Right);
    // Both horizontal keys held: the axis balance cancels to zero and the
    // scan skips both entries.
    assert_eq!(h.get_effective_direction(), None);
    h.release_key(Direction::Right);
    assert_eq!(h.get_effective_direction(), Some(Direction::Left));
}

#[test]
fn opposing_cancel() {
    let mut h = InputHandler::new();
    h.press_key(Direction::Left);
    h.press_key(Direction::Right);
    assert_eq!(h.horizontal_balance, 0);
    assert_eq!(h.direction_stack.len(), 2);
    assert_eq!(h.get_effective_direction(), None);

    let mut g = InputHandler::new();
    g.press_key(Direction::Right);
    g.press_key(Direction::Left);
    assert_eq!(g.horizontal_balance, 0);
    assert_eq!(g.get_effective_direction(), None);
}

#[test]
fn opposing_cancel_falls_through_to_vertical() {
    let mut h = InputHandler::new();
    h.press_key(Direction::Down);
    h.press_key(Direction::Left);
    h.press_key(Direction::Right);
    assert_eq!(h.horizontal_balance, 0);
    assert_eq!(h.direction_stack.len(), 3);
    assert_eq!(h.get_effective_direction(), Some(Direction::Down));
}

#[test]
fn idempotent_double_press() {
    let mut single = InputHandler::new();
    single.press_key(Direction::Left);
    let mut double = InputHandler::new();
    double.press_key(Direction::Left);
    double.press_key(Direction::Left);
    // The sequence is identical to a single press; the balance is
    // cumulative, one step per call.
    assert_eq!(double.direction_stack.len(), single.direction_stack.len());
    assert_eq!(double.direction_stack, vec![Direction::Left]);
    assert_eq!(single.horizontal_balance, -1);
    assert_eq!(double.horizontal_balance, -2);
}

#[test]
fn release_without_press_skews_balance() {
    let mut h = InputHandler::new();
    h.release_key(Direction::Right);
    assert_eq!(h.horizontal_balance, -1);
    assert_eq!(h.direction_stack.len(), 0);
    assert_eq!(h.get_effective_direction(), None);
}

#[test]
fn empty_resolver_has_no_direction() {
    let h = InputHandler::new();
    assert_eq!(h.get_effective_direction(), None);
}

#[test]
fn direction_axes() {
    assert!(Direction::Left.is_horizontal());
    assert!(Direction::Right.is_horizontal());
    assert!(!Direction::Up.is_horizontal());
    assert!(Direction::Up.is_vertical());
    assert!(Direction::Down.is_vertical());
    assert!(!Direction::Left.is_vertical());
    assert_eq!(Direction::Left.to_offset(), (-1, 0));
    assert_eq!(Direction::Right.to_offset(), (1, 0));
    assert_eq!(Direction::Up.to_offset(), (0, -1));
    assert_eq!(Direction::Down.to_offset(), (0, 1));
}
