use ecs_core::components::Point;
use ecs_core::components::Position;
use ecs_core::storage::MarkerStorage;
use ecs_core::storage::Storage;

#[test]
fn storage_insert_get_remove() {
    let mut s: Storage<Position> = Storage::new();
    assert_eq!(s.len(), 0);
    assert!(!s.contains(0));
    assert_eq!(s.get(0), None);

    s.insert(0, Position(Point::new(1, 2)));
    assert!(s.contains(0));
    assert_eq!(s.get(0), Some(Position(Point::new(1, 2))));

    s.insert(0, Position(Point::new(3, 4)));
    assert_eq!(s.get(0), Some(Position(Point::new(3, 4))));

    s.remove(0);
    assert!(!s.contains(0));
    assert_eq!(s.get(0), None);
}

#[test]
fn storage_growth_leaves_gaps_empty() {
    let mut s: Storage<Position> = Storage::new();
    s.insert(3, Position(Point::new(9, 9)));
    assert_eq!(s.len(), 4);
    assert!(!s.contains(0));
    assert!(!s.contains(1));
    assert!(!s.contains(2));
    assert!(s.contains(3));
    assert!(!s.contains(4));
}

#[test]
fn storage_take_empties_the_slot() {
    let mut s: Storage<Position> = Storage::new();
    s.insert(1, Position(Point::new(5, 6)));
    let taken = s.take(1);
    assert_eq!(taken, Some(Position(Point::new(5, 6))));
    assert!(!s.contains(1));
    assert_eq!(s.take(1), None);
    assert_eq!(s.take(7), None);
}

#[test]
fn marker_storage_presence() {
    let mut m = MarkerStorage::new();
    assert!(!m.contains(0));
    m.insert(2);
    assert!(m.contains(2));
    assert!(!m.contains(0));
    assert!(!m.contains(1));
    assert!(!m.contains(3));
    m.remove(2);
    assert!(!m.contains(2));
    m.remove(40);
    assert!(!m.contains(40));
}
