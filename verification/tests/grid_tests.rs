use sshnake::grid::{covers, Direction, Position};

#[test]
fn steps_in_each_direction() {
    let p = Position { x: 3, y: 4 };
    assert_eq!(p.step(Direction::Up), Position { x: 3, y: 3 });
    assert_eq!(p.step(Direction::Down), Position { x: 3, y: 5 });
    assert_eq!(p.step(Direction::Left), Position { x: 2, y: 4 });
    assert_eq!(p.step(Direction::Right), Position { x: 4, y: 4 });
}

#[test]
fn opposite_directions() {
    assert_eq!(Direction::Up.opposite(), Direction::Down);
    assert_eq!(Direction::Down.opposite(), Direction::Up);
    assert_eq!(Direction::Left.opposite(), Direction::Right);
    assert_eq!(Direction::Right.opposite(), Direction::Left);
}

#[test]
fn board_edges() {
    assert!(Position { x: 0, y: 0 }.in_grid());
    assert!(Position { x: 39, y: 19 }.in_grid());
    assert!(!Position { x: 40, y: 0 }.in_grid());
    assert!(!Position { x: 0, y: 20 }.in_grid());
    assert!(!Position { x: -1, y: 5 }.in_grid());
    assert!(!Position { x: 5, y: -1 }.in_grid());
}

#[test]
fn covers_finds_segments() {
    let body = vec![Position { x: 1, y: 1 }, Position { x: 1, y: 2 }];
    assert!(covers(&body, Position { x: 1, y: 2 }));
    assert!(!covers(&body, Position { x: 2, y: 1 }));
    assert!(!covers(&Vec::new(), Position { x: 0, y: 0 }));
}
