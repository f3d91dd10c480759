use sshnake::grid::{Direction, Position};
use sshnake::layout::{board_cell, get_centered_rect, head_glyphs, terminal_fits, Area};

#[test]
fn centered_rect_in_a_larger_area() {
    let area = Area { x: 2, y: 1, width: 100, height: 40 };
    assert_eq!(get_centered_rect(area, 82, 27), Area { x: 11, y: 7, width: 82, height: 27 });
    assert_eq!(get_centered_rect(area, 45, 8), Area { x: 29, y: 17, width: 45, height: 8 });
}

#[test]
fn centered_rect_is_cut_to_a_smaller_area() {
    let area = Area { x: 0, y: 0, width: 30, height: 5 };
    assert_eq!(get_centered_rect(area, 45, 8), Area { x: 0, y: 0, width: 30, height: 5 });
    let same = Area { x: 3, y: 4, width: 45, height: 8 };
    assert_eq!(get_centered_rect(same, 45, 8), same);
}

#[test]
fn terminal_size_check() {
    assert!(terminal_fits(82, 27));
    assert!(terminal_fits(200, 60));
    assert!(!terminal_fits(81, 27));
    assert!(!terminal_fits(82, 26));
}

#[test]
fn board_cells_are_two_columns_wide() {
    let inner = Area { x: 10, y: 5, width: 80, height: 20 };
    assert_eq!(board_cell(inner, Position { x: 0, y: 0 }), Some((10, 5)));
    assert_eq!(board_cell(inner, Position { x: 3, y: 2 }), Some((16, 7)));
    assert_eq!(board_cell(inner, Position { x: 39, y: 19 }), Some((88, 24)));
}

#[test]
fn board_cells_outside_the_area_are_skipped() {
    let inner = Area { x: 10, y: 5, width: 79, height: 19 };
    assert_eq!(board_cell(inner, Position { x: 39, y: 0 }), None);
    assert_eq!(board_cell(inner, Position { x: 0, y: 19 }), None);
    assert_eq!(board_cell(inner, Position { x: 38, y: 18 }), Some((86, 23)));
}

#[test]
fn head_eyes() {
    assert_eq!(head_glyphs(Direction::Up, false), ('^', '^'));
    assert_eq!(head_glyphs(Direction::Down, false), ('v', 'v'));
    assert_eq!(head_glyphs(Direction::Left, false), ('<', 'o'));
    assert_eq!(head_glyphs(Direction::Right, false), ('o', '>'));
    assert_eq!(head_glyphs(Direction::Right, true), ('x', 'x'));
}

#[test]
fn areas_are_cut_at_the_edge_of_the_coordinate_range() {
    assert_eq!(Area::new(1, 2, 3, 4), Area { x: 1, y: 2, width: 3, height: 4 });
    assert_eq!(Area::new(65_530, 65_000, 10, 600), Area { x: 65_530, y: 65_000, width: 5, height: 535 });
    assert_eq!(Area::new(u16::MAX, 0, 1, 0), Area { x: u16::MAX, y: 0, width: 0, height: 0 });
}

#[test]
fn a_centered_rect_near_the_edge_is_cut() {
    let area = Area { x: 65_500, y: 65_500, width: 60, height: 60 };
    assert_eq!(get_centered_rect(area, 20, 20), Area { x: 65_520, y: 65_520, width: 15, height: 15 });
}

#[test]
fn board_cells_of_any_non_negative_position() {
    let inner = Area { x: 10, y: 5, width: 80, height: 20 };
    assert_eq!(board_cell(inner, Position { x: 40, y: 0 }), None);
    assert_eq!(board_cell(inner, Position { x: 0, y: 20 }), None);
    assert_eq!(board_cell(inner, Position { x: 1000, y: 1000 }), None);
}
