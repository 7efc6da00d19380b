use mmm::terminal::boxes::TerminalBoxes;
use mmm::types::{MmmError, Vec2d};

fn v(col: u16, row: u16) -> Vec2d {
    Vec2d { col, row }
}

#[test]
fn empty_terminal_is_all_spaces() {
    let boxes = TerminalBoxes::new(v(3, 2));
    assert_eq!(boxes.to_string(), "      ");
    assert!(!boxes.check_bit(0, 0));
    assert_eq!(TerminalBoxes::new(v(0, 0)).to_string(), "");
    assert_eq!(TerminalBoxes::new(v(0, 5)).to_string(), "");
}

#[test]
fn box_is_drawn_with_joined_corners() {
    let mut boxes = TerminalBoxes::new(v(3, 3));
    boxes.add_box(v(0, 0), v(2, 2)).unwrap();
    assert_eq!(boxes.to_string(), "┏━┓┃ ┃┗━┛");
}

#[test]
fn boxes_join_where_they_meet() {
    let mut boxes = TerminalBoxes::new(v(5, 3));
    boxes.add_box(v(0, 0), v(4, 2)).unwrap().add_box(v(2, 0), v(2, 2)).unwrap();
    assert_eq!(boxes.to_string(), "┏━┳━┓┃ ┃ ┃┗━┻━┛");
}

#[test]
fn box_of_one_cell_has_no_stroke() {
    let mut boxes = TerminalBoxes::new(v(3, 1));
    boxes.add_box(v(1, 0), v(1, 0)).unwrap();
    assert!(boxes.check_bit(1, 0));
    assert_eq!(boxes.to_string(), "   ");
}

#[test]
fn box_is_cut_at_the_edge_of_the_terminal() {
    let mut boxes = TerminalBoxes::new(v(2, 2));
    boxes.add_box(v(0, 0), v(5, 5)).unwrap();
    assert!(boxes.check_bit(0, 0));
    assert!(boxes.check_bit(1, 0));
    assert!(boxes.check_bit(0, 1));
    assert!(!boxes.check_bit(1, 1));
    assert!(!boxes.check_bit(5, 5));
    assert_eq!(boxes.to_string(), "┏╸╹ ");
}

#[test]
fn box_up_to_the_last_cell_of_the_grid_is_drawn() {
    let mut boxes = TerminalBoxes::new(v(2, 2));
    assert!(boxes.add_box(v(0, 0), v(65535, 65535)).is_ok());
    assert!(boxes.check_bit(0, 0));
    assert!(!boxes.check_bit(1, 1));
}

#[test]
fn corners_in_the_wrong_order_are_an_error() {
    let mut boxes = TerminalBoxes::new(v(3, 3));
    assert!(matches!(boxes.add_box(v(2, 0), v(1, 2)), Err(MmmError::Layout)));
    assert!(matches!(boxes.add_box(v(0, 2), v(2, 1)), Err(MmmError::Layout)));
    assert_eq!(boxes.to_string(), "         ");
}

#[test]
fn bits_are_set_on_the_terminal_only() {
    let mut boxes = TerminalBoxes::new(v(2, 2));
    boxes.set_bit(1, 1);
    boxes.set_bit(2, 0);
    boxes.set_bit(0, 2);
    assert!(boxes.check_bit(1, 1));
    assert!(!boxes.check_bit(0, 0));
    assert!(!boxes.check_bit(2, 0));
    assert!(!boxes.check_bit(0, 2));
}

#[test]
fn neighbours_are_looked_up_by_direction() {
    let mut boxes = TerminalBoxes::new(v(3, 3));
    boxes.set_bit(1, 0);
    boxes.set_bit(2, 1);
    boxes.set_bit(1, 2);
    boxes.set_bit(0, 1);
    assert!(boxes.has_north(1, 1));
    assert!(boxes.has_east(1, 1));
    assert!(boxes.has_south(1, 1));
    assert!(boxes.has_west(1, 1));
    assert!(!boxes.has_north(0, 0));
    assert!(!boxes.has_west(0, 0));
    assert!(!boxes.has_east(2, 2));
    assert!(!boxes.has_south(2, 2));
    assert!(!boxes.has_east(65535, 0));
    assert!(!boxes.has_south(0, 65535));
}
