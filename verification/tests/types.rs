use mmm::mmm_common::UpdateType;
use mmm::style::thick_border_from_directions;
use mmm::types::{MmmError, Vec2d};
use mmm::unicode_borders::{ThickBorders, ThinBorders};

#[test]
fn vectors_add_and_subtract_by_component() {
    let a = Vec2d { col: 3, row: 10 };
    let b = Vec2d { col: 2, row: 4 };
    assert_eq!(a + b, Vec2d { col: 5, row: 14 });
    assert_eq!(a - b, Vec2d { col: 1, row: 6 });
    assert_eq!(Vec2d::from((7, 8)), Vec2d { col: 7, row: 8 });
    assert_eq!(Vec2d::new(7, 8), Vec2d { col: 7, row: 8 });
    assert_eq!(Vec2d::default(), Vec2d { col: 0, row: 0 });
}

#[test]
fn checked_sum_refuses_to_leave_the_grid() {
    let a = Vec2d { col: 65000, row: 1 };
    assert_eq!(a.checked_add(Vec2d { col: 535, row: 65534 }), Some(Vec2d { col: 65535, row: 65535 }));
    assert_eq!(a.checked_add(Vec2d { col: 536, row: 0 }), None);
    assert_eq!(a.checked_add(Vec2d { col: 0, row: 65535 }), None);
}

#[test]
fn errors_have_their_messages() {
    assert_eq!(MmmError::General("display too small".to_string()).to_string(), "display too small");
    assert_eq!(MmmError::Layout.to_string(), "layout error");
    assert_eq!(MmmError::TerminalBuffer.to_string(), "terminal buffer error");
    let io = std::io::Error::new(std::io::ErrorKind::NotFound, "gone");
    assert_eq!(MmmError::Io(io).to_string(), "i/o error: gone");
}

#[test]
fn errors_come_from_their_sources() {
    assert!(matches!(MmmError::from("text".to_string()), MmmError::General(text) if text == "text"));
    let io = std::io::Error::new(std::io::ErrorKind::PermissionDenied, "denied");
    assert!(matches!(MmmError::from(io), MmmError::Io(e) if e.kind() == std::io::ErrorKind::PermissionDenied));
}

#[test]
fn thick_borders_by_direction() {
    let table = [' ', '╹', '╺', '┗', '╻', '┃', '┏', '┣', '╸', '┛', '━', '┻', '┓', '┫', '┳', '╋'];
    for index in 0..16usize {
        let north = index & 1 != 0;
        let east = index & 2 != 0;
        let south = index & 4 != 0;
        let west = index & 8 != 0;
        assert_eq!(thick_border_from_directions(north, east, south, west), table[index]);
    }
}

#[test]
fn border_names_give_their_characters() {
    let thin = [
        (ThinBorders::NE, '└'),
        (ThinBorders::NS, '│'),
        (ThinBorders::NW, '┘'),
        (ThinBorders::ES, '┌'),
        (ThinBorders::EW, '─'),
        (ThinBorders::SW, '┐'),
        (ThinBorders::NES, '├'),
        (ThinBorders::NEW, '┴'),
        (ThinBorders::NSW, '┤'),
        (ThinBorders::ESW, '┬'),
        (ThinBorders::NESW, '┼'),
    ];
    for (name, c) in thin {
        assert_eq!(char::from(name), c);
    }
    let thick = [
        (ThickBorders::NE, '┗'),
        (ThickBorders::NS, '┃'),
        (ThickBorders::NW, '┛'),
        (ThickBorders::ES, '┏'),
        (ThickBorders::EW, '━'),
        (ThickBorders::SW, '┓'),
        (ThickBorders::NES, '┣'),
        (ThickBorders::NEW, '┻'),
        (ThickBorders::NSW, '┫'),
        (ThickBorders::ESW, '┳'),
        (ThickBorders::NESW, '╋'),
    ];
    for (name, c) in thick {
        assert_eq!(char::from(name), c);
    }
}

#[test]
fn update_types_compare() {
    assert_eq!(UpdateType::Char('a'), UpdateType::Char('a'));
    assert_ne!(UpdateType::Char('a'), UpdateType::Char('b'));
    assert_ne!(UpdateType::NoUpdate, UpdateType::Quit);
    assert_ne!(UpdateType::Backspace, UpdateType::Clear);
}
