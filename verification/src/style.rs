//! Box-drawing characters.

use vstd::prelude::*;

verus! {

/// The heavy box-drawing character whose strokes leave the middle of the cell
/// in the given directions; a space where there is no stroke.
pub open spec fn thick_border(north: bool, east: bool, south: bool, west: bool) -> char {
    match (north, east, south, west) {
        (false, false, false, false) => ' ',
        (true, false, false, false) => '╹',
        (false, true, false, false) => '╺',
        (true, true, false, false) => '┗',
        (false, false, true, false) => '╻',
        (true, false, true, false) => '┃',
        (false, true, true, false) => '┏',
        (true, true, true, false) => '┣',
        (false, false, false, true) => '╸',
        (true, false, false, true) => '┛',
        (false, true, false, true) => '━',
        (true, true, false, true) => '┻',
        (false, false, true, true) => '┓',
        (true, false, true, true) => '┫',
        (false, true, true, true) => '┳',
        (true, true, true, true) => '╋',
    }
}

/// The heavy box-drawing character for a cell whose border runs on in the
/// given directions.
pub fn thick_border_from_directions(north: bool, east: bool, south: bool, west: bool) -> (border: char)
    ensures
        border == thick_border(north, east, south, west),
{
    let mut index: u8 = 0;
    if north {
        index = index + 1;
    }
    if east {
        index = index + 2;
    }
    if south {
        index = index + 4;
    }
    if west {
        index = index + 8;
    }
    thick_border_at(index)
}

/// Entry `index` of the table of heavy box-drawing characters, in which
/// north counts 1, east 2, south 4 and west 8.
fn thick_border_at(index: u8) -> (border: char)
    requires
        index < 16,
    ensures
        border == thick_border(index % 2 == 1, (index / 2) % 2 == 1, (index / 4) % 2 == 1, index / 8 == 1),
{
    match index {
        0 => ' ',
        1 => '╹',
        2 => '╺',
        3 => '┗',
        4 => '╻',
        5 => '┃',
        6 => '┏',
        7 => '┣',
        8 => '╸',
        9 => '┛',
        10 => '━',
        11 => '┻',
        12 => '┓',
        13 => '┫',
        14 => '┳',
        _ => '╋',
    }
}

} // verus!
