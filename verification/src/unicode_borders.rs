//! The box-drawing characters of a line that passes through a cell, named by
//! the directions in which the line leaves it.

use vstd::prelude::*;
use vstd::std_specs::convert::FromSpecImpl;

verus! {

/// Light lines.
#[derive(Debug, Clone, Copy, PartialEq, Eq, Structural)]
pub enum ThinBorders {
    NE,
    NS,
    NW,
    ES,
    EW,
    SW,
    NES,
    NEW,
    NSW,
    ESW,
    NESW,
}

/// Heavy lines.
#[derive(Debug, Clone, Copy, PartialEq, Eq, Structural)]
pub enum ThickBorders {
    NE,
    NS,
    NW,
    ES,
    EW,
    SW,
    NES,
    NEW,
    NSW,
    ESW,
    NESW,
}

/// The light box-drawing character for the directions.
pub open spec fn thin_border(value: ThinBorders) -> char {
    match value {
        ThinBorders::NE => '└',
        ThinBorders::NS => '│',
        ThinBorders::NW => '┘',
        ThinBorders::ES => '┌',
        ThinBorders::EW => '─',
        ThinBorders::SW => '┐',
        ThinBorders::NES => '├',
        ThinBorders::NEW => '┴',
        ThinBorders::NSW => '┤',
        ThinBorders::ESW => '┬',
        ThinBorders::NESW => '┼',
    }
}

/// Whether the line leaves the cell in each direction: north, east, south,
/// west.
pub open spec fn thick_directions(value: ThickBorders) -> (bool, bool, bool, bool) {
    match value {
        ThickBorders::NE => (true, true, false, false),
        ThickBorders::NS => (true, false, true, false),
        ThickBorders::NW => (true, false, false, true),
        ThickBorders::ES => (false, true, true, false),
        ThickBorders::EW => (false, true, false, true),
        ThickBorders::SW => (false, false, true, true),
        ThickBorders::NES => (true, true, true, false),
        ThickBorders::NEW => (true, true, false, true),
        ThickBorders::NSW => (true, false, true, true),
        ThickBorders::ESW => (false, true, true, true),
        ThickBorders::NESW => (true, true, true, true),
    }
}

/// The heavy box-drawing character for the directions: the one that the
/// table of heavy borders holds for them.
pub open spec fn thick_border_of(value: ThickBorders) -> char {
    let (north, east, south, west) = thick_directions(value);
    crate::style::thick_border(north, east, south, west)
}

impl From<ThinBorders> for char {
    fn from(value: ThinBorders) -> (c: char) {
        match value {
            ThinBorders::NE => '└',
            ThinBorders::NS => '│',
            ThinBorders::NW => '┘',
            ThinBorders::ES => '┌',
            ThinBorders::EW => '─',
            ThinBorders::SW => '┐',
            ThinBorders::NES => '├',
            ThinBorders::NEW => '┴',
            ThinBorders::NSW => '┤',
            ThinBorders::ESW => '┬',
            ThinBorders::NESW => '┼',
        }
    }
}

impl FromSpecImpl<ThinBorders> for char {
    open spec fn obeys_from_spec() -> bool {
        true
    }

    open spec fn from_spec(value: ThinBorders) -> char {
        thin_border(value)
    }
}

impl From<ThickBorders> for char {
    fn from(value: ThickBorders) -> (c: char) {
        match value {
            ThickBorders::NE => '┗',
            ThickBorders::NS => '┃',
            ThickBorders::NW => '┛',
            ThickBorders::ES => '┏',
            ThickBorders::EW => '━',
            ThickBorders::SW => '┓',
            ThickBorders::NES => '┣',
            ThickBorders::NEW => '┻',
            ThickBorders::NSW => '┫',
            ThickBorders::ESW => '┳',
            ThickBorders::NESW => '╋',
        }
    }
}

impl FromSpecImpl<ThickBorders> for char {
    open spec fn obeys_from_spec() -> bool {
        true
    }

    open spec fn from_spec(value: ThickBorders) -> char {
        thick_border_of(value)
    }
}

} // verus!
