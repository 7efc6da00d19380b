//! Boxes on the character grid: which cells carry a border, and the
//! box-drawing character that joins each cell to its neighbours.

use vstd::prelude::*;
use crate::style::{thick_border, thick_border_from_directions};
use crate::types::{MmmError, MmmResult, Vec2d};

verus! {

/// The borders of a set of boxes on a terminal: one mark for each cell.
pub struct TerminalBoxes {
    terminal_size: Vec2d,
    border_bits: Vec<Vec<bool>>,
}

/// Whether the cell lies on the outline of the box between the two corners.
pub open spec fn on_outline(column: int, row: int, top_left: Vec2d, bottom_right: Vec2d) -> bool {
    ||| top_left.col <= column <= bottom_right.col && (row == top_left.row || row == bottom_right.row)
    ||| top_left.row <= row <= bottom_right.row && (column == top_left.col || column == bottom_right.col)
}

impl TerminalBoxes {
    /// The grid has a row for each row of the terminal and a mark for each
    /// of its columns.
    pub closed spec fn well_formed(&self) -> bool {
        &&& self.border_bits@.len() == self.terminal_size.row
        &&& forall|row: int|
            0 <= row < self.border_bits@.len() ==> (#[trigger] self.border_bits@[row])@.len()
                == self.terminal_size.col
    }

    /// The size of the terminal.
    pub closed spec fn size(&self) -> Vec2d {
        self.terminal_size
    }

    /// Whether the cell carries a border; no cell outside the terminal does.
    pub closed spec fn bit(&self, column: int, row: int) -> bool {
        &&& 0 <= column < self.terminal_size.col
        &&& 0 <= row < self.terminal_size.row
        &&& row < self.border_bits@.len()
        &&& column < self.border_bits@[row]@.len()
        &&& self.border_bits@[row]@[column]
    }

    /// The character that draws the cell: for a cell with a border the
    /// box-drawing character that points to each neighbour with a border,
    /// for any other cell a space.
    pub open spec fn glyph(&self, column: int, row: int) -> char {
        if self.bit(column, row) {
            thick_border(
                self.bit(column, row - 1),
                self.bit(column + 1, row),
                self.bit(column, row + 1),
                self.bit(column - 1, row),
            )
        } else {
            ' '
        }
    }

    /// A terminal of the given size with no border on it.
    pub fn new(terminal_size: Vec2d) -> (boxes: TerminalBoxes)
        ensures
            boxes.well_formed(),
            boxes.size() == terminal_size,
            forall|column: int, row: int| !boxes.bit(column, row),
    {
        let mut border_bits: Vec<Vec<bool>> = Vec::new();
        let mut row: u16 = 0;
        while row < terminal_size.row
            invariant
                row <= terminal_size.row,
                border_bits@.len() == row,
                forall|r: int|
                    0 <= r < row ==> (#[trigger] border_bits@[r])@.len() == terminal_size.col && forall|c: int|
                        0 <= c < terminal_size.col ==> !border_bits@[r]@[c],
            decreases terminal_size.row - row,
        {
            let mut line: Vec<bool> = Vec::new();
            let mut column: u16 = 0;
            while column < terminal_size.col
                invariant
                    column <= terminal_size.col,
                    line@.len() == column,
                    forall|c: int| 0 <= c < column ==> !line@[c],
                decreases terminal_size.col - column,
            {
                line.push(false);
                column += 1;
            }
            border_bits.push(line);
            row += 1;
        }
        TerminalBoxes { terminal_size, border_bits }
    }

    /// Marks the cell, if it lies on the terminal.
    pub fn set_bit(&mut self, column: u16, row: u16)
        ensures
            final(self).size() == old(self).size(),
            old(self).well_formed() ==> final(self).well_formed(),
            old(self).well_formed() ==> forall|c: int, r: int|
                #[trigger] final(self).bit(c, r) == (old(self).bit(c, r) || (c == column && r == row && c < old(
                    self,
                ).size().col && r < old(self).size().row)),
    {
        if column < self.terminal_size.col && row < self.terminal_size.row {
            if (row as usize) < self.border_bits.len() && (column as usize) < self.border_bits[row as usize].len() {
                self.border_bits[row as usize][column as usize] = true;
            }
        }
    }

    /// Whether the cell carries a border.
    pub fn check_bit(&self, column: u16, row: u16) -> (set: bool)
        ensures
            set == self.bit(column as int, row as int),
    {
        if column < self.terminal_size.col && row < self.terminal_size.row {
            if (row as usize) < self.border_bits.len() && (column as usize) < self.border_bits[row as usize].len() {
                self.border_bits[row as usize][column as usize]
            } else {
                false
            }
        } else {
            false
        }
    }

    /// Draws the outline of the box between the two corners, both
    /// included; what of it lies outside the terminal is left out. Corners
    /// in the wrong order are an error, and nothing is drawn.
    pub fn add_box(&mut self, top_left: Vec2d, bottom_right: Vec2d) -> (done: MmmResult<&mut TerminalBoxes>)
        ensures
            done is Err <==> top_left.col > bottom_right.col || top_left.row > bottom_right.row,
            done matches Err(e) ==> e is Layout && *final(self) == *old(self),
            done matches Ok(boxes) ==> {
                &&& *final(self) == *final(boxes)
                &&& boxes.size() == old(self).size()
                &&& old(self).well_formed() ==> boxes.well_formed()
                &&& old(self).well_formed() ==> forall|c: int, r: int|
                    #[trigger] boxes.bit(c, r) == (old(self).bit(c, r) || (on_outline(c, r, top_left, bottom_right)
                        && 0 <= c < old(self).size().col && 0 <= r < old(self).size().row))
            },
    {
        if top_left.col > bottom_right.col || top_left.row > bottom_right.row {
            return Err(MmmError::Layout);
        }
        let ghost before = *self;
        let ghost size = self.size();
        let mut column: u32 = top_left.col as u32;
        while column <= bottom_right.col as u32
            invariant
                top_left.col <= column <= bottom_right.col + 1,
                self.size() == size,
                size == before.size(),
                before.well_formed() ==> self.well_formed(),
                before.well_formed() ==> forall|c: int, r: int|
                    #[trigger] self.bit(c, r) == (before.bit(c, r) || (top_left.col <= c < column && (r == top_left.row || r
                        == bottom_right.row) && 0 <= c < size.col && 0 <= r < size.row)),
            decreases bottom_right.col + 1 - column,
        {
            self.set_bit(column as u16, top_left.row);
            self.set_bit(column as u16, bottom_right.row);
            column += 1;
        }
        let mut row: u32 = top_left.row as u32;
        proof {
            if before.well_formed() {
                assert forall|c: int, r: int|
                    #[trigger] self.bit(c, r) == (before.bit(c, r) || (0 <= c < size.col && 0 <= r < size.row && ((top_left.col
                        <= c <= bottom_right.col && (r == top_left.row || r == bottom_right.row)) || (top_left.row
                        <= r < row && (c == top_left.col || c == bottom_right.col))))) by {
                    assert(self.bit(c, r) == (before.bit(c, r) || (top_left.col <= c < column && (r == top_left.row
                        || r == bottom_right.row) && 0 <= c < size.col && 0 <= r < size.row)));
                }
            }
        }
        while row <= bottom_right.row as u32
            invariant
                top_left.col <= bottom_right.col,
                top_left.row <= row <= bottom_right.row + 1,
                self.size() == size,
                size == before.size(),
                before.well_formed() ==> self.well_formed(),
                before.well_formed() ==> forall|c: int, r: int|
                    #[trigger] self.bit(c, r) == (before.bit(c, r) || (0 <= c < size.col && 0 <= r < size.row && ((top_left.col
                        <= c <= bottom_right.col && (r == top_left.row || r == bottom_right.row)) || (top_left.row
                        <= r < row && (c == top_left.col || c == bottom_right.col))))),
            decreases bottom_right.row + 1 - row,
        {
            self.set_bit(top_left.col, row as u16);
            self.set_bit(bottom_right.col, row as u16);
            row += 1;
        }
        Ok(self)
    }

    /// A cell with a border lies on the terminal.
    pub proof fn lemma_bit_on_terminal(&self, column: int, row: int)
        ensures
            self.bit(column, row) ==> 0 <= column < self.size().col && 0 <= row < self.size().row,
    {
    }

    /// Whether the cell above carries a border.
    pub fn has_north(&self, column: u16, row: u16) -> (set: bool)
        ensures
            set == self.bit(column as int, row - 1),
    {
        if row == 0 {
            return false;
        }
        self.check_bit(column, row - 1)
    }

    /// Whether the cell to the right carries a border.
    pub fn has_east(&self, column: u16, row: u16) -> (set: bool)
        ensures
            set == self.bit(column + 1, row as int),
    {
        if column == u16::MAX {
            return false;
        }
        self.check_bit(column + 1, row)
    }

    /// Whether the cell below carries a border.
    pub fn has_south(&self, column: u16, row: u16) -> (set: bool)
        ensures
            set == self.bit(column as int, row + 1),
    {
        if row == u16::MAX {
            return false;
        }
        self.check_bit(column, row + 1)
    }

    /// Whether the cell to the left carries a border.
    pub fn has_west(&self, column: u16, row: u16) -> (set: bool)
        ensures
            set == self.bit(column - 1, row as int),
    {
        if column == 0 {
            return false;
        }
        self.check_bit(column - 1, row)
    }

    /// The characters of the first `upto` cells of a row.
    pub open spec fn row_text(&self, row: int, upto: int) -> Seq<char>
        decreases upto,
    {
        if upto <= 0 {
            Seq::empty()
        } else {
            self.row_text(row, upto - 1).push(self.glyph(upto - 1, row))
        }
    }

    /// The characters of the first `upto` rows, one row after the other.
    pub open spec fn grid_text(&self, upto: int) -> Seq<char>
        decreases upto,
    {
        if upto <= 0 {
            Seq::empty()
        } else {
            self.grid_text(upto - 1) + self.row_text(upto - 1, self.size().col as int)
        }
    }

    /// The terminal as text, row by row: a box-drawing character on each
    /// cell that carries a border, a space on every other.
    pub fn to_string(&self) -> (text: String)
        ensures
            text@ == self.grid_text(self.size().row as int),
    {
        let mut display_string = String::new();
        let mut row: u16 = 0;
        while row < self.terminal_size.row
            invariant
                row <= self.terminal_size.row,
                display_string@ == self.grid_text(row as int),
            decreases self.terminal_size.row - row,
        {
            let ghost line_start = display_string@;
            let mut column: u16 = 0;
            while column < self.terminal_size.col
                invariant
                    column <= self.terminal_size.col,
                    row < self.terminal_size.row,
                    display_string@ == line_start + self.row_text(row as int, column as int),
                decreases self.terminal_size.col - column,
            {
                if self.check_bit(column, row) {
                    display_string.push(
                        thick_border_from_directions(
                            self.has_north(column, row),
                            self.has_east(column, row),
                            self.has_south(column, row),
                            self.has_west(column, row),
                        ),
                    );
                } else {
                    display_string.push(' ');
                }
                assert(display_string@ =~= line_start + self.row_text(row as int, column + 1));
                column += 1;
            }
            row += 1;
        }
        display_string
    }
}

} // verus!
