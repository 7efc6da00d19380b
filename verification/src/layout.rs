//! The three-column geometry: a header, a footer, and up to three columns
//! between the horizontal margins.

use vstd::prelude::*;

verus! {

/// The width of a column on a terminal with room to spare.
pub const BASE_WIDTH: u16 = 34;

/// The narrowest a column may get before it is given up.
pub const MIN_WIDTH: u16 = 18;

/// Sizes of the elements of the screen.
#[derive(Clone, Copy, Debug, PartialEq, Eq, Structural)]
pub struct ElementGeometry {
    pub term_width: u16,
    pub term_height: u16,
    pub header_height: u16,
    pub footer_height: u16,
    pub margain_horizontal: u16,
    pub margain_vertical: u16,
    pub col_1_width: u16,
    pub col_2_width: u16,
    pub col_3_width: u16,
}

/// The width between the two horizontal margins; none if the margins take
/// it all.
pub open spec fn inner_width(width: int, margin: int) -> int {
    if width >= 2 * margin {
        width - 2 * margin
    } else {
        0
    }
}

/// The widths of the three columns on a terminal of the given width.
///
/// While a third of the inner width is at least 18 there are three columns:
/// two of a third each and the third with the rest, or two of 34 and the
/// third with the rest once that is more. Below that there are two columns
/// of half the width while a half is at least 18, and below that one.
pub open spec fn column_widths(width: int, margin: int) -> (int, int, int) {
    let inner = inner_width(width, margin);
    if inner / 3 < MIN_WIDTH {
        if inner / 2 < MIN_WIDTH {
            (0, inner, 0)
        } else {
            (inner / 2, inner - inner / 2, 0)
        }
    } else if inner > BASE_WIDTH * 3 {
        (BASE_WIDTH as int, BASE_WIDTH as int, inner - BASE_WIDTH * 2)
    } else {
        (inner / 3, inner / 3, inner - (2 * inner) / 3)
    }
}

impl ElementGeometry {
    /// The columns are those for the terminal's width and the margin.
    pub open spec fn well_formed(&self) -> bool {
        (self.col_1_width as int, self.col_2_width as int, self.col_3_width as int) == column_widths(
            self.term_width as int,
            self.margain_horizontal as int,
        )
    }

    /// The geometry for a terminal of the given size: a margin of one
    /// column on each side, a header and a footer of three rows each.
    pub fn new(term_width: u16, term_height: u16) -> (geometry: ElementGeometry)
        ensures
            geometry.well_formed(),
            geometry.term_width == term_width,
            geometry.term_height == term_height,
            geometry.header_height == 3,
            geometry.footer_height == 3,
            geometry.margain_horizontal == 1,
            geometry.margain_vertical == 0,
    {
        let (margain_horizontal, margain_vertical): (u16, u16) = (1, 0);
        let (header_height, footer_height): (u16, u16) = (3, 3);
        let (col_1_width, col_2_width, col_3_width) = ElementGeometry::calculate_column_widths(
            term_width,
            margain_horizontal,
        );
        ElementGeometry {
            term_width,
            term_height,
            header_height,
            footer_height,
            margain_horizontal,
            margain_vertical,
            col_1_width,
            col_2_width,
            col_3_width,
        }
    }

    /// Takes the new size of the terminal and sets the columns for it.
    pub fn recalculate(&mut self, width: u16, height: u16)
        ensures
            final(self).well_formed(),
            *final(self) == (ElementGeometry {
                term_width: width,
                term_height: height,
                col_1_width: final(self).col_1_width,
                col_2_width: final(self).col_2_width,
                col_3_width: final(self).col_3_width,
                ..*old(self)
            }),
    {
        self.term_width = width;
        self.term_height = height;
        self.update_column_widths();
    }

    /// Sets the columns for the terminal's width.
    pub fn update_column_widths(&mut self)
        ensures
            final(self).well_formed(),
            *final(self) == (ElementGeometry {
                col_1_width: final(self).col_1_width,
                col_2_width: final(self).col_2_width,
                col_3_width: final(self).col_3_width,
                ..*old(self)
            }),
    {
        let (int1, int2, int3) = ElementGeometry::calculate_column_widths(self.term_width, self.margain_horizontal);
        self.col_1_width = int1;
        self.col_2_width = int2;
        self.col_3_width = int3;
    }

    /// The widths of the three columns for a terminal of `width` columns
    /// with `margain_horizontal` columns of margin on each side. The columns
    /// fit between the margins; a column that would be too narrow gets no
    /// width.
    pub fn calculate_column_widths(width: u16, margain_horizontal: u16) -> (columns: (u16, u16, u16))
        ensures
            (columns.0 as int, columns.1 as int, columns.2 as int) == column_widths(
                width as int,
                margain_horizontal as int,
            ),
            columns.0 + columns.1 + columns.2 <= inner_width(width as int, margain_horizontal as int),
            columns.0 + columns.1 + columns.2 <= width,
    {
        let base_width: u16 = BASE_WIDTH;
        let min_width: u16 = MIN_WIDTH;
        let inner_width: u16 = if margain_horizontal <= width / 2 && width - margain_horizontal >= margain_horizontal {
            width - margain_horizontal - margain_horizontal
        } else {
            0
        };
        if inner_width / 3 < min_width {
            if inner_width / 2 < min_width {
                (0, inner_width, 0)
            } else {
                (inner_width / 2, inner_width - (inner_width / 2), 0)
            }
        } else if inner_width > base_width * 3 {
            (base_width, base_width, inner_width - (base_width * 2))
        } else {
            (inner_width / 3, inner_width / 3, inner_width - (2 * inner_width / 3))
        }
    }
}

} // verus!
