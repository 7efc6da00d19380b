//! Screen geometry: where each pane lies for a given terminal size.

use vstd::prelude::*;
use crate::types::{MmmError, MmmResult, Vec2d};

verus! {

/// The narrowest terminal that can be laid out.
pub const MIN_COLUMNS: u16 = 10;

/// The shortest terminal that can be laid out.
pub const MIN_ROWS: u16 = 4;

/// The widest the application frame gets.
pub const MAX_APP_COLUMNS: u16 = 98;

/// The widest the parent pane gets.
pub const MAX_PARENT_COLUMNS: u16 = 31;

/// The widest the search field gets.
pub const MAX_SEARCH_WIDTH: usize = 20;

/// Position and size of every region of the screen. All of it follows from
/// the terminal size alone.
#[derive(Clone, Debug, PartialEq, Eq, Structural)]
pub struct MmmLayout {
    pub term_size: Vec2d,
    pub app_pos: Vec2d,
    pub app_size: Vec2d,
    pub parent_pos: Vec2d,
    pub parent_size: Vec2d,
    pub vert_sep_pos: Vec2d,
    pub vert_sep_size: Vec2d,
    pub horiz_sep_pos: Vec2d,
    pub horiz_sep_size: Vec2d,
    pub current_pos: Vec2d,
    pub current_size: Vec2d,
    pub path_disp_pos: Vec2d,
    pub path_disp_width: usize,
    pub search_width: usize,
}

/// The smaller of two numbers.
pub open spec fn least(a: int, b: int) -> int {
    if a <= b {
        a
    } else {
        b
    }
}

/// The terminal is too small to be laid out.
pub open spec fn too_small(term_size: Vec2d) -> bool {
    term_size.col < MIN_COLUMNS || term_size.row < MIN_ROWS
}

/// The layout of a terminal of the given size, for a size that is not too
/// small.
///
/// The application frame is at most 98 columns wide and gives up to ten rows
/// of a terminal taller than 32 rows; it is centred. Inside its border a
/// header of two rows holds the path and the search text. Below it the parent
/// pane takes 31 of every 98 columns, a separator takes one column, and the
/// current pane takes the rest.
pub open spec fn layout_for(term_size: Vec2d) -> MmmLayout {
    let app_cols = least(term_size.col as int, MAX_APP_COLUMNS as int);
    let spare_rows = if term_size.row > 32 {
        least(term_size.row - 32, 10)
    } else {
        0
    };
    let app_rows = term_size.row - spare_rows;
    let app_col = (term_size.col - app_cols) / 2;
    let app_row = (term_size.row - app_rows) / 2;
    let parent_cols = least((app_cols * 31) / 98, MAX_PARENT_COLUMNS as int);
    let pane_rows = app_rows - 4;
    let current_cols = if app_cols - parent_cols >= 3 {
        app_cols - parent_cols - 3
    } else {
        0
    };
    let search_width = least(app_cols - 2, MAX_SEARCH_WIDTH as int);
    MmmLayout {
        term_size,
        app_pos: Vec2d { col: app_col as u16, row: app_row as u16 },
        app_size: Vec2d { col: app_cols as u16, row: app_rows as u16 },
        parent_pos: Vec2d { col: (app_col + 1) as u16, row: (app_row + 3) as u16 },
        parent_size: Vec2d { col: parent_cols as u16, row: pane_rows as u16 },
        vert_sep_pos: Vec2d { col: (app_col + parent_cols + 1) as u16, row: (app_row + 2) as u16 },
        vert_sep_size: Vec2d { col: 1, row: (app_rows - 2) as u16 },
        horiz_sep_pos: Vec2d { col: app_col as u16, row: (app_row + 2) as u16 },
        horiz_sep_size: Vec2d { col: app_cols as u16, row: 1 },
        current_pos: Vec2d { col: (app_col + parent_cols + 2) as u16, row: (app_row + 3) as u16 },
        current_size: Vec2d { col: current_cols as u16, row: pane_rows as u16 },
        path_disp_pos: Vec2d { col: (app_col + 1) as u16, row: (app_row + 1) as u16 },
        path_disp_width: (app_cols - 2 - search_width) as usize,
        search_width: search_width as usize,
    }
}

/// The region at `pos` of extent `size` lies inside the region at `outer_pos`
/// of extent `outer_size`.
pub open spec fn lies_within(pos: Vec2d, size: Vec2d, outer_pos: Vec2d, outer_size: Vec2d) -> bool {
    &&& outer_pos.col <= pos.col
    &&& outer_pos.row <= pos.row
    &&& pos.col + size.col <= outer_pos.col + outer_size.col
    &&& pos.row + size.row <= outer_pos.row + outer_size.row
}

/// What computing the layout for `term_size` gives: the layout, or the error
/// that says the terminal is too small.
pub open spec fn is_layout_result(term_size: Vec2d, result: MmmResult<MmmLayout>) -> bool {
    match result {
        Ok(layout) => !too_small(term_size) && layout == layout_for(term_size),
        Err(e) => {
            &&& too_small(term_size)
            &&& e matches MmmError::General(text)
            &&& text@ == "display too small"@
        },
    }
}

impl MmmLayout {
    /// The panes, their borders and their separators share out the frame,
    /// and the frame lies on the terminal:
    /// - the frame lies within the terminal;
    /// - border, parent pane, separator, current pane and border make up the
    ///   frame's width exactly, left to right;
    /// - border, header, separator, pane and border make up its height;
    /// - border, path, search text and border make up the header's width.
    pub open spec fn fits(&self) -> bool {
        &&& lies_within(self.app_pos, self.app_size, Vec2d { col: 0, row: 0 }, self.term_size)
        &&& self.parent_pos.col == self.app_pos.col + 1
        &&& self.vert_sep_pos.col == self.parent_pos.col + self.parent_size.col
        &&& self.vert_sep_size.col == 1
        &&& self.current_pos.col == self.vert_sep_pos.col + 1
        &&& self.current_pos.col + self.current_size.col + 1 == self.app_pos.col + self.app_size.col
        &&& self.path_disp_pos.row == self.app_pos.row + 1
        &&& self.horiz_sep_pos.row == self.path_disp_pos.row + 1
        &&& self.horiz_sep_size.row == 1
        &&& self.parent_pos.row == self.horiz_sep_pos.row + 1
        &&& self.current_pos.row == self.parent_pos.row
        &&& self.parent_size.row == self.current_size.row
        &&& self.parent_pos.row + self.parent_size.row + 1 == self.app_pos.row + self.app_size.row
        &&& self.horiz_sep_pos.col == self.app_pos.col
        &&& self.horiz_sep_size.col == self.app_size.col
        &&& self.vert_sep_pos.row == self.horiz_sep_pos.row
        &&& self.vert_sep_pos.row + self.vert_sep_size.row == self.app_pos.row + self.app_size.row
        &&& self.path_disp_pos.col == self.app_pos.col + 1
        &&& self.path_disp_width + self.search_width + 2 == self.app_size.col
        &&& self.search_width <= MAX_SEARCH_WIDTH
    }

    /// The layout for a terminal of `term_size`, or an error for a terminal
    /// of fewer than 10 columns or 4 rows.
    pub fn from_size(term_size: Vec2d) -> (layout: MmmResult<MmmLayout>)
        ensures
            is_layout_result(term_size, layout),
            layout matches Ok(l) ==> l.fits(),
    {
        if term_size.col < MIN_COLUMNS || term_size.row < MIN_ROWS {
            return Err(MmmError::General("display too small".to_owned()));
        }
        let app_cols: u16 = if term_size.col < MAX_APP_COLUMNS {
            term_size.col
        } else {
            MAX_APP_COLUMNS
        };
        let spare_rows: u16 = if term_size.row > 32 {
            if term_size.row - 32 < 10 {
                term_size.row - 32
            } else {
                10
            }
        } else {
            0
        };
        let app_size = Vec2d { col: app_cols, row: term_size.row - spare_rows };
        let app_pos = Vec2d { col: (term_size.col - app_size.col) / 2, row: (term_size.row - app_size.row) / 2 };
        let parent_share: u16 = (app_size.col * 31) / 98;
        let parent_cols: u16 = if parent_share < MAX_PARENT_COLUMNS {
            parent_share
        } else {
            MAX_PARENT_COLUMNS
        };
        let parent_pos = Vec2d { col: app_pos.col + 1, row: app_pos.row + 3 };
        let parent_size = Vec2d { col: parent_cols, row: app_size.row - 4 };
        let vert_sep_pos = Vec2d { col: app_pos.col + (parent_size.col + 1), row: app_pos.row + 2 };
        let vert_sep_size = Vec2d { col: 1, row: app_size.row - 2 };
        let current_pos = Vec2d { col: app_pos.col + (parent_size.col + 2), row: app_pos.row + 3 };
        let current_size = Vec2d {
            col: if app_size.col - parent_size.col >= 3 {
                app_size.col - parent_size.col - 3
            } else {
                0
            },
            row: parent_size.row,
        };
        let horiz_sep_pos = Vec2d { col: app_pos.col, row: app_pos.row + 2 };
        let horiz_sep_size = Vec2d { col: app_size.col, row: 1 };
        let inner_cols: usize = (app_size.col - 2) as usize;
        let search_width: usize = if inner_cols < MAX_SEARCH_WIDTH {
            inner_cols
        } else {
            MAX_SEARCH_WIDTH
        };
        let path_disp_width: usize = inner_cols - search_width;
        let path_disp_pos = Vec2d { col: app_pos.col + 1, row: app_pos.row + 1 };
        Ok(
            MmmLayout {
                term_size,
                app_pos,
                app_size,
                parent_pos,
                parent_size,
                vert_sep_pos,
                vert_sep_size,
                horiz_sep_pos,
                horiz_sep_size,
                current_pos,
                current_size,
                path_disp_pos,
                path_disp_width,
                search_width,
            },
        )
    }

    /// Replaces the layout by the one for `new_size`. A terminal that is too
    /// small leaves the layout as it was.
    pub fn process_resize_event(&mut self, new_size: Vec2d) -> (done: MmmResult<()>)
        ensures
            done is Err <==> too_small(new_size),
            done is Ok ==> is_layout_result(new_size, Ok(*final(self))) && final(self).fits(),
            done matches Err(e) ==> is_layout_result(new_size, Err(e)) && *final(self) == *old(self),
    {
        match MmmLayout::from_size(new_size) {
            Ok(layout) => {
                *self = layout;
                Ok(())
            },
            Err(e) => Err(e),
        }
    }
}

impl Default for MmmLayout {
    fn default() -> (layout: MmmLayout)
        ensures
            layout == (MmmLayout {
                term_size: Vec2d { col: 0, row: 0 },
                app_pos: Vec2d { col: 0, row: 0 },
                app_size: Vec2d { col: 0, row: 0 },
                parent_pos: Vec2d { col: 0, row: 0 },
                parent_size: Vec2d { col: 0, row: 0 },
                vert_sep_pos: Vec2d { col: 0, row: 0 },
                vert_sep_size: Vec2d { col: 0, row: 0 },
                horiz_sep_pos: Vec2d { col: 0, row: 0 },
                horiz_sep_size: Vec2d { col: 0, row: 0 },
                current_pos: Vec2d { col: 0, row: 0 },
                current_size: Vec2d { col: 0, row: 0 },
                path_disp_pos: Vec2d { col: 0, row: 0 },
                path_disp_width: 0,
                search_width: 0,
            }),
    {
        let origin = Vec2d { col: 0, row: 0 };
        MmmLayout {
            term_size: origin,
            app_pos: origin,
            app_size: origin,
            parent_pos: origin,
            parent_size: origin,
            vert_sep_pos: origin,
            vert_sep_size: origin,
            horiz_sep_pos: origin,
            horiz_sep_size: origin,
            current_pos: origin,
            current_size: origin,
            path_disp_pos: origin,
            path_disp_width: 0,
            search_width: 0,
        }
    }
}

/// A terminal at or above the minimum size has a layout whose panes share
/// out the frame, with no pane of negative extent.
pub proof fn lemma_layout_fits(term_size: Vec2d)
    requires
        !too_small(term_size),
    ensures
        layout_for(term_size).fits(),
        layout_for(term_size).term_size == term_size,
{
}

/// The layout is a function of the terminal size alone: two computations for
/// one size agree in whether they succeed and in the layout they give,
/// whatever was computed before.
pub proof fn lemma_layout_deterministic(
    term_size: Vec2d,
    first: MmmResult<MmmLayout>,
    second: MmmResult<MmmLayout>,
)
    requires
        is_layout_result(term_size, first),
        is_layout_result(term_size, second),
    ensures
        first is Ok <==> second is Ok,
        first is Ok ==> first->Ok_0 == second->Ok_0,
        first is Err ==> first->Err_0->General_0@ == second->Err_0->General_0@,
{
}

} // verus!
