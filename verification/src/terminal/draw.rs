//! Drawing the panes into the frame buffer.

use vstd::prelude::*;
use std::rc::Rc;
use crate::filesystem::filter::starts_with_dot;
use crate::filesystem::MmmFilesys;
use crate::style::thick_border;
use crate::terminal::boxes::{on_outline, TerminalBoxes};
use crate::terminal::buffer::{
    add_style_to_string, advanced, cell_count, filled, plain, printed, style_chars, styled, styled_text, Color,
    Colors, StyledChar, TerminalBuffer,
};
use crate::terminal::layout::MmmLayout;
use crate::filesystem::filter::FilterMatchEnum;
use crate::filesystem::{scored_views, MmmDirEntry, MmmScoredDirEntry, ScoredView};
use crate::text::chars_of;
use crate::filesystem::path::path_text;
use crate::terminal::buffer::boxed;
use crate::terminal::composer::UNTOUCHED;
use crate::types::{MmmError, MmmResult, Vec2d};

verus! {

/// Which parts of the screen a state change asks to be drawn again.
#[derive(Clone, Copy, Debug, PartialEq, Eq, Structural)]
pub struct DrawOps {
    pub background: bool,
    pub current_dir: bool,
    pub search_box: bool,
}

impl DrawOps {
    /// The request to draw the named parts.
    pub fn new(background: bool, current_dir: bool, search_box: bool) -> (ops: DrawOps)
        ensures
            ops == (DrawOps { background, current_dir, search_box }),
    {
        DrawOps { background, current_dir, search_box }
    }

    /// Whether anything is asked to be drawn.
    pub fn is_any(&self) -> (any: bool)
        ensures
            any == (self.background || self.current_dir || self.search_box),
    {
        self.background || self.current_dir || self.search_box
    }

    /// Everything: frame, panes and search bar.
    pub open spec fn everything() -> DrawOps {
        DrawOps { background: true, current_dir: true, search_box: true }
    }

    /// The current pane and the search bar.
    pub open spec fn pane_and_search() -> DrawOps {
        DrawOps { background: false, current_dir: true, search_box: true }
    }

    /// The current pane alone.
    pub open spec fn pane_only() -> DrawOps {
        DrawOps { background: false, current_dir: true, search_box: false }
    }
}

/// The first `max_len` characters of `input`, or all of it if it has no
/// more.
pub fn clamp_string(input: &str, max_len: usize) -> (clamped: &str)
    ensures
        clamped@ == clamped_text(input@, max_len as int),
{
    if max_len >= input.unicode_len() {
        assert(input@.take(input@.len() as int) =~= input@);
        input
    } else {
        input.substring_char(0, max_len)
    }
}

/// The first `max_len` characters of `text`, or all of it if it has no more.
pub open spec fn clamped_text(text: Seq<char>, max_len: int) -> Seq<char> {
    if max_len >= text.len() {
        text
    } else {
        text.take(max_len)
    }
}

/// What drawing does on one row of a pane.
pub enum RowPlan {
    /// Nothing is drawn on the row.
    Skip,
    /// The cells are written from the start of the row.
    Print(Seq<StyledChar>),
    /// The row cannot be drawn; the text says why.
    Fail(Seq<char>),
}

/// The cell at the start of row `offset` of a pane at `pos` lies on the
/// terminal, its right and lower edge included.
pub open spec fn row_on_screen(term_size: Vec2d, pos: Vec2d, offset: int) -> bool {
    pos.col <= term_size.col && pos.row + offset <= term_size.row
}

/// The index of the cell at the start of row `offset` of a pane at `pos`.
pub open spec fn row_index(term_size: Vec2d, pos: Vec2d, offset: int) -> int {
    (pos.row + offset) * term_size.col + pos.col
}

/// Drawing row `i` fails: its cells cannot be made, or its start does not
/// lie on the terminal.
pub open spec fn row_fails(term_size: Vec2d, pos: Vec2d, plans: Seq<RowPlan>, i: int) -> bool {
    match plans[i] {
        RowPlan::Skip => false,
        RowPlan::Print(_) => !row_on_screen(term_size, pos, i),
        RowPlan::Fail(_) => true,
    }
}

/// Row `i` is the first row that fails.
pub open spec fn first_failure(term_size: Vec2d, pos: Vec2d, plans: Seq<RowPlan>, i: int) -> bool {
    &&& 0 <= i < plans.len()
    &&& row_fails(term_size, pos, plans, i)
    &&& forall|j: int| 0 <= j < i ==> !#[trigger] row_fails(term_size, pos, plans, j)
}

/// Some row fails.
pub open spec fn some_row_fails(term_size: Vec2d, pos: Vec2d, plans: Seq<RowPlan>) -> bool {
    exists|i: int| 0 <= i < plans.len() && #[trigger] row_fails(term_size, pos, plans, i)
}

/// The error that a failing row gives.
pub open spec fn is_row_error(term_size: Vec2d, pos: Vec2d, plans: Seq<RowPlan>, i: int, e: MmmError) -> bool {
    match plans[i] {
        RowPlan::Fail(message) => e matches MmmError::General(text) && text@ == message,
        _ => e is TerminalBuffer,
    }
}

/// The frame after the first `upto` rows of a pane at `pos` are drawn.
pub open spec fn painted(
    frame: Seq<StyledChar>,
    term_size: Vec2d,
    pos: Vec2d,
    plans: Seq<RowPlan>,
    upto: int,
) -> Seq<StyledChar>
    decreases upto,
{
    if upto <= 0 {
        frame
    } else {
        let before = painted(frame, term_size, pos, plans, upto - 1);
        match plans[upto - 1] {
            RowPlan::Print(cells) => printed(before, row_index(term_size, pos, upto - 1), cells),
            _ => before,
        }
    }
}

/// Where the cursor stands after the first `upto` rows are drawn.
pub open spec fn cursor_after(
    cursor: int,
    len: int,
    term_size: Vec2d,
    pos: Vec2d,
    plans: Seq<RowPlan>,
    upto: int,
) -> int
    decreases upto,
{
    if upto <= 0 {
        cursor
    } else {
        match plans[upto - 1] {
            RowPlan::Print(cells) => advanced(len, row_index(term_size, pos, upto - 1), cells.len() as int),
            _ => cursor_after(cursor, len, term_size, pos, plans, upto - 1),
        }
    }
}

proof fn lemma_painted_len(frame: Seq<StyledChar>, term_size: Vec2d, pos: Vec2d, plans: Seq<RowPlan>, upto: int)
    ensures
        painted(frame, term_size, pos, plans, upto).len() == frame.len(),
    decreases upto,
{
    if upto > 0 {
        lemma_painted_len(frame, term_size, pos, plans, upto - 1);
    }
}

/// Writes `cells` from the start of row `offset` of the pane at `pos`. A
/// row whose start does not lie on the terminal is an error, and nothing is
/// written.
pub fn print_at(term_buffer: &mut TerminalBuffer, pos: Vec2d, offset: usize, cells: &[StyledChar]) -> (done:
    MmmResult<()>)
    ensures
        done is Err <==> !row_on_screen(old(term_buffer).terminal_size, pos, offset as int),
        done matches Err(e) ==> e is TerminalBuffer && *final(term_buffer) == *old(term_buffer),
        done is Ok ==> {
            &&& final(term_buffer).scratch_buffer@ == printed(
                old(term_buffer).scratch_buffer@,
                row_index(old(term_buffer).terminal_size, pos, offset as int),
                cells@,
            )
            &&& final(term_buffer).cursor_pos == advanced(
                old(term_buffer).scratch_buffer@.len() as int,
                row_index(old(term_buffer).terminal_size, pos, offset as int),
                cells@.len() as int,
            )
            &&& final(term_buffer).buffer == old(term_buffer).buffer
            &&& final(term_buffer).terminal_size == old(term_buffer).terminal_size
        },
{
    if offset > u16::MAX as usize {
        return Err(MmmError::TerminalBuffer);
    }
    let target = match pos.checked_add(Vec2d { col: 0, row: offset as u16 }) {
        Some(target) => target,
        None => {
            return Err(MmmError::TerminalBuffer);
        },
    };
    match term_buffer.move_cursor(target) {
        Err(e) => Err(e),
        Ok(buffer) => {
            let _ = buffer.styled_print(cells);
            Ok(())
        },
    }
}

/// What drawing a pane did: the frame shown and the size are untouched; on
/// success every row is drawn; on an error the rows before the first
/// failing row are drawn, and the error is that row's.
pub open spec fn is_pane_drawn(
    before: TerminalBuffer,
    after: TerminalBuffer,
    pos: Vec2d,
    plans: Seq<RowPlan>,
    done: MmmResult<()>,
) -> bool {
    &&& after.buffer == before.buffer
    &&& after.terminal_size == before.terminal_size
    &&& match done {
        Ok(_) => {
            &&& !some_row_fails(before.terminal_size, pos, plans)
            &&& after.scratch_buffer@ == painted(
                before.scratch_buffer@,
                before.terminal_size,
                pos,
                plans,
                plans.len() as int,
            )
            &&& after.cursor_pos == cursor_after(
                before.cursor_pos as int,
                before.scratch_buffer@.len() as int,
                before.terminal_size,
                pos,
                plans,
                plans.len() as int,
            )
        },
        Err(e) => exists|k: int|
            {
                &&& #[trigger] first_failure(before.terminal_size, pos, plans, k)
                &&& is_row_error(before.terminal_size, pos, plans, k, e)
                &&& after.scratch_buffer@ == painted(before.scratch_buffer@, before.terminal_size, pos, plans, k)
                &&& after.cursor_pos == cursor_after(
                    before.cursor_pos as int,
                    before.scratch_buffer@.len() as int,
                    before.terminal_size,
                    pos,
                    plans,
                    k,
                )
            },
    }
}

/// The colour of an entry's name where nothing else decides it: blue for a
/// directory, white for anything else.
pub open spec fn base_colour(entry: MmmDirEntry) -> Color {
    if entry is Directory {
        Color::Blue
    } else {
        Color::White
    }
}

/// The text of the error for a match mask that is shorter than the name.
pub open spec fn mask_too_short() -> Seq<char> {
    "out of bounds of filter"@
}

/// The row of the current pane for `item`: its name, cut to the width of the
/// pane, with the characters that the filter matched in bold red.
pub open spec fn current_row(item: ScoredView, width: int) -> RowPlan {
    let name = clamped_text(item.entry.name(), width);
    if item.mask.len() < name.len() {
        RowPlan::Fail(mask_too_short())
    } else {
        RowPlan::Print(Seq::new(name.len(), |k: int| current_cell(item, name[k], k)))
    }
}

/// Cell `k` of the current pane's row for `item`: bold red where the filter
/// matched the character, else the colour of the entry's kind.
pub open spec fn current_cell(item: ScoredView, character: char, k: int) -> StyledChar {
    if item.mask[k] == FilterMatchEnum::Match {
        styled(character, Color::Red, Color::Reset, true)
    } else {
        styled(character, base_colour(*item.entry), Color::Reset, false)
    }
}

/// The rows of the current pane: one entry on each row from the top, as far
/// as the entries and the rows go.
pub open spec fn current_rows(list: Seq<ScoredView>, size: Vec2d) -> Seq<RowPlan> {
    Seq::new(
        size.row as nat,
        |i: int|
            if i < list.len() {
                current_row(list[i], size.col as int)
            } else {
                RowPlan::Skip
            },
    )
}

/// The cells of the current pane's row for `entry`.
pub fn current_dir_line(entry: &MmmScoredDirEntry, width: usize) -> (line: MmmResult<Vec<StyledChar>>)
    ensures
        match current_row(entry@, width as int) {
            RowPlan::Print(cells) => line matches Ok(l) && l@ == cells,
            RowPlan::Fail(message) => line matches Err(e) && e matches MmmError::General(text) && text@ == message,
            RowPlan::Skip => false,
        },
{
    let fg_colour = match &*entry.entry {
        MmmDirEntry::Directory { .. } => Color::Blue,
        _ => Color::White,
    };
    let name = chars_of(clamp_string(entry.entry.get_name(), width));
    if entry.filter_match.len() < name.len() {
        return Err(MmmError::General("out of bounds of filter".to_owned()));
    }
    let ghost wanted = current_row(entry@, width as int)->Print_0;
    let mut styled_str: Vec<StyledChar> = Vec::new();
    let mut i: usize = 0;
    while i < name.len()
        invariant
            i <= name.len(),
            name@ == clamped_text(entry@.entry.name(), width as int),
            entry.filter_match@.len() >= name.len(),
            fg_colour == base_colour(*entry.entry),
            wanted == current_row(entry@, width as int)->Print_0,
            wanted.len() == name.len(),
            styled_str@ == wanted.take(i as int),
        decreases name.len() - i,
    {
        if entry.filter_match[i] == FilterMatchEnum::Match {
            styled_str.push(StyledChar { character: name[i], colour: Colors::new(Color::Red, Color::Reset), bold: true });
        } else {
            styled_str.push(
                StyledChar { character: name[i], colour: Colors::new(fg_colour, Color::Reset), bold: false },
            );
        }
        assert(styled_str@[i as int] == current_cell(entry@, name@[i as int], i as int));
        assert(wanted[i as int] == current_cell(entry@, name@[i as int], i as int));
        i += 1;
        assert(styled_str@ =~= wanted.take(i as int));
    }
    assert(wanted.take(i as int) =~= wanted);
    Ok(styled_str)
}

/// Draws the current pane at `pos`: the entries of `filtered_list` from the
/// top, one on each of the pane's rows.
pub fn draw_current_dir(
    term_buffer: &mut TerminalBuffer,
    filtered_list: &[MmmScoredDirEntry],
    pos: Vec2d,
    size: Vec2d,
) -> (done: MmmResult<()>)
    ensures
        is_pane_drawn(
            *old(term_buffer),
            *final(term_buffer),
            pos,
            current_rows(scored_views(filtered_list@), size),
            done,
        ),
{
    let ghost before = *term_buffer;
    let ghost plans = current_rows(scored_views(filtered_list@), size);
    let ghost ts = term_buffer.terminal_size;
    let mut i: usize = 0;
    while i < size.row as usize
        invariant
            i <= size.row,
            plans == current_rows(scored_views(filtered_list@), size),
            plans.len() == size.row,
            before == *old(term_buffer),
            ts == before.terminal_size,
            term_buffer.buffer == before.buffer,
            term_buffer.terminal_size == before.terminal_size,
            term_buffer.scratch_buffer@.len() == before.scratch_buffer@.len(),
            forall|j: int| 0 <= j < i ==> !#[trigger] row_fails(ts, pos, plans, j),
            term_buffer.scratch_buffer@ == painted(before.scratch_buffer@, ts, pos, plans, i as int),
            term_buffer.cursor_pos == cursor_after(
                before.cursor_pos as int,
                before.scratch_buffer@.len() as int,
                ts,
                pos,
                plans,
                i as int,
            ),
        decreases size.row - i,
    {
        if i < filtered_list.len() {
            assert(scored_views(filtered_list@)[i as int] == filtered_list@[i as int]@);
            assert(plans[i as int] == current_row(filtered_list@[i as int]@, size.col as int));
            match current_dir_line(&filtered_list[i], size.col as usize) {
                Err(e) => {
                    assert(first_failure(ts, pos, plans, i as int));
                    assert(is_row_error(ts, pos, plans, i as int, e));
                    return Err(e);
                },
                Ok(styled_str) => match print_at(term_buffer, pos, i, styled_str.as_slice()) {
                    Err(e) => {
                        assert(first_failure(ts, pos, plans, i as int));
                        assert(is_row_error(ts, pos, plans, i as int, e));
                        return Err(e);
                    },
                    Ok(()) => {},
                },
            }
        }
        i += 1;
    }
    proof {
        if some_row_fails(ts, pos, plans) {
            let k = choose|k: int| 0 <= k < plans.len() && #[trigger] row_fails(ts, pos, plans, k);
            assert(!row_fails(ts, pos, plans, k));
        }
    }
    Ok(())
}

/// The first entry that the parent pane shows: the one that puts the
/// selected entry in the middle of the pane's rows, but no further down the
/// list than leaves the pane filled, and no entry before the first.
pub open spec fn scroll_top(selected: int, rows: int, len: int) -> int {
    let centred = selected - if rows > 0 {
        (rows - 1) / 2
    } else {
        0
    };
    let last = len - (1 + rows);
    let top = if centred <= last {
        centred
    } else {
        last
    };
    if top > 0 {
        top
    } else {
        0
    }
}

/// What follows the selected entry's name in the parent pane: a line that
/// runs through the `room` columns that the name leaves free and joins the
/// separator on the pane's right.
pub open spec fn marker(room: int) -> Seq<char> {
    if room <= 0 {
        seq!['┤']
    } else {
        seq![' '] + Seq::new((room - 1) as nat, |i: int| '─') + seq!['┤']
    }
}

/// The text of the error for a selected entry without a name.
pub open spec fn empty_name() -> Seq<char> {
    "cannot index empty name"@
}

/// The row of the parent pane for `entry`: its name, cut to the width of the
/// pane. The selected entry is bold and red, or grey if it is hidden and
/// hidden files are not shown, and the marker follows it.
pub open spec fn parent_row(entry: MmmDirEntry, is_selected: bool, width: int, allow_hidden: bool) -> RowPlan {
    let name = clamped_text(entry.name(), width);
    if is_selected {
        if !allow_hidden && entry.name().len() == 0 {
            RowPlan::Fail(empty_name())
        } else {
            let colour = if !allow_hidden && entry.name()[0] == '.' {
                Color::DarkGrey
            } else {
                Color::Red
            };
            RowPlan::Print(
                styled_text(name, colour, Color::Reset, true) + styled_text(
                    marker(width - name.len()),
                    Color::Reset,
                    Color::Reset,
                    false,
                ),
            )
        }
    } else {
        RowPlan::Print(styled_text(name, base_colour(entry), Color::Reset, false))
    }
}

/// The rows of the parent pane: the entries from `scroll_top` on, one on
/// each row, as far as the entries and the rows go.
pub open spec fn parent_rows(
    list: Seq<Rc<MmmDirEntry>>,
    selected: int,
    size: Vec2d,
    allow_hidden: bool,
) -> Seq<RowPlan> {
    let top = scroll_top(selected, size.row as int, list.len() as int);
    Seq::new(
        size.row as nat,
        |i: int|
            if i + top < list.len() {
                parent_row(*list[i + top], i + top == selected, size.col as int, allow_hidden)
            } else {
                RowPlan::Skip
            },
    )
}

/// The cells of the parent pane's row for `entry`.
pub fn parent_dir_line(entry: &MmmDirEntry, is_selected: bool, width: usize, allow_hidden: bool) -> (line:
    MmmResult<Vec<StyledChar>>)
    ensures
        match parent_row(*entry, is_selected, width as int, allow_hidden) {
            RowPlan::Print(cells) => line matches Ok(l) && l@ == cells,
            RowPlan::Fail(message) => line matches Err(e) && e matches MmmError::General(text) && text@ == message,
            RowPlan::Skip => false,
        },
{
    let fg_colour;
    let bold;
    if is_selected {
        if !allow_hidden && entry.get_name().is_empty() {
            return Err(MmmError::General("cannot index empty name".to_owned()));
        }
        if !allow_hidden && starts_with_dot(entry.get_name()) {
            fg_colour = Color::DarkGrey;
        } else {
            fg_colour = Color::Red;
        }
        bold = true;
    } else {
        fg_colour = match entry {
            MmmDirEntry::Directory { .. } => Color::Blue,
            _ => Color::White,
        };
        bold = false;
    }
    let formatted_name = clamp_string(entry.get_name(), width);
    let mut styled_str = add_style_to_string(formatted_name, fg_colour, Color::Reset, bold);
    if is_selected {
        let ghost name_cells = styled_str@;
        let length = styled_str.len();
        let ghost room = width - length;
        let ghost tail = marker(room);
        let blank = StyledChar { character: ' ', colour: Colors::new(Color::Reset, Color::Reset), bold: false };
        let line = StyledChar { character: '─', colour: Colors::new(Color::Reset, Color::Reset), bold: false };
        let joint = StyledChar { character: '┤', colour: Colors::new(Color::Reset, Color::Reset), bold: false };
        if length < width {
            styled_str.push(blank);
            let mut filled: usize = 0;
            while filled < width - length - 1
                invariant
                    length < width,
                    room == width - length,
                    tail == marker(room),
                    filled <= width - length - 1,
                    line == plain('─'),
                    styled_str@ == name_cells + styled_text(
                        tail.take(1 + filled),
                        Color::Reset,
                        Color::Reset,
                        false,
                    ),
                decreases width - length - 1 - filled,
            {
                styled_str.push(line);
                filled += 1;
                assert(styled_str@ =~= name_cells + styled_text(
                    tail.take(1 + filled),
                    Color::Reset,
                    Color::Reset,
                    false,
                ));
            }
        }
        styled_str.push(joint);
        assert(styled_str@ =~= name_cells + styled_text(tail, Color::Reset, Color::Reset, false));
    }
    Ok(styled_str)
}

/// The first entry that the parent pane shows.
pub fn parent_top_row(selected: usize, rows: u16, len: usize) -> (top: usize)
    ensures
        top == scroll_top(selected as int, rows as int, len as int),
{
    let half: usize = if rows > 0 {
        ((rows - 1) / 2) as usize
    } else {
        0
    };
    if selected < half || len < 1 + rows as usize {
        0
    } else {
        let centred = selected - half;
        let last = len - (1 + rows as usize);
        if centred <= last {
            centred
        } else {
            last
        }
    }
}

/// Draws the parent pane at `pos`: the entries of `dir_list`, scrolled so
/// that the entry at `selected` shows, with that entry marked.
pub fn draw_parent_dir(
    term_buffer: &mut TerminalBuffer,
    dir_list: &[Rc<MmmDirEntry>],
    selected: usize,
    pos: Vec2d,
    size: Vec2d,
    allow_hidden: bool,
) -> (done: MmmResult<()>)
    ensures
        is_pane_drawn(
            *old(term_buffer),
            *final(term_buffer),
            pos,
            parent_rows(dir_list@, selected as int, size, allow_hidden),
            done,
        ),
{
    let ghost before = *term_buffer;
    let ghost plans = parent_rows(dir_list@, selected as int, size, allow_hidden);
    let ghost ts = term_buffer.terminal_size;
    let len = dir_list.len();
    let top_row = parent_top_row(selected, size.row, len);
    let mut i: usize = 0;
    while i < size.row as usize
        invariant
            i <= size.row,
            len == dir_list@.len(),
            top_row == scroll_top(selected as int, size.row as int, len as int),
            plans == parent_rows(dir_list@, selected as int, size, allow_hidden),
            plans.len() == size.row,
            before == *old(term_buffer),
            ts == before.terminal_size,
            term_buffer.buffer == before.buffer,
            term_buffer.terminal_size == before.terminal_size,
            term_buffer.scratch_buffer@.len() == before.scratch_buffer@.len(),
            forall|j: int| 0 <= j < i ==> !#[trigger] row_fails(ts, pos, plans, j),
            term_buffer.scratch_buffer@ == painted(before.scratch_buffer@, ts, pos, plans, i as int),
            term_buffer.cursor_pos == cursor_after(
                before.cursor_pos as int,
                before.scratch_buffer@.len() as int,
                ts,
                pos,
                plans,
                i as int,
            ),
        decreases size.row - i,
    {
        if top_row < len && i < len - top_row {
            let index = i + top_row;
            let is_selected = index == selected;
            assert(plans[i as int] == parent_row(
                *dir_list@[index as int],
                is_selected,
                size.col as int,
                allow_hidden,
            ));
            match parent_dir_line(&dir_list[index], is_selected, size.col as usize, allow_hidden) {
                Err(e) => {
                    assert(first_failure(ts, pos, plans, i as int));
                    assert(is_row_error(ts, pos, plans, i as int, e));
                    return Err(e);
                },
                Ok(styled_str) => match print_at(term_buffer, pos, i, styled_str.as_slice()) {
                    Err(e) => {
                        assert(first_failure(ts, pos, plans, i as int));
                        assert(is_row_error(ts, pos, plans, i as int, e));
                        return Err(e);
                    },
                    Ok(()) => {},
                },
            }
        }
        i += 1;
    }
    proof {
        if some_row_fails(ts, pos, plans) {
            let k = choose|k: int| 0 <= k < plans.len() && #[trigger] row_fails(ts, pos, plans, k);
            assert(!row_fails(ts, pos, plans, k));
        }
    }
    Ok(())
}

/// The last `count` characters of `text`, or all of it if it has no more.
pub open spec fn tail_text(text: Seq<char>, count: int) -> Seq<char> {
    if count >= text.len() {
        text
    } else {
        text.subrange(text.len() - count, text.len() as int)
    }
}

/// The search bar: the end of the path in grey, as much of it as fits in
/// `path_width` less the separator, then the separator `/` in white, then
/// the end of the search text in bold red. The root's path is not shown, the
/// separator stands for it.
pub open spec fn search_line(
    path_width: int,
    path_text: Seq<char>,
    search_width: int,
    search_text: Seq<char>,
) -> Seq<StyledChar> {
    styled_text(
        if path_text == seq!['/'] {
            Seq::empty()
        } else {
            tail_text(
                path_text,
                if path_width > 0 {
                    path_width - 1
                } else {
                    0
                },
            )
        },
        Color::DarkGrey,
        Color::Reset,
        false,
    ) + styled_text(
        if path_width == 0 {
            Seq::empty()
        } else {
            seq!['/']
        },
        Color::White,
        Color::Reset,
        false,
    ) + styled_text(tail_text(search_text, search_width), Color::Red, Color::Reset, true)
}

/// Puts `cells` behind the cells of `line`.
fn append_cells(line: &mut Vec<StyledChar>, cells: &Vec<StyledChar>)
    ensures
        final(line)@ == old(line)@ + cells@,
{
    let ghost before = line@;
    let mut i: usize = 0;
    while i < cells.len()
        invariant
            i <= cells.len(),
            line@ == before + cells@.take(i as int),
        decreases cells.len() - i,
    {
        line.push(cells[i]);
        i += 1;
        assert(line@ =~= before + cells@.take(i as int));
    }
    assert(cells@.take(cells.len() as int) =~= cells@);
}

/// Draws the search bar at `position`. A position that does not lie on the
/// terminal is an error, and nothing is drawn.
pub fn draw_search_str(
    term_buffer: &mut TerminalBuffer,
    position: Vec2d,
    path_width: usize,
    path_str: &str,
    search_width: usize,
    search_str: &str,
) -> (done: MmmResult<()>)
    ensures
        done is Err <==> !row_on_screen(old(term_buffer).terminal_size, position, 0),
        done matches Err(e) ==> e is TerminalBuffer && *final(term_buffer) == *old(term_buffer),
        done is Ok ==> {
            &&& final(term_buffer).scratch_buffer@ == printed(
                old(term_buffer).scratch_buffer@,
                row_index(old(term_buffer).terminal_size, position, 0),
                search_line(path_width as int, path_str@, search_width as int, search_str@),
            )
            &&& final(term_buffer).cursor_pos == advanced(
                old(term_buffer).scratch_buffer@.len() as int,
                row_index(old(term_buffer).terminal_size, position, 0),
                search_line(path_width as int, path_str@, search_width as int, search_str@).len() as int,
            )
            &&& final(term_buffer).buffer == old(term_buffer).buffer
            &&& final(term_buffer).terminal_size == old(term_buffer).terminal_size
        },
{
    proof {
        reveal_strlit("/");
    }
    let path_chars = chars_of(path_str);
    let is_root = path_chars.len() == 1 && path_chars[0] == '/';
    assert(is_root == (path_str@ == seq!['/'])) by {
        if is_root {
            assert(path_str@ =~= seq!['/']);
        }
    }
    let room: usize = if path_width > 0 {
        path_width - 1
    } else {
        0
    };
    let shown: usize = if is_root {
        0
    } else if room >= path_chars.len() {
        path_chars.len()
    } else {
        room
    };
    let mut line = style_chars(
        &path_chars,
        path_chars.len() - shown,
        path_chars.len(),
        Color::DarkGrey,
        Color::Reset,
        false,
    );
    proof {
        let kept = path_chars@.subrange(path_chars.len() - shown, path_chars.len() as int);
        if is_root {
            assert(kept =~= Seq::<char>::empty());
        } else if room >= path_chars.len() {
            assert(kept =~= path_str@);
        }
    }
    let ghost path_cells = line@;
    if path_width != 0 {
        line.push(StyledChar { character: '/', colour: Colors::new(Color::White, Color::Reset), bold: false });
        assert(line@ =~= path_cells + styled_text(seq!['/'], Color::White, Color::Reset, false));
    } else {
        assert(line@ =~= path_cells + styled_text(Seq::<char>::empty(), Color::White, Color::Reset, false));
    }
    let search_chars = chars_of(search_str);
    let kept: usize = if search_width >= search_chars.len() {
        search_chars.len()
    } else {
        search_width
    };
    let search_cells = style_chars(
        &search_chars,
        search_chars.len() - kept,
        search_chars.len(),
        Color::Red,
        Color::Reset,
        true,
    );
    proof {
        if search_width >= search_chars.len() {
            assert(search_chars@.subrange(search_chars.len() - kept, search_chars.len() as int) =~= search_str@);
        }
    }
    append_cells(&mut line, &search_cells);
    print_at(term_buffer, position, 0, line.as_slice())
}

/// The corners of the box at `pos` of extent `size`, both on the box; none
/// for a box without extent or one that leaves the grid.
pub open spec fn box_corners(pos: Vec2d, size: Vec2d) -> Option<(Vec2d, Vec2d)> {
    if size.col == 0 || size.row == 0 || pos.col + size.col - 1 > u16::MAX || pos.row + size.row - 1 > u16::MAX {
        None
    } else {
        Some((pos, Vec2d { col: (pos.col + size.col - 1) as u16, row: (pos.row + size.row - 1) as u16 }))
    }
}

/// The corners of the box at `pos` of extent `size`.
pub fn corners_of(pos: Vec2d, size: Vec2d) -> (corners: MmmResult<(Vec2d, Vec2d)>)
    ensures
        corners is Err <==> box_corners(pos, size) is None,
        corners matches Err(e) ==> e is Layout,
        corners matches Ok(c) ==> Some(c) == box_corners(pos, size),
{
    if size.col == 0 || size.row == 0 || pos.col > u16::MAX - (size.col - 1) || pos.row > u16::MAX - (size.row - 1) {
        Err(MmmError::Layout)
    } else {
        Ok((pos, Vec2d { col: pos.col + (size.col - 1), row: pos.row + (size.row - 1) }))
    }
}

/// The cell lies on the outline of the box at `pos` of extent `size`.
pub open spec fn on_box(column: int, row: int, pos: Vec2d, size: Vec2d) -> bool {
    box_corners(pos, size) matches Some(corners) && on_outline(column, row, corners.0, corners.1)
}

/// The cell carries a border of the background: it lies on the terminal and
/// on the outline of the frame or on one of the two separators.
pub open spec fn border_at(layout: MmmLayout, column: int, row: int) -> bool {
    &&& 0 <= column < layout.term_size.col
    &&& 0 <= row < layout.term_size.row
    &&& (on_box(column, row, layout.app_pos, layout.app_size) || on_box(
        column,
        row,
        layout.vert_sep_pos,
        layout.vert_sep_size,
    ) || on_box(column, row, layout.horiz_sep_pos, layout.horiz_sep_size))
}

/// The character that draws a border cell of the background.
pub open spec fn border_glyph(layout: MmmLayout, column: int, row: int) -> char {
    thick_border(
        border_at(layout, column, row - 1),
        border_at(layout, column + 1, row),
        border_at(layout, column, row + 1),
        border_at(layout, column - 1, row),
    )
}

/// The frame with the background drawn on it; the frame is `columns` wide.
pub open spec fn background(frame: Seq<StyledChar>, layout: MmmLayout, columns: int) -> Seq<StyledChar> {
    Seq::new(
        frame.len(),
        |i: int|
            if columns > 0 && border_at(layout, i % columns, i / columns) {
                plain(border_glyph(layout, i % columns, i / columns))
            } else {
                frame[i]
            },
    )
}

/// The background cannot be drawn: the frame or a separator has no extent
/// or leaves the grid.
pub open spec fn background_fails(layout: MmmLayout) -> bool {
    ||| box_corners(layout.app_pos, layout.app_size) is None
    ||| box_corners(layout.vert_sep_pos, layout.vert_sep_size) is None
    ||| box_corners(layout.horiz_sep_pos, layout.horiz_sep_size) is None
}

/// Draws the background: the outline of the application frame and the two
/// separators, joined where they meet. On an error nothing is drawn.
pub fn draw_background(term_buffer: &mut TerminalBuffer, layout: &MmmLayout) -> (done: MmmResult<()>)
    ensures
        done is Err <==> background_fails(*layout),
        done matches Err(e) ==> e is Layout && *final(term_buffer) == *old(term_buffer),
        done is Ok ==> {
            &&& final(term_buffer).scratch_buffer@ == background(
                old(term_buffer).scratch_buffer@,
                *layout,
                old(term_buffer).terminal_size.col as int,
            )
            &&& final(term_buffer).cursor_pos == old(term_buffer).cursor_pos
            &&& final(term_buffer).buffer == old(term_buffer).buffer
            &&& final(term_buffer).terminal_size == old(term_buffer).terminal_size
        },
{
    let app = match corners_of(layout.app_pos, layout.app_size) {
        Ok(corners) => corners,
        Err(e) => {
            return Err(e);
        },
    };
    let vert_sep = match corners_of(layout.vert_sep_pos, layout.vert_sep_size) {
        Ok(corners) => corners,
        Err(e) => {
            return Err(e);
        },
    };
    let horiz_sep = match corners_of(layout.horiz_sep_pos, layout.horiz_sep_size) {
        Ok(corners) => corners,
        Err(e) => {
            return Err(e);
        },
    };
    let mut boxes = TerminalBoxes::new(layout.term_size);
    match boxes.add_box(app.0, app.1) {
        Ok(_) => {},
        Err(e) => {
            return Err(e);
        },
    }
    match boxes.add_box(vert_sep.0, vert_sep.1) {
        Ok(_) => {},
        Err(e) => {
            return Err(e);
        },
    }
    match boxes.add_box(horiz_sep.0, horiz_sep.1) {
        Ok(_) => {},
        Err(e) => {
            return Err(e);
        },
    }
    let ghost frame = term_buffer.scratch_buffer@;
    let ghost columns = term_buffer.terminal_size.col as int;
    proof {
        assert forall|c: int, r: int| #[trigger] boxes.bit(c, r) == border_at(*layout, c, r) by {}
        assert forall|c: int, r: int| boxes.bit(c, r) implies #[trigger] boxes.glyph(c, r) == border_glyph(
            *layout,
            c,
            r,
        ) by {
            assert(boxes.bit(c, r) == border_at(*layout, c, r));
            assert(boxes.bit(c, r - 1) == border_at(*layout, c, r - 1));
            assert(boxes.bit(c + 1, r) == border_at(*layout, c + 1, r));
            assert(boxes.bit(c, r + 1) == border_at(*layout, c, r + 1));
            assert(boxes.bit(c - 1, r) == border_at(*layout, c - 1, r));
        }
    }
    let _ = term_buffer.draw_box(&boxes);
    proof {
        assert forall|i: int| 0 <= i < frame.len() implies boxed(frame, boxes, columns)[i] == background(
            frame,
            *layout,
            columns,
        )[i] by {
            if columns > 0 {
                assert(boxes.bit(i % columns, i / columns) == border_at(*layout, i % columns, i / columns));
                if boxes.bit(i % columns, i / columns) {
                    assert(boxes.glyph(i % columns, i / columns) == border_glyph(
                        *layout,
                        i % columns,
                        i / columns,
                    ));
                }
            }
        }
        assert(boxed(frame, boxes, columns) =~= background(frame, *layout, columns));
    }
    Ok(())
}

/// The name of the program, as the frame's top border shows it.
pub open spec fn title() -> Seq<char> {
    " mmm "@
}

/// The cell at which the title starts lies on the terminal.
pub open spec fn title_on_screen(term_size: Vec2d, layout: MmmLayout) -> bool {
    layout.app_pos.col + 2 <= term_size.col && layout.app_pos.row <= term_size.row
}

/// The index of the cell at which the title starts.
pub open spec fn title_index(term_size: Vec2d, layout: MmmLayout) -> int {
    layout.app_pos.row * term_size.col + layout.app_pos.col + 2
}

/// The rows of the current pane for the state and the layout.
pub open spec fn current_plans(filesys: MmmFilesys, layout: MmmLayout) -> Seq<RowPlan> {
    current_rows(filesys.current_pane(), layout.current_size)
}

/// The rows of the parent pane for the state and the layout; none where
/// there is no parent.
pub open spec fn parent_plans(filesys: MmmFilesys, layout: MmmLayout) -> Seq<RowPlan> {
    match filesys.filtered_parent_dir_list {
        Some(pane) => parent_rows(
            pane@,
            filesys.parent_current_entry as int,
            layout.parent_size,
            filesys.show_hidden_files,
        ),
        None => Seq::empty(),
    }
}

/// The search bar for the state and the layout.
pub open spec fn search_cells(filesys: MmmFilesys, layout: MmmLayout) -> Seq<StyledChar> {
    search_line(
        layout.path_disp_width as int,
        path_text(filesys.path()),
        layout.search_width as int,
        filesys.filter_text(),
    )
}

/// Drawing the screen fails: one of its parts cannot be drawn on a terminal
/// of `term_size`.
pub open spec fn draw_fails(term_size: Vec2d, filesys: MmmFilesys, layout: MmmLayout) -> bool {
    ||| background_fails(layout)
    ||| some_row_fails(term_size, layout.current_pos, current_plans(filesys, layout))
    ||| !row_on_screen(term_size, layout.path_disp_pos, 0)
    ||| some_row_fails(term_size, layout.parent_pos, parent_plans(filesys, layout))
    ||| !title_on_screen(term_size, layout)
}

/// The frame with the background and the current pane drawn on it.
pub open spec fn with_current(
    frame: Seq<StyledChar>,
    term_size: Vec2d,
    filesys: MmmFilesys,
    layout: MmmLayout,
) -> Seq<StyledChar> {
    painted(
        background(frame, layout, term_size.col as int),
        term_size,
        layout.current_pos,
        current_plans(filesys, layout),
        current_plans(filesys, layout).len() as int,
    )
}

/// The frame with background, current pane and search bar drawn on it.
pub open spec fn with_search(
    frame: Seq<StyledChar>,
    term_size: Vec2d,
    filesys: MmmFilesys,
    layout: MmmLayout,
) -> Seq<StyledChar> {
    printed(
        with_current(frame, term_size, filesys, layout),
        row_index(term_size, layout.path_disp_pos, 0),
        search_cells(filesys, layout),
    )
}

/// The frame with everything but the title drawn on it.
pub open spec fn with_parent(
    frame: Seq<StyledChar>,
    term_size: Vec2d,
    filesys: MmmFilesys,
    layout: MmmLayout,
) -> Seq<StyledChar> {
    painted(
        with_search(frame, term_size, filesys, layout),
        term_size,
        layout.parent_pos,
        parent_plans(filesys, layout),
        parent_plans(filesys, layout).len() as int,
    )
}

/// The frame with the whole screen drawn on it, in the order in which the
/// parts are drawn: background, current pane, search bar, parent pane,
/// title.
pub open spec fn drawn_frame(
    frame: Seq<StyledChar>,
    term_size: Vec2d,
    filesys: MmmFilesys,
    layout: MmmLayout,
) -> Seq<StyledChar> {
    printed(
        with_parent(frame, term_size, filesys, layout),
        title_index(term_size, layout),
        styled_text(title(), Color::Reset, Color::Reset, false),
    )
}

/// What a failed drawing leaves: the parts before the first part that
/// cannot be drawn are on the frame, of a pane also the rows before the
/// first row that fails, and the error is that of the failing part.
pub open spec fn is_failed_drawing(
    frame: Seq<StyledChar>,
    term_size: Vec2d,
    filesys: MmmFilesys,
    layout: MmmLayout,
    left: Seq<StyledChar>,
    e: MmmError,
) -> bool {
    if background_fails(layout) {
        e is Layout && left == frame
    } else if some_row_fails(term_size, layout.current_pos, current_plans(filesys, layout)) {
        exists|k: int|
            {
                &&& #[trigger] first_failure(term_size, layout.current_pos, current_plans(filesys, layout), k)
                &&& is_row_error(term_size, layout.current_pos, current_plans(filesys, layout), k, e)
                &&& left == painted(
                    background(frame, layout, term_size.col as int),
                    term_size,
                    layout.current_pos,
                    current_plans(filesys, layout),
                    k,
                )
            }
    } else if !row_on_screen(term_size, layout.path_disp_pos, 0) {
        e is TerminalBuffer && left == with_current(frame, term_size, filesys, layout)
    } else if some_row_fails(term_size, layout.parent_pos, parent_plans(filesys, layout)) {
        exists|k: int|
            {
                &&& #[trigger] first_failure(term_size, layout.parent_pos, parent_plans(filesys, layout), k)
                &&& is_row_error(term_size, layout.parent_pos, parent_plans(filesys, layout), k, e)
                &&& left == painted(
                    with_search(frame, term_size, filesys, layout),
                    term_size,
                    layout.parent_pos,
                    parent_plans(filesys, layout),
                    k,
                )
            }
    } else {
        e is TerminalBuffer && left == with_parent(frame, term_size, filesys, layout)
    }
}

impl DrawOps {
    /// Draws the screen into the frame being composed, if anything is asked
    /// to be drawn; a request for the background starts from a fresh buffer
    /// of the layout's terminal size. An error leaves the frame as far as it
    /// was drawn, and the cursor where the drawing stopped.
    pub fn draw(self, term_buffer: &mut TerminalBuffer, filesys: &MmmFilesys, layout: &MmmLayout) -> (done:
        MmmResult<()>)
        ensures
            !(self.background || self.current_dir || self.search_box) ==> done is Ok && *final(term_buffer)
                == *old(term_buffer),
            self.background || self.current_dir || self.search_box ==> {
                let term_size = if self.background {
                    layout.term_size
                } else {
                    old(term_buffer).terminal_size
                };
                let frame = if self.background {
                    filled(cell_count(layout.term_size), plain(' '))
                } else {
                    old(term_buffer).scratch_buffer@
                };
                &&& done is Err <==> draw_fails(term_size, *filesys, *layout)
                &&& final(term_buffer).terminal_size == term_size
                &&& final(term_buffer).buffer@ == if self.background {
                    filled(cell_count(layout.term_size), plain(UNTOUCHED))
                } else {
                    old(term_buffer).buffer@
                }
                &&& done is Ok ==> final(term_buffer).scratch_buffer@ == drawn_frame(
                    frame,
                    term_size,
                    *filesys,
                    *layout,
                )
                &&& done is Ok ==> final(term_buffer).cursor_pos == advanced(
                    frame.len() as int,
                    title_index(term_size, *layout),
                    title().len() as int,
                )
                &&& done matches Err(e) ==> is_failed_drawing(
                    frame,
                    term_size,
                    *filesys,
                    *layout,
                    final(term_buffer).scratch_buffer@,
                    e,
                )
            },
    {
        if !self.is_any() {
            return Ok(());
        }
        if self.background {
            *term_buffer = TerminalBuffer::new(&layout.term_size);
        }
        let ghost term_size = term_buffer.terminal_size;
        let ghost frame = term_buffer.scratch_buffer@;
        match draw_background(term_buffer, layout) {
            Ok(()) => {},
            Err(e) => {
                return Err(e);
            },
        }
        match draw_current_dir(
            term_buffer,
            filesys.filtered_current_dir_list.as_slice(),
            layout.current_pos,
            layout.current_size,
        ) {
            Ok(()) => {},
            Err(e) => {
                return Err(e);
            },
        }
        let path_string = filesys.get_current_path().to_string();
        match draw_search_str(
            term_buffer,
            layout.path_disp_pos,
            layout.path_disp_width,
            path_string.as_str(),
            layout.search_width,
            filesys.get_filter(),
        ) {
            Ok(()) => {},
            Err(e) => {
                return Err(e);
            },
        }
        if let Some(pdl) = &filesys.filtered_parent_dir_list {
            match draw_parent_dir(
                term_buffer,
                pdl.as_slice(),
                filesys.parent_current_entry,
                layout.parent_pos,
                layout.parent_size,
                filesys.show_hidden_files,
            ) {
                Ok(()) => {},
                Err(e) => {
                    return Err(e);
                },
            }
        }
        let title_pos = match layout.app_pos.checked_add(Vec2d { col: 2, row: 0 }) {
            Some(title_pos) => title_pos,
            None => {
                return Err(MmmError::TerminalBuffer);
            },
        };
        let title_cells = add_style_to_string(" mmm ", Color::Reset, Color::Reset, false);
        proof {
            let current = current_plans(*filesys, *layout);
            let parent = parent_plans(*filesys, *layout);
            lemma_painted_len(
                background(frame, *layout, term_size.col as int),
                term_size,
                layout.current_pos,
                current,
                current.len() as int,
            );
            lemma_painted_len(
                with_search(frame, term_size, *filesys, *layout),
                term_size,
                layout.parent_pos,
                parent,
                parent.len() as int,
            );
            assert(term_buffer.scratch_buffer@ == with_parent(frame, term_size, *filesys, *layout));
            assert(term_buffer.scratch_buffer@.len() == frame.len());
            assert(row_index(term_size, title_pos, 0) == title_index(term_size, *layout));
            assert(row_on_screen(term_size, title_pos, 0) == title_on_screen(term_size, *layout));
        }
        print_at(term_buffer, title_pos, 0, title_cells.as_slice())
    }
}

} // verus!
