//! The styled frame buffer: a grid of styled characters with a cursor, one
//! frame being composed while the last one shown is kept.

use vstd::prelude::*;
use vstd::std_specs::convert::FromSpecImpl;
use crate::terminal::boxes::TerminalBoxes;
use crate::terminal::composer::{fits_grid, needs_repaint, on_grid, place_of, UNTOUCHED};
use crate::terminal::diff::{change_mask, changed_spans, is_diff, run_spans, span_is_run, spans_of, Run};
use crate::text::chars_of;
use crate::types::{MmmError, MmmResult, Vec2d};

verus! {

/// A terminal colour.
#[derive(Clone, Copy, Debug, PartialEq, Eq, Structural)]
pub enum Color {
    Reset,
    Black,
    DarkGrey,
    Red,
    DarkRed,
    Green,
    DarkGreen,
    Yellow,
    DarkYellow,
    Blue,
    DarkBlue,
    Magenta,
    DarkMagenta,
    Cyan,
    DarkCyan,
    White,
    Grey,
    Rgb { r: u8, g: u8, b: u8 },
    AnsiValue(u8),
}

/// A foreground and a background colour; `None` leaves the colour as it is.
#[derive(Clone, Copy, Debug, PartialEq, Eq, Structural)]
pub struct Colors {
    pub foreground: Option<Color>,
    pub background: Option<Color>,
}

impl Colors {
    /// The pair of the two colours.
    pub fn new(foreground: Color, background: Color) -> (colours: Colors)
        ensures
            colours == (Colors { foreground: Some(foreground), background: Some(background) }),
    {
        Colors { foreground: Some(foreground), background: Some(background) }
    }
}

/// One cell of the grid: a character, its colours, and whether it is bold.
#[derive(Clone, Copy, Debug, PartialEq, Eq, Structural)]
pub struct StyledChar {
    pub character: char,
    pub colour: Colors,
    pub bold: bool,
}

/// `character` in the given colours.
pub open spec fn styled(character: char, foreground: Color, background: Color, bold: bool) -> StyledChar {
    StyledChar { character, colour: Colors { foreground: Some(foreground), background: Some(background) }, bold }
}

/// `character` in the terminal's own colours.
pub open spec fn plain(character: char) -> StyledChar {
    styled(character, Color::Reset, Color::Reset, false)
}

impl From<char> for StyledChar {
    fn from(value: char) -> (cell: StyledChar) {
        StyledChar { character: value, colour: Colors::new(Color::Reset, Color::Reset), bold: false }
    }
}

impl FromSpecImpl<char> for StyledChar {
    open spec fn obeys_from_spec() -> bool {
        true
    }

    open spec fn from_spec(value: char) -> StyledChar {
        plain(value)
    }
}

/// The characters of `text`, each in the given style.
pub open spec fn styled_text(text: Seq<char>, foreground: Color, background: Color, bold: bool) -> Seq<StyledChar> {
    Seq::new(text.len(), |i: int| styled(text[i], foreground, background, bold))
}

/// The characters of `value`, each in the given style.
pub fn add_style_to_string(value: &str, fg_colour: Color, bg_colour: Color, bold: bool) -> (cells: Vec<StyledChar>)
    ensures
        cells@ == styled_text(value@, fg_colour, bg_colour, bold),
{
    let characters = chars_of(value);
    let mut cells: Vec<StyledChar> = Vec::new();
    let mut i: usize = 0;
    while i < characters.len()
        invariant
            i <= characters.len(),
            characters@ == value@,
            cells@ =~= styled_text(value@.take(i as int), fg_colour, bg_colour, bold),
        decreases characters.len() - i,
    {
        let ghost before = cells@;
        let cell = StyledChar { character: characters[i], colour: Colors::new(fg_colour, bg_colour), bold };
        assert(cell == styled(value@[i as int], fg_colour, bg_colour, bold));
        cells.push(cell);
        assert forall|k: int| 0 <= k < i + 1 implies cells@[k] == styled_text(
            value@.take(i + 1),
            fg_colour,
            bg_colour,
            bold,
        )[k] by {
            if k < i {
                assert(cells@[k] == before[k]);
                assert(before[k] == styled_text(value@.take(i as int), fg_colour, bg_colour, bold)[k]);
            }
        }
        i += 1;
    }
    assert(value@.take(i as int) =~= value@);
    cells
}

/// The characters of `value`, each in the given colours and not bold.
pub fn to_styled_string(value: &str, fg_colour: Color, bg_colour: Color) -> (cells: Vec<StyledChar>)
    ensures
        cells@ == styled_text(value@, fg_colour, bg_colour, false),
{
    add_style_to_string(value, fg_colour, bg_colour, false)
}

/// The characters `characters[start..end]`, each in the given style.
pub(crate) fn style_chars(
    characters: &Vec<char>,
    start: usize,
    end: usize,
    fg_colour: Color,
    bg_colour: Color,
    bold: bool,
) -> (cells: Vec<StyledChar>)
    requires
        start <= end <= characters.len(),
    ensures
        cells@ == styled_text(characters@.subrange(start as int, end as int), fg_colour, bg_colour, bold),
{
    let mut cells: Vec<StyledChar> = Vec::new();
    let mut i: usize = start;
    assert(cells@ =~= styled_text(characters@.subrange(start as int, i as int), fg_colour, bg_colour, bold));
    while i < end
        invariant
            start <= i <= end <= characters.len(),
            cells@ == styled_text(characters@.subrange(start as int, i as int), fg_colour, bg_colour, bold),
        decreases end - i,
    {
        let ghost before = cells@;
        let ghost shorter = characters@.subrange(start as int, i as int);
        let cell = StyledChar { character: characters[i], colour: Colors::new(fg_colour, bg_colour), bold };
        cells.push(cell);
        i += 1;
        proof {
            let longer = characters@.subrange(start as int, i as int);
            assert(before.len() == shorter.len());
            assert forall|k: int| 0 <= k < longer.len() implies cells@[k] == styled(
                longer[k],
                fg_colour,
                bg_colour,
                bold,
            ) by {
                if k < shorter.len() {
                    assert(cells@[k] == before[k]);
                    assert(before[k] == styled_text(shorter, fg_colour, bg_colour, bold)[k]);
                    assert(shorter[k] == longer[k]);
                } else {
                    assert(k == shorter.len());
                    assert(cells@[k] == cell);
                    assert(longer[k] == characters@[i - 1]);
                    assert(cell == styled(characters@[i - 1], fg_colour, bg_colour, bold));
                }
            }
            assert(cells@ =~= styled_text(longer, fg_colour, bg_colour, bold));
        }
    }
    cells
}

/// The frame with the borders of `boxes` drawn on it: each cell that carries
/// a border holds the character that joins it to its neighbours, in the
/// terminal's own colours; every other cell is as it was. The frame is
/// `columns` wide.
pub open spec fn boxed(frame: Seq<StyledChar>, boxes: TerminalBoxes, columns: int) -> Seq<StyledChar> {
    Seq::new(
        frame.len(),
        |i: int|
            if columns > 0 && boxes.bit(i % columns, i / columns) {
                plain(boxes.glyph(i % columns, i / columns))
            } else {
                frame[i]
            },
    )
}

/// The frame shown last and the frame being composed, both row by row, and
/// the cursor at which the next cell is written.
#[derive(Debug)]
pub struct TerminalBuffer {
    pub buffer: Vec<StyledChar>,
    pub scratch_buffer: Vec<StyledChar>,
    pub terminal_size: Vec2d,
    pub cursor_pos: usize,
}

/// The number of cells of a terminal of the given size.
pub open spec fn cell_count(size: Vec2d) -> int {
    size.col * size.row
}

/// A frame of `count` cells that all hold `cell`.
pub open spec fn filled(count: int, cell: StyledChar) -> Seq<StyledChar> {
    Seq::new(count as nat, |i: int| cell)
}

/// The frame after `cells` are written from `cursor` on: they replace the
/// cells there, and what would go past the end of the frame is dropped.
pub open spec fn printed(frame: Seq<StyledChar>, cursor: int, cells: Seq<StyledChar>) -> Seq<StyledChar> {
    Seq::new(
        frame.len(),
        |i: int|
            if cursor <= i < cursor + cells.len() {
                cells[i - cursor]
            } else {
                frame[i]
            },
    )
}

/// Where the cursor stands after `count` cells are written from `cursor` on
/// into a frame of `len` cells.
pub open spec fn advanced(len: int, cursor: int, count: int) -> int {
    if cursor >= len {
        cursor
    } else if cursor + count <= len {
        cursor + count
    } else {
        len
    }
}

/// The index of the cell at `pos` in a frame that is `columns` wide.
pub open spec fn cell_index(pos: Vec2d, columns: int) -> int {
    pos.row * columns + pos.col
}

fn cells_in(size: Vec2d) -> (count: usize)
    ensures
        count == cell_count(size),
{
    assert(size.col * size.row <= 0xffff * 0xffff) by (nonlinear_arith)
        requires
            size.col <= 0xffff,
            size.row <= 0xffff,
    ;
    (size.col as usize) * (size.row as usize)
}

impl TerminalBuffer {
    /// Both frames have a cell for each cell of the terminal.
    pub open spec fn well_formed(&self) -> bool {
        &&& self.buffer@.len() == cell_count(self.terminal_size)
        &&& self.scratch_buffer@.len() == cell_count(self.terminal_size)
    }

    /// The buffer for a terminal of `terminal_size`: nothing shown yet, a
    /// blank frame to compose on, the cursor at the top left.
    pub fn new(terminal_size: &Vec2d) -> (buffer: TerminalBuffer)
        ensures
            buffer.well_formed(),
            buffer.terminal_size == *terminal_size,
            buffer.cursor_pos == 0,
            buffer.buffer@ == filled(cell_count(*terminal_size), plain(UNTOUCHED)),
            buffer.scratch_buffer@ == filled(cell_count(*terminal_size), plain(' ')),
    {
        let count = cells_in(*terminal_size);
        let untouched = StyledChar { character: UNTOUCHED, colour: Colors::new(Color::Reset, Color::Reset), bold: false };
        let blank = StyledChar { character: ' ', colour: Colors::new(Color::Reset, Color::Reset), bold: false };
        let buffer = fill(count, untouched);
        let scratch_buffer = fill(count, blank);
        TerminalBuffer { buffer, scratch_buffer, terminal_size: *terminal_size, cursor_pos: 0 }
    }

    /// Puts the cursor on the cell at `pos`. A position beyond the width or
    /// the height of the terminal is an error, and the cursor stays.
    pub fn move_cursor(&mut self, pos: Vec2d) -> (moved: MmmResult<&mut TerminalBuffer>)
        ensures
            moved is Err <==> pos.col > old(self).terminal_size.col || pos.row > old(self).terminal_size.row,
            moved matches Err(e) ==> e is TerminalBuffer && *final(self) == *old(self),
            moved matches Ok(buffer) ==> {
                &&& *final(self) == *final(buffer)
                &&& buffer.cursor_pos == cell_index(pos, old(self).terminal_size.col as int)
                &&& buffer.buffer == old(self).buffer
                &&& buffer.scratch_buffer == old(self).scratch_buffer
                &&& buffer.terminal_size == old(self).terminal_size
            },
    {
        if pos.col > self.terminal_size.col || pos.row > self.terminal_size.row {
            return Err(MmmError::TerminalBuffer);
        }
        assert(pos.row * self.terminal_size.col + pos.col <= 0xffff * 0xffff + 0xffff) by (nonlinear_arith)
            requires
                pos.row <= 0xffff,
                self.terminal_size.col <= 0xffff,
                pos.col <= 0xffff,
        ;
        self.cursor_pos = (pos.row as usize * self.terminal_size.col as usize) + pos.col as usize;
        Ok(self)
    }

    /// Writes `cells` into the frame being composed, from the cursor on, and
    /// leaves the cursor behind the last cell written. At the end of the
    /// frame the writing stops.
    pub fn styled_print(&mut self, cells: &[StyledChar]) -> (printed_to: MmmResult<&mut TerminalBuffer>)
        ensures
            printed_to matches Ok(buffer) && {
                &&& *final(self) == *final(buffer)
                &&& buffer.scratch_buffer@ == printed(
                    old(self).scratch_buffer@,
                    old(self).cursor_pos as int,
                    cells@,
                )
                &&& buffer.cursor_pos == advanced(
                    old(self).scratch_buffer@.len() as int,
                    old(self).cursor_pos as int,
                    cells@.len() as int,
                )
                &&& buffer.buffer == old(self).buffer
                &&& buffer.terminal_size == old(self).terminal_size
            },
    {
        let ghost frame = self.scratch_buffer@;
        let ghost cursor = self.cursor_pos as int;
        let mut i: usize = 0;
        while i < cells.len() && self.cursor_pos < self.scratch_buffer.len()
            invariant
                i <= cells.len(),
                self.scratch_buffer@.len() == frame.len(),
                self.buffer == old(self).buffer,
                self.terminal_size == old(self).terminal_size,
                self.cursor_pos == cursor + i,
                i > 0 ==> self.cursor_pos <= frame.len(),
                self.scratch_buffer@ == printed(frame, cursor, cells@.take(i as int)),
            decreases cells.len() - i,
        {
            self.scratch_buffer[self.cursor_pos] = cells[i];
            self.cursor_pos += 1;
            i += 1;
            assert(self.scratch_buffer@ =~= printed(frame, cursor, cells@.take(i as int)));
        }
        assert(self.scratch_buffer@ =~= printed(frame, cursor, cells@));
        Ok(self)
    }

    /// Draws the borders of `boxes` into the frame being composed. The
    /// cursor stays.
    pub fn draw_box(&mut self, boxes: &TerminalBoxes) -> (drawn: MmmResult<&mut TerminalBuffer>)
        ensures
            drawn matches Ok(buffer) && {
                &&& *final(self) == *final(buffer)
                &&& buffer.scratch_buffer@ == boxed(
                    old(self).scratch_buffer@,
                    *boxes,
                    old(self).terminal_size.col as int,
                )
                &&& buffer.cursor_pos == old(self).cursor_pos
                &&& buffer.buffer == old(self).buffer
                &&& buffer.terminal_size == old(self).terminal_size
            },
    {
        let ghost frame = self.scratch_buffer@;
        let columns = self.terminal_size.col as usize;
        if columns > 0 {
            let mut index: usize = 0;
            while index < self.scratch_buffer.len()
                invariant
                    columns == self.terminal_size.col,
                    columns > 0,
                    index <= self.scratch_buffer@.len(),
                    self.scratch_buffer@.len() == frame.len(),
                    self.buffer == old(self).buffer,
                    self.terminal_size == old(self).terminal_size,
                    self.cursor_pos == old(self).cursor_pos,
                    forall|i: int|
                        0 <= i < index ==> self.scratch_buffer@[i] == #[trigger] boxed(frame, *boxes, columns as int)[i],
                    forall|i: int| index <= i < frame.len() ==> self.scratch_buffer@[i] == #[trigger] frame[i],
                decreases self.scratch_buffer@.len() - index,
            {
                let column = index % columns;
                let row = index / columns;
                if row <= u16::MAX as usize {
                    let column = column as u16;
                    let row = row as u16;
                    if boxes.check_bit(column, row) {
                        let glyph = crate::style::thick_border_from_directions(
                            boxes.has_north(column, row),
                            boxes.has_east(column, row),
                            boxes.has_south(column, row),
                            boxes.has_west(column, row),
                        );
                        self.scratch_buffer[index] = StyledChar {
                            character: glyph,
                            colour: Colors::new(Color::Reset, Color::Reset),
                            bold: false,
                        };
                    }
                } else {
                    assert(!boxes.bit(column as int, row as int)) by {
                        boxes.lemma_bit_on_terminal(column as int, row as int);
                    }
                }
                index += 1;
            }
        }
        assert(self.scratch_buffer@ =~= boxed(frame, *boxes, columns as int));
        Ok(self)
    }

    /// The writes that turn the frame shown into the frame being composed,
    /// or `None` if the composed frame is the shorter one.
    pub fn pending_writes(&self, chunk_distance: usize) -> (writes: Option<Vec<StyledChunk>>)
        ensures
            writes is Some <==> self.buffer@.len() <= self.scratch_buffer@.len(),
            writes matches Some(chunks) ==> is_diff(
                self.buffer@,
                self.scratch_buffer@,
                chunk_distance as int,
                styled_runs(chunks@),
            ),
            self.well_formed() ==> writes is Some,
    {
        split_into_styled_writes(self.buffer.as_slice(), self.scratch_buffer.as_slice(), chunk_distance)
    }

    /// The writes that bring the screen from the frame shown to the frame
    /// being composed: the changed runs, each at its cell, or the whole
    /// composed frame from the top left where that cannot be done.
    pub fn screen_writes(&self, chunk_distance: usize) -> (writes: Vec<StyledWrite>)
        ensures
            if needs_repaint(
                self.terminal_size,
                self.buffer@.len() as int,
                self.terminal_size,
                self.scratch_buffer@.len() as int,
            ) {
                &&& writes@.len() == 1
                &&& writes@[0].column == 0
                &&& writes@[0].row == 0
                &&& writes@[0].cells@ == self.scratch_buffer@
            } else {
                exists|runs: Seq<Run<StyledChar>>|
                    is_diff(self.buffer@, self.scratch_buffer@, chunk_distance as int, runs)
                        && is_styled_placement(writes@, runs, self.terminal_size.col as int)
            },
    {
        let mut writes: Vec<StyledWrite> = Vec::new();
        let columns = self.terminal_size.col as usize;
        let length = self.scratch_buffer.len();
        let mut repaint = !fits_grid(length, columns);
        if !repaint {
            match self.pending_writes(chunk_distance) {
                None => {
                    repaint = true;
                },
                Some(chunks) => {
                    let ghost runs = styled_runs(chunks@);
                    let mut k: usize = 0;
                    while k < chunks.len()
                        invariant
                            k <= chunks.len(),
                            columns == self.terminal_size.col,
                            length == self.scratch_buffer@.len(),
                            on_grid(length as int, columns as int),
                            runs == styled_runs(chunks@),
                            is_diff(self.buffer@, self.scratch_buffer@, chunk_distance as int, runs),
                            is_styled_placement(writes@, runs.take(k as int), columns as int),
                        decreases chunks.len() - k,
                    {
                        assert(runs[k as int] == chunks@[k as int]@);
                        assert(run_spans(runs)[k as int] == runs[k as int].span());
                        assert(span_is_run(
                            change_mask(self.buffer@, self.scratch_buffer@),
                            chunk_distance as int,
                            run_spans(runs)[k as int],
                        ));
                        let (column, row) = place_of(chunks[k].position, columns);
                        let cells = copy_cells(chunks[k].cells.as_slice(), 0, chunks[k].cells.len());
                        assert(cells@ =~= chunks@[k as int].cells@);
                        writes.push(StyledWrite { column, row, cells });
                        k += 1;
                    }
                    assert(runs.take(k as int) =~= runs);
                },
            }
        }
        if repaint {
            writes = Vec::new();
            let cells = copy_cells(self.scratch_buffer.as_slice(), 0, length);
            assert(cells@ =~= self.scratch_buffer@);
            writes.push(StyledWrite { column: 0, row: 0, cells });
        }
        writes
    }

    /// Makes the composed frame the frame shown and starts a blank frame.
    /// The cursor stays.
    pub fn flush(&mut self)
        ensures
            final(self).buffer == old(self).scratch_buffer,
            final(self).scratch_buffer@ == filled(cell_count(old(self).terminal_size), plain(' ')),
            final(self).terminal_size == old(self).terminal_size,
            final(self).cursor_pos == old(self).cursor_pos,
            old(self).well_formed() ==> final(self).well_formed(),
    {
        let blank = StyledChar { character: ' ', colour: Colors::new(Color::Reset, Color::Reset), bold: false };
        let mut next = fill(cells_in(self.terminal_size), blank);
        std::mem::swap(&mut self.scratch_buffer, &mut next);
        self.buffer = next;
    }
}

/// One positioned write of styled cells: `cells` go to the cells of the
/// frame starting at `position`.
#[derive(Clone, Debug, PartialEq)]
pub struct StyledChunk {
    pub position: usize,
    pub cells: Vec<StyledChar>,
}

impl View for StyledChunk {
    type V = Run<StyledChar>;

    open spec fn view(&self) -> Run<StyledChar> {
        Run { start: self.position as int, cells: self.cells@ }
    }
}

/// The writes of the chunks, as contracts see them.
pub open spec fn styled_runs(chunks: Seq<StyledChunk>) -> Seq<Run<StyledChar>> {
    Seq::new(chunks.len(), |k: int| chunks[k]@)
}

/// For each cell of `new`, whether it differs from the cell of `base` at its
/// place.
fn changed_cells(base: &[StyledChar], new: &[StyledChar]) -> (changed: Vec<bool>)
    ensures
        changed@ == change_mask(base@, new@),
{
    let mut changed: Vec<bool> = Vec::new();
    let mut i: usize = 0;
    while i < new.len()
        invariant
            i <= new.len(),
            changed@ == change_mask(base@, new@).take(i as int),
        decreases new.len() - i,
    {
        changed.push(i >= base.len() || base[i] != new[i]);
        i += 1;
        assert(changed@ =~= change_mask(base@, new@).take(i as int));
    }
    assert(changed@ =~= change_mask(base@, new@));
    changed
}

/// The cells `cells[start..end]`.
fn copy_cells(cells: &[StyledChar], start: usize, end: usize) -> (copy: Vec<StyledChar>)
    requires
        start <= end <= cells.len(),
    ensures
        copy@ == cells@.subrange(start as int, end as int),
{
    let mut copy: Vec<StyledChar> = Vec::new();
    let mut i: usize = start;
    while i < end
        invariant
            start <= i <= end <= cells.len(),
            copy@ == cells@.subrange(start as int, i as int),
        decreases end - i,
    {
        copy.push(cells[i]);
        i += 1;
        assert(copy@ =~= cells@.subrange(start as int, i as int));
    }
    copy
}

/// Splits the difference between two styled frames into write chunks; a
/// cell is changed if its character or its style is.
///
/// `chunk_distance` is the longest run of unchanged cells that is still
/// bridged between two changed cells; 0 merges nothing. A new frame that is
/// shorter than the old one cannot be reached by writes, so the answer is
/// `None` and the caller repaints.
pub fn split_into_styled_writes(base: &[StyledChar], new: &[StyledChar], chunk_distance: usize) -> (writes: Option<
    Vec<StyledChunk>,
>)
    ensures
        writes is Some <==> base@.len() <= new@.len(),
        writes matches Some(chunks) ==> is_diff(base@, new@, chunk_distance as int, styled_runs(chunks@)),
{
    if new.len() < base.len() {
        return None;
    }
    let changed = changed_cells(base, new);
    let bounds = changed_spans(changed.as_slice(), chunk_distance);
    let ghost spans = spans_of(bounds@);
    let mut chunks: Vec<StyledChunk> = Vec::new();
    let mut k: usize = 0;
    while k < bounds.len()
        invariant
            k <= bounds.len(),
            changed@.len() == new@.len(),
            spans == spans_of(bounds@),
            forall|j: int| 0 <= j < spans.len() ==> span_is_run(changed@, chunk_distance as int, #[trigger] spans[j]),
            chunks.len() == k,
            forall|j: int|
                0 <= j < k ==> (#[trigger] chunks@[j])@ == (Run {
                    start: spans[j].start,
                    cells: new@.subrange(spans[j].start, spans[j].end),
                }),
        decreases bounds.len() - k,
    {
        let (start, end) = bounds[k];
        assert(spans[k as int].start == start && spans[k as int].end == end);
        assert(span_is_run(changed@, chunk_distance as int, spans[k as int]));
        let cells = copy_cells(new, start, end);
        chunks.push(StyledChunk { position: start, cells });
        k += 1;
    }
    proof {
        let runs = styled_runs(chunks@);
        assert forall|j: int| 0 <= j < runs.len() implies #[trigger] run_spans(runs)[j] == spans[j] by {
            assert(runs[j] == chunks@[j]@);
            assert(span_is_run(changed@, chunk_distance as int, spans[j]));
        }
        assert(run_spans(runs) =~= spans);
        assert forall|j: int| 0 <= j < runs.len() implies (#[trigger] runs[j]).cells == new@.subrange(
            runs[j].start,
            runs[j].end(),
        ) by {
            assert(runs[j] == chunks@[j]@);
            assert(span_is_run(changed@, chunk_distance as int, spans[j]));
        }
    }
    Some(chunks)
}

/// One write to the screen: the cursor moves to the cell, then the styled
/// cells are written from there on.
#[derive(Clone, Debug, PartialEq)]
pub struct StyledWrite {
    pub column: u16,
    pub row: u16,
    pub cells: Vec<StyledChar>,
}

/// `writes` are the writes of `runs`, each at the column and row of its
/// first cell on a grid of `columns` columns.
pub open spec fn is_styled_placement(writes: Seq<StyledWrite>, runs: Seq<Run<StyledChar>>, columns: int) -> bool {
    &&& writes.len() == runs.len()
    &&& forall|k: int|
        0 <= k < writes.len() ==> {
            &&& (#[trigger] writes[k]).cells@ == runs[k].cells
            &&& writes[k].column == runs[k].start % columns
            &&& writes[k].row == runs[k].start / columns
        }
}

/// A frame of `count` cells that all hold `cell`.
fn fill(count: usize, cell: StyledChar) -> (frame: Vec<StyledChar>)
    ensures
        frame@ == filled(count as int, cell),
{
    let mut frame: Vec<StyledChar> = Vec::new();
    let mut i: usize = 0;
    while i < count
        invariant
            i <= count,
            frame@ == filled(i as int, cell),
        decreases count - i,
    {
        frame.push(cell);
        assert(frame@ =~= filled(i + 1, cell));
        i += 1;
    }
    frame
}

} // verus!
