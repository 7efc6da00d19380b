//! Frames of plain text: the writes that turn one into another, and layers
//! laid over each other.

use vstd::prelude::*;
use crate::terminal::diff::{change_mask, changed_spans, is_diff, run_spans, span_is_run, spans_of, Run};
use crate::text::{chars_of, string_from_chars};
use crate::types::Vec2d;

verus! {

/// The character that marks a cell of a layer as not drawn.
pub const UNTOUCHED: char = '\u{FFFD}';

/// One positioned write: `chunk` goes to the cells starting at `position`.
#[derive(Clone, Debug, PartialEq)]
pub struct WriteChunk {
    pub position: usize,
    pub chunk: String,
}

impl View for WriteChunk {
    type V = Run<char>;

    open spec fn view(&self) -> Run<char> {
        Run { start: self.position as int, cells: self.chunk@ }
    }
}

impl WriteChunk {
    /// A chunk at `position` that holds the single character `first_char`.
    pub fn new(position: usize, first_char: char) -> (c: WriteChunk)
        ensures
            c@ == (Run { start: position as int, cells: seq![first_char] }),
    {
        let mut init_string = String::new();
        init_string.push(first_char);
        WriteChunk { position, chunk: init_string }
    }
}

/// The writes of the chunks, as contracts see them.
pub open spec fn chunk_runs(chunks: Seq<WriteChunk>) -> Seq<Run<char>> {
    Seq::new(chunks.len(), |k: int| chunks[k]@)
}

/// For each character of `new`, whether it differs from the character of
/// `base` at its place.
fn changed_chars(base: &Vec<char>, new: &Vec<char>) -> (changed: Vec<bool>)
    ensures
        changed@ == change_mask(base@, new@),
{
    let mut changed: Vec<bool> = Vec::new();
    let mut i: usize = 0;
    while i < new.len()
        invariant
            i <= new.len(),
            changed@ == change_mask(base@, new@).take(i as int),
        decreases new.len() - i,
    {
        changed.push(i >= base.len() || base[i] != new[i]);
        i += 1;
        assert(changed@ =~= change_mask(base@, new@).take(i as int));
    }
    assert(changed@ =~= change_mask(base@, new@));
    changed
}

/// Splits the difference between two frames into write chunks.
///
/// `chunk_distance` is the longest run of unchanged cells that is still
/// bridged between two changed cells; 0 merges nothing. A new frame that is
/// shorter than the old one cannot be reached by writes, so the answer is
/// `None` and the caller repaints.
pub fn split_into_writes(base_string: &str, compare_string: &str, chunk_distance: usize) -> (writes: Option<
    Vec<WriteChunk>,
>)
    ensures
        writes is Some <==> base_string@.len() <= compare_string@.len(),
        writes matches Some(chunks) ==> is_diff(
            base_string@,
            compare_string@,
            chunk_distance as int,
            chunk_runs(chunks@),
        ),
{
    let base = chars_of(base_string);
    let new = chars_of(compare_string);
    if new.len() < base.len() {
        return None;
    }
    let changed = changed_chars(&base, &new);
    let bounds = changed_spans(changed.as_slice(), chunk_distance);
    let ghost spans = spans_of(bounds@);
    let mut chunks: Vec<WriteChunk> = Vec::new();
    let mut k: usize = 0;
    while k < bounds.len()
        invariant
            k <= bounds.len(),
            new@ == compare_string@,
            changed@.len() == new@.len(),
            spans == spans_of(bounds@),
            forall|j: int| 0 <= j < spans.len() ==> span_is_run(changed@, chunk_distance as int, #[trigger] spans[j]),
            chunks.len() == k,
            forall|j: int|
                0 <= j < k ==> (#[trigger] chunks@[j])@ == (Run {
                    start: spans[j].start,
                    cells: new@.subrange(spans[j].start, spans[j].end),
                }),
        decreases bounds.len() - k,
    {
        let (start, end) = bounds[k];
        assert(spans[k as int].start == start && spans[k as int].end == end);
        assert(span_is_run(changed@, chunk_distance as int, spans[k as int]));
        let text = string_from_chars(&new, start, end);
        chunks.push(WriteChunk { position: start, chunk: text });
        k += 1;
    }
    proof {
        let runs = chunk_runs(chunks@);
        assert forall|j: int| 0 <= j < runs.len() implies #[trigger] run_spans(runs)[j] == spans[j] by {
            assert(runs[j] == chunks@[j]@);
            assert(span_is_run(changed@, chunk_distance as int, spans[j]));
        }
        assert(run_spans(runs) =~= spans);
        assert forall|j: int| 0 <= j < runs.len() implies (#[trigger] runs[j]).cells == compare_string@.subrange(
            runs[j].start,
            runs[j].end(),
        ) by {
            assert(runs[j] == chunks@[j]@);
            assert(span_is_run(changed@, chunk_distance as int, spans[j]));
        }
    }
    Some(chunks)
}

/// A frame of plain text for a terminal of a given size.
#[derive(Debug, PartialEq)]
pub struct TerminalBuffer {
    pub buffer: String,
    pub terminal_size: Vec2d,
}

/// One write to the screen: the cursor moves to the cell, then the text is
/// written from there on.
#[derive(Clone, Debug, PartialEq)]
pub struct ScreenWrite {
    pub column: u16,
    pub row: u16,
    pub text: String,
}

/// `layer` laid over `frame`: a cell of the layer replaces the cell of the
/// frame below it, unless the layer's cell is untouched. Where the frame has
/// no cell the layer's cell stands as it is.
pub open spec fn layered(frame: Seq<char>, layer: Seq<char>) -> Seq<char> {
    Seq::new(
        if frame.len() >= layer.len() {
            frame.len()
        } else {
            layer.len()
        },
        |i: int|
            if i < layer.len() && (i >= frame.len() || layer[i] != UNTOUCHED) {
                layer[i]
            } else {
                frame[i]
            },
    )
}

/// Whether a frame of `len` cells has to be painted in full over a frame of
/// `old_len` cells: the terminal changed its size, the frame got shorter, or
/// the frame has cells for which the grid has no row.
pub open spec fn needs_repaint(old_size: Vec2d, old_len: int, new_size: Vec2d, len: int) -> bool {
    ||| old_size != new_size
    ||| len < old_len
    ||| !on_grid(len, new_size.col as int)
}

/// Every cell of a frame of `len` cells lies in one of the 65536 rows that a
/// grid of `columns` columns has numbers for.
pub open spec fn on_grid(len: int, columns: int) -> bool {
    columns > 0 && len <= columns * 0x10000
}

/// Whether every cell of a frame of `length` cells lies in a row of the
/// grid.
pub fn fits_grid(length: usize, columns: usize) -> (fits: bool)
    ensures
        fits == on_grid(length as int, columns as int),
{
    if columns == 0 {
        return false;
    }
    proof {
        vstd::arithmetic::div_mod::lemma_fundamental_div_mod(length as int, columns as int);
    }
    let rows = length / columns;
    let rest = length % columns;
    assert(rows < 0x10000 || (rows == 0x10000 && rest == 0) <==> length <= columns * 0x10000) by (nonlinear_arith)
        requires
            columns > 0,
            length == columns * rows + rest,
            0 <= rest < columns,
            rows >= 0,
    ;
    rows < 0x10000 || (rows == 0x10000 && rest == 0)
}

/// The column and the row of cell `position` on a grid of `columns`
/// columns.
pub(crate) fn place_of(position: usize, columns: usize) -> (place: (u16, u16))
    requires
        columns > 0,
        position < columns * 0x10000,
        columns <= u16::MAX,
    ensures
        place.0 == position % columns,
        place.1 == position / columns,
{
    assert(position / columns < 0x10000) by (nonlinear_arith)
        requires
            columns > 0,
            position < columns * 0x10000,
            position >= 0,
    ;
    assert(position % columns < columns);
    ((position % columns) as u16, (position / columns) as u16)
}

/// `writes` are the writes of `runs`, each at the column and row of its
/// first cell on a grid of `columns` columns.
pub open spec fn is_placement(writes: Seq<ScreenWrite>, runs: Seq<Run<char>>, columns: int) -> bool {
    &&& writes.len() == runs.len()
    &&& forall|k: int|
        0 <= k < writes.len() ==> {
            &&& (#[trigger] writes[k]).text@ == runs[k].cells
            &&& writes[k].column == runs[k].start % columns
            &&& writes[k].row == runs[k].start / columns
        }
}

impl TerminalBuffer {
    /// The frame that holds `buffer`, for a terminal of `terminal_size`.
    pub fn new(buffer: String, terminal_size: &Vec2d) -> (frame: TerminalBuffer)
        ensures
            frame.buffer == buffer,
            frame.terminal_size == *terminal_size,
    {
        TerminalBuffer { buffer, terminal_size: *terminal_size }
    }

    /// Lays `layer` over the frame. Untouched cells of the layer let the
    /// frame show through.
    pub fn add_layer(&mut self, layer: &str) -> (frame: &mut TerminalBuffer)
        ensures
            *final(self) == *final(frame),
            frame.buffer@ == layered(old(self).buffer@, layer@),
            frame.terminal_size == old(self).terminal_size,
    {
        let old_chars = chars_of(self.buffer.as_str());
        let new_chars = chars_of(layer);
        let length = if old_chars.len() >= new_chars.len() {
            old_chars.len()
        } else {
            new_chars.len()
        };
        let mut new_buf = String::new();
        let mut i: usize = 0;
        while i < length
            invariant
                i <= length,
                length == layered(old_chars@, new_chars@).len(),
                new_buf@ == layered(old_chars@, new_chars@).take(i as int),
            decreases length - i,
        {
            if i < new_chars.len() && (i >= old_chars.len() || new_chars[i] != UNTOUCHED) {
                new_buf.push(new_chars[i]);
            } else {
                new_buf.push(old_chars[i]);
            }
            i += 1;
            assert(new_buf@ =~= layered(old_chars@, new_chars@).take(i as int));
        }
        assert(new_buf@ =~= layered(old_chars@, new_chars@));
        self.buffer = new_buf;
        self
    }

    /// The write that paints the whole frame, from the top left.
    pub fn print_buffer(&self) -> (write: ScreenWrite)
        ensures
            write.column == 0,
            write.row == 0,
            write.text@ == self.buffer@,
    {
        ScreenWrite { column: 0, row: 0, text: self.buffer.clone() }
    }

    /// Replaces the frame by `new_buffer` and gives the writes that turn the
    /// screen from the one into the other: the changed runs, each at its
    /// cell, or the whole new frame where that cannot be done.
    pub fn print_buffer_diff(&mut self, new_buffer: TerminalBuffer) -> (writes: Vec<ScreenWrite>)
        ensures
            *final(self) == new_buffer,
            if needs_repaint(
                old(self).terminal_size,
                old(self).buffer@.len() as int,
                new_buffer.terminal_size,
                new_buffer.buffer@.len() as int,
            ) {
                &&& writes@.len() == 1
                &&& writes@[0].column == 0
                &&& writes@[0].row == 0
                &&& writes@[0].text@ == new_buffer.buffer@
            } else {
                exists|runs: Seq<Run<char>>|
                    is_diff(old(self).buffer@, new_buffer.buffer@, 0, runs) && is_placement(
                        writes@,
                        runs,
                        new_buffer.terminal_size.col as int,
                    )
            },
    {
        let mut writes: Vec<ScreenWrite> = Vec::new();
        let columns = new_buffer.terminal_size.col as usize;
        let length = new_buffer.buffer.as_str().unicode_len();
        let mut repaint = new_buffer.terminal_size != self.terminal_size || !fits_grid(length, columns);
        if !repaint {
            match split_into_writes(self.buffer.as_str(), new_buffer.buffer.as_str(), 0) {
                None => {
                    repaint = true;
                },
                Some(write_chunks) => {
                    let ghost chunks = write_chunks@;
                    let ghost runs = chunk_runs(chunks);
                    let mut k: usize = 0;
                    while k < write_chunks.len()
                        invariant
                            k <= write_chunks.len(),
                            write_chunks@ == chunks,
                            columns == new_buffer.terminal_size.col,
                            length == new_buffer.buffer@.len(),
                            on_grid(length as int, columns as int),
                            runs == chunk_runs(chunks),
                            is_diff(self.buffer@, new_buffer.buffer@, 0, runs),
                            is_placement(writes@, runs.take(k as int), columns as int),
                        decreases write_chunks.len() - k,
                    {
                        assert(runs[k as int] == chunks[k as int]@);
                        assert(run_spans(runs)[k as int] == runs[k as int].span());
                        assert(span_is_run(
                            change_mask(self.buffer@, new_buffer.buffer@),
                            0,
                            run_spans(runs)[k as int],
                        ));
                        let (column, row) = place_of(write_chunks[k].position, columns);
                        writes.push(ScreenWrite { column, row, text: write_chunks[k].chunk.clone() });
                        k += 1;
                    }
                    assert(runs.take(k as int) =~= runs);
                },
            }
        }
        if repaint {
            writes = Vec::new();
            writes.push(new_buffer.print_buffer());
        }
        *self = new_buffer;
        writes
    }
}

} // verus!
