//! The minimal diff between two frames.
//!
//! A frame is a flat, row-major sequence of cells. The new frame is compared
//! with the old one cell by cell; a cell that differs, or that the old frame
//! does not have, is changed. Changed cells that follow each other make a
//! run, and runs with no more than a given number of unchanged cells between
//! them are merged into one, which trades a few more cells written for a
//! cursor move saved. The runs, each with the new frame's cells, are what is
//! written to turn the old frame into the new one.

use vstd::prelude::*;

verus! {

/// The cells from `start` up to, not including, `end`.
pub struct Span {
    pub start: int,
    pub end: int,
}

/// A write: `cells` go to the cells from `start` on.
pub struct Run<T> {
    pub start: int,
    pub cells: Seq<T>,
}

impl<T> Run<T> {
    /// The index behind the last cell written.
    pub open spec fn end(self) -> int {
        self.start + self.cells.len()
    }

    /// The cells that the write covers.
    pub open spec fn span(self) -> Span {
        Span { start: self.start, end: self.end() }
    }
}

/// Cell `i` of the new frame differs from the old one. A cell that the old
/// frame does not have counts as changed.
pub open spec fn cell_changed<T>(base: Seq<T>, new: Seq<T>, i: int) -> bool {
    i >= base.len() || base[i] != new[i]
}

/// For each cell of the new frame, whether it is changed.
pub open spec fn change_mask<T>(base: Seq<T>, new: Seq<T>) -> Seq<bool> {
    Seq::new(new.len(), |i: int| cell_changed(base, new, i))
}

/// The `distance + 1` cells from `from` on are all unchanged: a gap too long
/// to be bridged.
pub open spec fn gap_too_long(changed: Seq<bool>, from: int, distance: int) -> bool {
    forall|i: int| from <= i <= from + distance ==> !#[trigger] changed[i]
}

/// Some span holds cell `i`.
pub open spec fn covered(spans: Seq<Span>, i: int) -> bool {
    exists|k: int| 0 <= k < spans.len() && (#[trigger] spans[k]).start <= i < spans[k].end
}

/// The span is a run: it lies on the frame, begins and ends on a changed
/// cell, and bridges no gap longer than `distance`.
pub open spec fn span_is_run(changed: Seq<bool>, distance: int, span: Span) -> bool {
    &&& 0 <= span.start < span.end <= changed.len()
    &&& changed[span.start]
    &&& changed[span.end - 1]
    &&& forall|from: int|
        span.start <= from && from + distance < span.end ==> !#[trigger] gap_too_long(changed, from, distance)
}

/// `spans` groups the changed cells with merge distance `distance`: every
/// span is a run, the spans come in scan order with more than `distance`
/// unchanged cells between neighbours, and every changed cell lies in one.
/// There is exactly one such grouping (`lemma_grouping_is_unique`).
pub open spec fn is_grouping(changed: Seq<bool>, distance: int, spans: Seq<Span>) -> bool {
    &&& forall|k: int| 0 <= k < spans.len() ==> span_is_run(changed, distance, #[trigger] spans[k])
    &&& forall|j: int, k: int|
        0 <= j < k < spans.len() ==> (#[trigger] spans[j]).end + distance < (#[trigger] spans[k]).start
    &&& forall|i: int| 0 <= i < changed.len() && changed[i] ==> #[trigger] covered(spans, i)
}

/// The spans that the writes cover.
pub open spec fn run_spans<T>(runs: Seq<Run<T>>) -> Seq<Span> {
    Seq::new(runs.len(), |k: int| runs[k].span())
}

/// `runs` is the diff from `base` to `new` with merge distance `distance`:
/// the writes cover the grouping of the changed cells, and each carries the
/// new frame's cells for what it covers. There is exactly one such sequence
/// (`lemma_diff_is_unique`).
pub open spec fn is_diff<T>(base: Seq<T>, new: Seq<T>, distance: int, runs: Seq<Run<T>>) -> bool {
    &&& is_grouping(change_mask(base, new), distance, run_spans(runs))
    &&& forall|k: int| 0 <= k < runs.len() ==> (#[trigger] runs[k]).cells == new.subrange(runs[k].start, runs[k].end())
}

/// The frame after one write: `cells` replace the cells from `start` on, and
/// cells past the end of the frame are appended.
pub open spec fn write_at<T>(frame: Seq<T>, start: int, cells: Seq<T>) -> Seq<T> {
    Seq::new(
        if frame.len() >= start + cells.len() {
            frame.len()
        } else {
            (start + cells.len()) as nat
        },
        |i: int|
            if start <= i < start + cells.len() {
                cells[i - start]
            } else {
                frame[i]
            },
    )
}

/// The frame after the writes of `runs`, applied in order.
pub open spec fn apply_writes<T>(frame: Seq<T>, runs: Seq<Run<T>>) -> Seq<T>
    decreases runs.len(),
{
    if runs.len() == 0 {
        frame
    } else {
        write_at(apply_writes(frame, runs.drop_last()), runs.last().start, runs.last().cells)
    }
}

/// The span that holds a changed cell.
proof fn lemma_covering(changed: Seq<bool>, distance: int, spans: Seq<Span>, i: int) -> (k: int)
    requires
        is_grouping(changed, distance, spans),
        0 <= i < changed.len(),
        changed[i],
    ensures
        0 <= k < spans.len(),
        spans[k].start <= i < spans[k].end,
{
    assert(covered(spans, i));
    choose|k: int| 0 <= k < spans.len() && (#[trigger] spans[k]).start <= i < spans[k].end
}

/// The spans of a grouping do not overlap.
proof fn lemma_one_span_per_cell(changed: Seq<bool>, distance: int, spans: Seq<Span>, j: int, k: int, i: int)
    requires
        is_grouping(changed, distance, spans),
        distance >= 0,
        0 <= j < spans.len(),
        0 <= k < spans.len(),
        spans[j].start <= i < spans[j].end,
        spans[k].start <= i < spans[k].end,
    ensures
        j == k,
{
    if j < k {
        assert(spans[j].end + distance < spans[k].start);
    } else if k < j {
        assert(spans[k].end + distance < spans[j].start);
    }
}

/// The spans of a grouping end in scan order.
proof fn lemma_ends_in_order(changed: Seq<bool>, distance: int, spans: Seq<Span>, j: int, k: int)
    requires
        is_grouping(changed, distance, spans),
        distance >= 0,
        0 <= j <= k < spans.len(),
    ensures
        spans[j].end <= spans[k].end,
        j < k ==> spans[j].end + distance < spans[k].start,
        spans[k].start < spans[k].end,
{
    assert(span_is_run(changed, distance, spans[k]));
    if j < k {
        assert(spans[j].end + distance < spans[k].start);
    }
}

/// A changed cell at or behind the end of span `k` lies in a later span,
/// which starts more than `distance` cells behind that end.
proof fn lemma_written_later(changed: Seq<bool>, distance: int, spans: Seq<Span>, k: int, i: int)
    requires
        is_grouping(changed, distance, spans),
        distance >= 0,
        0 <= k < spans.len(),
        spans[k].end <= i < changed.len(),
        changed[i],
    ensures
        spans[k].end + distance < i,
{
    let m = lemma_covering(changed, distance, spans, i);
    if m <= k {
        lemma_ends_in_order(changed, distance, spans, m, k);
    } else {
        lemma_ends_in_order(changed, distance, spans, k, m);
    }
}

/// Where two groupings agree on the start of span `k`, the one does not end
/// it before the other.
proof fn lemma_end_not_before(changed: Seq<bool>, distance: int, first: Seq<Span>, second: Seq<Span>, k: int)
    requires
        is_grouping(changed, distance, first),
        is_grouping(changed, distance, second),
        distance >= 0,
        0 <= k < first.len(),
        k < second.len(),
        first[k].start == second[k].start,
    ensures
        first[k].end >= second[k].end,
{
    let e1 = first[k].end;
    let e2 = second[k].end;
    assert(span_is_run(changed, distance, first[k]));
    assert(span_is_run(changed, distance, second[k]));
    if e1 < e2 {
        if e1 + distance < e2 {
            assert(!gap_too_long(changed, e1, distance));
            let i = choose|i: int| e1 <= i <= e1 + distance && changed[i];
            lemma_written_later(changed, distance, first, k, i);
        } else {
            lemma_written_later(changed, distance, first, k, e2 - 1);
        }
    }
}

/// Where two groupings agree on the end of the span before span `k`, the
/// one does not start span `k` before the other.
proof fn lemma_start_not_before(changed: Seq<bool>, distance: int, first: Seq<Span>, second: Seq<Span>, k: int)
    requires
        is_grouping(changed, distance, first),
        is_grouping(changed, distance, second),
        distance >= 0,
        0 <= k < first.len(),
        k < second.len(),
        k > 0 ==> first[k - 1].end == second[k - 1].end,
    ensures
        first[k].start >= second[k].start,
{
    let s1 = first[k].start;
    assert(span_is_run(changed, distance, first[k]));
    if s1 < second[k].start {
        let m = lemma_covering(changed, distance, second, s1);
        if m < k {
            lemma_ends_in_order(changed, distance, second, m, k - 1);
            lemma_ends_in_order(changed, distance, first, k - 1, k);
        } else {
            lemma_ends_in_order(changed, distance, second, k, m);
        }
    }
}

/// Two groupings agree on their first `k` spans.
proof fn lemma_same_prefix(changed: Seq<bool>, distance: int, first: Seq<Span>, second: Seq<Span>, k: int)
    requires
        is_grouping(changed, distance, first),
        is_grouping(changed, distance, second),
        distance >= 0,
        0 <= k <= first.len(),
        k <= second.len(),
    ensures
        forall|j: int| 0 <= j < k ==> #[trigger] first[j] == second[j],
    decreases k,
{
    if k > 0 {
        lemma_same_prefix(changed, distance, first, second, k - 1);
        if k > 1 {
            assert(first[k - 2] == second[k - 2]);
        }
        lemma_start_not_before(changed, distance, first, second, k - 1);
        lemma_start_not_before(changed, distance, second, first, k - 1);
        lemma_end_not_before(changed, distance, first, second, k - 1);
        lemma_end_not_before(changed, distance, second, first, k - 1);
    }
}

/// A grouping has no more spans than another grouping of the same cells.
proof fn lemma_no_longer(changed: Seq<bool>, distance: int, first: Seq<Span>, second: Seq<Span>)
    requires
        is_grouping(changed, distance, first),
        is_grouping(changed, distance, second),
        distance >= 0,
    ensures
        first.len() <= second.len(),
{
    let k = second.len() as int;
    if first.len() > k {
        lemma_same_prefix(changed, distance, first, second, k);
        assert(span_is_run(changed, distance, first[k]));
        let m = lemma_covering(changed, distance, second, first[k].start);
        lemma_ends_in_order(changed, distance, second, m, k - 1);
        assert(first[k - 1] == second[k - 1]);
        lemma_ends_in_order(changed, distance, first, k - 1, k);
    }
}

/// The grouping is unique: the changed cells and the merge distance decide
/// the spans.
pub proof fn lemma_grouping_is_unique(changed: Seq<bool>, distance: int, first: Seq<Span>, second: Seq<Span>)
    requires
        is_grouping(changed, distance, first),
        is_grouping(changed, distance, second),
        distance >= 0,
    ensures
        first == second,
{
    lemma_no_longer(changed, distance, first, second);
    lemma_no_longer(changed, distance, second, first);
    lemma_same_prefix(changed, distance, first, second, first.len() as int);
    assert(first =~= second);
}

/// A span that holds a changed cell also holds the next changed cell when at
/// most `distance` unchanged cells lie between the two.
proof fn lemma_run_reaches(changed: Seq<bool>, distance: int, spans: Seq<Span>, k: int, i: int, next: int)
    requires
        is_grouping(changed, distance, spans),
        distance >= 0,
        0 <= k < spans.len(),
        spans[k].start <= i < spans[k].end,
        i < next < changed.len(),
        next - i - 1 <= distance,
        changed[next],
    ensures
        next < spans[k].end,
{
    if next >= spans[k].end {
        lemma_written_later(changed, distance, spans, k, next);
    }
}

/// No span holds both sides of a stretch of more than `distance` unchanged
/// cells.
proof fn lemma_run_stops(changed: Seq<bool>, distance: int, spans: Seq<Span>, k: int, from: int, to: int)
    requires
        is_grouping(changed, distance, spans),
        distance >= 0,
        0 <= k < spans.len(),
        0 <= from,
        to - from > distance,
        forall|i: int| from <= i < to ==> !#[trigger] changed[i],
        spans[k].start < from,
    ensures
        spans[k].end <= from,
{
    let span = spans[k];
    assert(span_is_run(changed, distance, span));
    if span.end > from {
        if from + distance < span.end {
            assert(gap_too_long(changed, from, distance));
        } else {
            assert(changed[span.end - 1]);
        }
    }
}

/// A span that holds the first cell of a block of changed cells holds the
/// block to its end.
proof fn lemma_run_spans(changed: Seq<bool>, distance: int, spans: Seq<Span>, k: int, from: int, to: int)
    requires
        is_grouping(changed, distance, spans),
        distance >= 0,
        0 <= k < spans.len(),
        spans[k].start <= from < spans[k].end,
        from < to <= changed.len(),
        forall|i: int| from <= i < to ==> #[trigger] changed[i],
    ensures
        spans[k].end >= to,
    decreases to - from,
{
    if to - 1 > from {
        lemma_run_spans(changed, distance, spans, k, from, to - 1);
        lemma_run_reaches(changed, distance, spans, k, to - 2, to - 1);
    }
}

/// A span that starts a block of changed cells ends where the block ends,
/// when more than `distance` unchanged cells, or the end of the frame,
/// follow the block.
proof fn lemma_run_fills_block(changed: Seq<bool>, distance: int, spans: Seq<Span>, k: int, to: int, rest: int)
    requires
        is_grouping(changed, distance, spans),
        distance >= 0,
        0 <= k < spans.len(),
        spans[k].start < to <= rest <= changed.len(),
        forall|i: int| spans[k].start <= i < to ==> #[trigger] changed[i],
        forall|i: int| to <= i < rest ==> !#[trigger] changed[i],
        rest - to > distance || rest == changed.len(),
    ensures
        spans[k].end == to,
{
    let span = spans[k];
    assert(span_is_run(changed, distance, span));
    lemma_run_spans(changed, distance, spans, k, span.start, to);
    if rest - to > distance {
        lemma_run_stops(changed, distance, spans, k, to, rest);
    } else if span.end > to {
        assert(changed[span.end - 1]);
    }
}

/// When two spans between them hold every changed cell, there is no third.
proof fn lemma_span_is_one_of(changed: Seq<bool>, distance: int, spans: Seq<Span>, j: int, k: int, m: int)
    requires
        is_grouping(changed, distance, spans),
        distance >= 0,
        0 <= j < spans.len(),
        0 <= k < spans.len(),
        0 <= m < spans.len(),
        forall|i: int|
            0 <= i < changed.len() && #[trigger] changed[i] ==> spans[k].start <= i < spans[k].end || spans[m].start
                <= i < spans[m].end,
    ensures
        j == k || j == m,
{
    assert(span_is_run(changed, distance, spans[j]));
    let i = spans[j].start;
    assert(changed[i]);
    if spans[k].start <= i < spans[k].end {
        lemma_one_span_per_cell(changed, distance, spans, j, k, i);
    } else {
        lemma_one_span_per_cell(changed, distance, spans, j, m, i);
    }
}

/// Grouping of one block: when the changed cells are those of one contiguous
/// region, the grouping is that region alone.
pub proof fn lemma_single_block(changed: Seq<bool>, distance: int, spans: Seq<Span>, from: int, to: int)
    requires
        is_grouping(changed, distance, spans),
        distance >= 0,
        0 <= from < to <= changed.len(),
        forall|i: int| 0 <= i < changed.len() ==> (#[trigger] changed[i] <==> from <= i < to),
    ensures
        spans == seq![Span { start: from, end: to }],
{
    let k = lemma_covering(changed, distance, spans, from);
    assert(span_is_run(changed, distance, spans[k]));
    assert(changed[spans[k].start]);
    lemma_run_fills_block(changed, distance, spans, k, to, changed.len() as int);
    lemma_span_is_one_of(changed, distance, spans, 0, k, k);
    if spans.len() > 1 {
        lemma_span_is_one_of(changed, distance, spans, 1, k, k);
    }
    assert(spans =~= seq![Span { start: from, end: to }]);
}

/// Grouping of two blocks: when the changed cells are those of two regions
/// with a gap of unchanged cells between them, the grouping is one span over
/// both regions and the gap if the merge distance is at least the gap, and
/// one span for each region if it is less.
pub proof fn lemma_two_blocks(changed: Seq<bool>, distance: int, spans: Seq<Span>, first: Span, second: Span)
    requires
        is_grouping(changed, distance, spans),
        distance >= 0,
        0 <= first.start < first.end < second.start < second.end <= changed.len(),
        forall|i: int|
            0 <= i < changed.len() ==> (#[trigger] changed[i] <==> first.start <= i < first.end || second.start <= i
                < second.end),
    ensures
        distance >= second.start - first.end ==> spans == seq![Span { start: first.start, end: second.end }],
        distance < second.start - first.end ==> spans == seq![first, second],
{
    let k = lemma_covering(changed, distance, spans, first.start);
    assert(span_is_run(changed, distance, spans[k]));
    assert(changed[spans[k].start]);
    if distance >= second.start - first.end {
        lemma_run_spans(changed, distance, spans, k, first.start, first.end);
        lemma_run_reaches(changed, distance, spans, k, first.end - 1, second.start);
        lemma_run_spans(changed, distance, spans, k, second.start, second.end);
        assert(changed[spans[k].end - 1]);
        lemma_span_is_one_of(changed, distance, spans, 0, k, k);
        if spans.len() > 1 {
            lemma_span_is_one_of(changed, distance, spans, 1, k, k);
        }
        assert(spans =~= seq![Span { start: first.start, end: second.end }]);
    } else {
        lemma_run_fills_block(changed, distance, spans, k, first.end, second.start);
        let m = lemma_covering(changed, distance, spans, second.start);
        assert(span_is_run(changed, distance, spans[m]));
        assert(changed[spans[m].start]);
        assert(spans[m].start == second.start) by {
            if spans[m].start < second.start {
                lemma_one_span_per_cell(changed, distance, spans, m, k, spans[m].start);
            }
        }
        lemma_run_fills_block(changed, distance, spans, m, second.end, changed.len() as int);
        assert(k < m) by {
            if m < k {
                assert(spans[m].end + distance < spans[k].start);
            }
        }
        lemma_span_is_one_of(changed, distance, spans, 0, k, m);
        lemma_span_is_one_of(changed, distance, spans, 1, k, m);
        if spans.len() > 2 {
            lemma_span_is_one_of(changed, distance, spans, 2, k, m);
        }
        assert(spans =~= seq![first, second]);
    }
}

/// The frame after the first `k` writes of a diff: the new frame up to the
/// end of the last write, the old frame behind it.
proof fn lemma_apply_prefix<T>(base: Seq<T>, new: Seq<T>, distance: int, runs: Seq<Run<T>>, k: int)
    requires
        is_diff(base, new, distance, runs),
        distance >= 0,
        base.len() <= new.len(),
        0 <= k <= runs.len(),
    ensures
        ({
            let frame = apply_writes(base, runs.take(k));
            let done = if k > 0 {
                runs[k - 1].end()
            } else {
                0
            };
            &&& done <= new.len()
            &&& frame.len() == if done > base.len() {
                done
            } else {
                base.len() as int
            }
            &&& forall|i: int| 0 <= i < done ==> frame[i] == new[i]
            &&& forall|i: int| done <= i < frame.len() ==> frame[i] == base[i]
        }),
    decreases k,
{
    let changed = change_mask(base, new);
    let spans = run_spans(runs);
    if k == 0 {
        assert(runs.take(0).len() == 0);
    } else {
        let m = k - 1;
        lemma_apply_prefix(base, new, distance, runs, m);
        let before = apply_writes(base, runs.take(m));
        let run = runs[m];
        assert(runs.take(k).drop_last() =~= runs.take(m));
        assert(runs.take(k).last() == run);
        let frame = apply_writes(base, runs.take(k));
        assert(frame == write_at(before, run.start, run.cells));
        assert(spans[m] == run.span());
        assert(span_is_run(changed, distance, spans[m]));
        let done = if m > 0 {
            runs[m - 1].end()
        } else {
            0
        };
        if m > 0 {
            assert(spans[m - 1] == runs[m - 1].span());
            lemma_ends_in_order(changed, distance, spans, m - 1, m);
        }
        // No changed cell lies between the write before and this one.
        assert forall|i: int| done <= i < run.start implies !cell_changed(base, new, i) by {
            if cell_changed(base, new, i) {
                assert(changed[i]);
                let j = lemma_covering(changed, distance, spans, i);
                if j < m {
                    lemma_ends_in_order(changed, distance, spans, j, m - 1);
                } else {
                    lemma_ends_in_order(changed, distance, spans, m, j);
                }
            }
        }
        // So the write starts inside the old frame.
        if run.start > base.len() {
            if done <= base.len() {
                assert(cell_changed(base, new, base.len() as int));
            } else {
                assert(cell_changed(base, new, done));
            }
        }
        assert(before.len() == base.len()) by {
            if done > base.len() {
                assert(cell_changed(base, new, done));
            }
        }
        assert forall|i: int| 0 <= i < run.end() implies frame[i] == new[i] by {
            if i < done {
            } else if i < run.start {
                assert(!cell_changed(base, new, i));
            } else {
                assert(run.cells[i - run.start] == new[i]);
            }
        }
    }
}

/// Round trip: the writes of a diff, applied to the old frame, give the new
/// frame.
pub proof fn lemma_diff_round_trip<T>(base: Seq<T>, new: Seq<T>, distance: int, runs: Seq<Run<T>>)
    requires
        is_diff(base, new, distance, runs),
        distance >= 0,
        base.len() <= new.len(),
    ensures
        apply_writes(base, runs) == new,
{
    let changed = change_mask(base, new);
    let spans = run_spans(runs);
    let k = runs.len() as int;
    lemma_apply_prefix(base, new, distance, runs, k);
    assert(runs.take(k) =~= runs);
    let frame = apply_writes(base, runs);
    let done = if k > 0 {
        runs[k - 1].end()
    } else {
        0
    };
    if k > 0 {
        assert(spans[k - 1] == runs[k - 1].span());
        assert(span_is_run(changed, distance, spans[k - 1]));
    }
    // Behind the last write nothing has changed.
    assert forall|i: int| done <= i < new.len() implies !cell_changed(base, new, i) by {
        if cell_changed(base, new, i) {
            assert(changed[i]);
            let j = lemma_covering(changed, distance, spans, i);
            lemma_ends_in_order(changed, distance, spans, j, k - 1);
        }
    }
    if frame.len() < new.len() {
        assert(cell_changed(base, new, frame.len() as int));
    }
    assert forall|i: int| 0 <= i < new.len() implies frame[i] == new[i] by {
        if i >= done {
            assert(!cell_changed(base, new, i));
        }
    }
    assert(frame =~= new);
}

/// The diff is unique: two sequences of writes that are the diff of the same
/// frames with the same merge distance are the same writes.
pub proof fn lemma_diff_is_unique<T>(
    base: Seq<T>,
    new: Seq<T>,
    distance: int,
    first: Seq<Run<T>>,
    second: Seq<Run<T>>,
)
    requires
        is_diff(base, new, distance, first),
        is_diff(base, new, distance, second),
        distance >= 0,
    ensures
        first == second,
{
    lemma_grouping_is_unique(change_mask(base, new), distance, run_spans(first), run_spans(second));
    assert forall|k: int| 0 <= k < first.len() implies first[k] == second[k] by {
        assert(run_spans(first)[k] == first[k].span());
        assert(run_spans(second)[k] == second[k].span());
    }
    assert(first =~= second);
}

/// Grouping: when the two frames differ in one contiguous region only, the
/// diff is exactly one write, and it spans exactly that region.
pub proof fn lemma_single_region<T>(
    base: Seq<T>,
    new: Seq<T>,
    distance: int,
    runs: Seq<Run<T>>,
    from: int,
    to: int,
)
    requires
        is_diff(base, new, distance, runs),
        distance >= 0,
        0 <= from < to <= new.len(),
        forall|i: int| 0 <= i < new.len() ==> (cell_changed(base, new, i) <==> from <= i < to),
    ensures
        runs == seq![Run { start: from, cells: new.subrange(from, to) }],
{
    let changed = change_mask(base, new);
    assert forall|i: int| 0 <= i < changed.len() implies (#[trigger] changed[i] <==> from <= i < to) by {
        assert(changed[i] == cell_changed(base, new, i));
    }
    lemma_single_block(changed, distance, run_spans(runs), from, to);
    assert(run_spans(runs).len() == runs.len());
    assert(run_spans(runs)[0] == runs[0].span());
    assert(runs[0].cells.len() == to - from);
    assert(runs =~= seq![Run { start: from, cells: new.subrange(from, to) }]);
}

/// Gap merging: when the two frames differ in two regions with a gap of
/// unchanged cells between them, the diff is one write over both regions and
/// the gap if the merge distance is at least the gap, and one write for each
/// region if it is less.
pub proof fn lemma_two_regions<T>(
    base: Seq<T>,
    new: Seq<T>,
    distance: int,
    runs: Seq<Run<T>>,
    first: Span,
    second: Span,
)
    requires
        is_diff(base, new, distance, runs),
        distance >= 0,
        0 <= first.start < first.end < second.start < second.end <= new.len(),
        forall|i: int|
            0 <= i < new.len() ==> (cell_changed(base, new, i) <==> first.start <= i < first.end || second.start
                <= i < second.end),
    ensures
        distance >= second.start - first.end ==> runs == seq![
            Run { start: first.start, cells: new.subrange(first.start, second.end) },
        ],
        distance < second.start - first.end ==> runs == seq![
            Run { start: first.start, cells: new.subrange(first.start, first.end) },
            Run { start: second.start, cells: new.subrange(second.start, second.end) },
        ],
{
    let changed = change_mask(base, new);
    assert forall|i: int| 0 <= i < changed.len() implies (#[trigger] changed[i] <==> first.start <= i < first.end
        || second.start <= i < second.end) by {
        assert(changed[i] == cell_changed(base, new, i));
    }
    lemma_two_blocks(changed, distance, run_spans(runs), first, second);
    assert(run_spans(runs).len() == runs.len());
    assert(run_spans(runs)[0] == runs[0].span());
    if distance >= second.start - first.end {
        assert(runs[0].cells.len() == second.end - first.start);
        assert(runs =~= seq![Run { start: first.start, cells: new.subrange(first.start, second.end) }]);
    } else {
        assert(run_spans(runs)[1] == runs[1].span());
        assert(runs[0].cells.len() == first.end - first.start);
        assert(runs[1].cells.len() == second.end - second.start);
        assert(runs =~= seq![
            Run { start: first.start, cells: new.subrange(first.start, first.end) },
            Run { start: second.start, cells: new.subrange(second.start, second.end) },
        ]);
    }
}

/// The spans between the bounds, as contracts see them.
pub open spec fn spans_of(bounds: Seq<(usize, usize)>) -> Seq<Span> {
    Seq::new(bounds.len(), |k: int| Span { start: bounds[k].0 as int, end: bounds[k].1 as int })
}

/// Groups the changed cells into runs: the bounds of each run, the first
/// cell and the cell behind the last, in scan order. `chunk_distance` is the
/// longest stretch of unchanged cells that is still bridged between two
/// changed cells; 0 merges nothing.
pub fn changed_spans(changed: &[bool], chunk_distance: usize) -> (bounds: Vec<(usize, usize)>)
    ensures
        is_grouping(changed@, chunk_distance as int, spans_of(bounds@)),
{
    let ghost mask = changed@;
    let ghost d = chunk_distance as int;
    let mut bounds: Vec<(usize, usize)> = Vec::new();
    let ghost mut spans: Seq<Span> = Seq::empty();
    let mut open = false;
    let mut start: usize = 0;
    let mut end: usize = 0;
    let mut index: usize = 0;
    assert(spans_of(bounds@) =~= spans);
    while index < changed.len()
        invariant
            index <= changed.len(),
            mask == changed@,
            d == chunk_distance,
            spans == spans_of(bounds@),
            forall|k: int| 0 <= k < spans.len() ==> span_is_run(mask, d, #[trigger] spans[k]),
            forall|j: int, k: int|
                0 <= j < k < spans.len() ==> (#[trigger] spans[j]).end + d < (#[trigger] spans[k]).start,
            open ==> {
                &&& start < end <= index
                &&& mask[start as int]
                &&& mask[end - 1]
                &&& forall|from: int| start <= from && from + d < end ==> !#[trigger] gap_too_long(mask, from, d)
                &&& forall|k: int| 0 <= k < spans.len() ==> (#[trigger] spans[k]).end + d < start
            },
            !open ==> spans.len() == 0,
            forall|i: int| (if open { end as int } else { 0 }) <= i < index ==> !#[trigger] mask[i],
            forall|i: int|
                0 <= i < index && mask[i] ==> #[trigger] covered(spans, i) || (open && start <= i < end),
        decreases changed.len() - index,
    {
        if changed[index] {
            if open && index - end <= chunk_distance {
                proof {
                    assert forall|from: int| start <= from && from + d < index + 1 implies !#[trigger] gap_too_long(
                        mask,
                        from,
                        d,
                    ) by {
                        if from + d < end {
                        } else if from < end {
                            assert(mask[end - 1]);
                        } else {
                            assert(mask[index as int]);
                        }
                    }
                }
                end = index + 1;
            } else {
                if open {
                    bounds.push((start, end));
                    proof {
                        let closed = Span { start: start as int, end: end as int };
                        let longer = spans.push(closed);
                        assert(spans_of(bounds@) =~= longer);
                        assert forall|i: int| 0 <= i < index && mask[i] implies #[trigger] covered(longer, i) by {
                            if covered(spans, i) {
                                let k = choose|k: int|
                                    0 <= k < spans.len() && (#[trigger] spans[k]).start <= i < spans[k].end;
                                assert(longer[k] == spans[k]);
                            } else {
                                assert(longer[spans.len() as int] == closed);
                            }
                        }
                        spans = longer;
                    }
                }
                open = true;
                start = index;
                end = index + 1;
                proof {
                    assert forall|from: int| start <= from && from + d < end implies !#[trigger] gap_too_long(
                        mask,
                        from,
                        d,
                    ) by {
                        assert(mask[index as int]);
                    }
                }
            }
        }
        index += 1;
    }
    if open {
        bounds.push((start, end));
        proof {
            let closed = Span { start: start as int, end: end as int };
            let longer = spans.push(closed);
            assert(spans_of(bounds@) =~= longer);
            assert forall|i: int| 0 <= i < mask.len() && mask[i] implies #[trigger] covered(longer, i) by {
                if covered(spans, i) {
                    let k = choose|k: int| 0 <= k < spans.len() && (#[trigger] spans[k]).start <= i < spans[k].end;
                    assert(longer[k] == spans[k]);
                } else {
                    assert(longer[spans.len() as int] == closed);
                }
            }
        }
    }
    bounds
}

} // verus!
