//! Listings: the entries of one directory, ordered by name, and what of them
//! a pane shows.

use vstd::prelude::*;
use std::rc::Rc;
use crate::filesystem::filter::{
    entry_score, filter_and_score, filter_hidden, filter_hidden_with_exception, match_mask, matches_filter,
    FilterMatchEnum,
};
use crate::filesystem::path::MmmPath;
use crate::filesystem::{scored_views, share, MmmDirEntry, MmmScoredDirEntry, ScoredView};
use crate::text::{chars_le, chars_of, text_le};

verus! {

/// Where an entry called `name` goes into a listing that is ordered by name:
/// behind every entry whose name does not come after it.
pub open spec fn name_position(sorted: Seq<Rc<MmmDirEntry>>, name: Seq<char>) -> int
    decreases sorted.len(),
{
    if sorted.len() == 0 {
        0
    } else if text_le(sorted.last().name(), name) {
        sorted.len() as int
    } else {
        name_position(sorted.drop_last(), name)
    }
}

/// The entries ordered by name, lexicographically by character; entries of
/// one name keep the order in which they came.
pub open spec fn sorted_by_name(entries: Seq<Rc<MmmDirEntry>>) -> Seq<Rc<MmmDirEntry>>
    decreases entries.len(),
{
    if entries.len() == 0 {
        Seq::empty()
    } else {
        let before = sorted_by_name(entries.drop_last());
        before.insert(name_position(before, entries.last().name()), entries.last())
    }
}

/// The entries in the order of their names.
pub fn sort_by_name(entries: &Vec<Rc<MmmDirEntry>>) -> (sorted: Vec<Rc<MmmDirEntry>>)
    ensures
        sorted@ == sorted_by_name(entries@),
{
    let mut sorted: Vec<Rc<MmmDirEntry>> = Vec::new();
    let mut names: Vec<Vec<char>> = Vec::new();
    let mut i: usize = 0;
    while i < entries.len()
        invariant
            i <= entries.len(),
            sorted@ == sorted_by_name(entries@.take(i as int)),
            names.len() == sorted.len(),
            forall|k: int| 0 <= k < names.len() ==> (#[trigger] names@[k])@ == sorted@[k].name(),
        decreases entries.len() - i,
    {
        let entry = share(&entries[i]);
        let name = chars_of(entry.get_name());
        let mut at: usize = sorted.len();
        assert(sorted@.take(at as int) =~= sorted@);
        while at > 0 && !chars_le(&names[at - 1], &name)
            invariant
                at <= sorted.len(),
                names.len() == sorted.len(),
                forall|k: int| 0 <= k < names.len() ==> (#[trigger] names@[k])@ == sorted@[k].name(),
                name_position(sorted@, name@) == name_position(sorted@.take(at as int), name@),
            decreases at,
        {
            assert(sorted@.take(at as int).drop_last() =~= sorted@.take(at - 1));
            at -= 1;
        }
        proof {
            assert(sorted@.take(sorted.len() as int) =~= sorted@);
            if at > 0 {
                assert(sorted@.take(at as int).last() == sorted@[at - 1]);
            }
            assert(entries@.take(i + 1).drop_last() =~= entries@.take(i as int));
            assert(entries@.take(i + 1).last() == entries@[i as int]);
        }
        sorted.insert(at, entry);
        names.insert(at, name);
        i += 1;
    }
    assert(entries@.take(entries.len() as int) =~= entries@);
    sorted
}

proof fn lemma_name_position_bounds(sorted: Seq<Rc<MmmDirEntry>>, name: Seq<char>)
    ensures
        0 <= name_position(sorted, name) <= sorted.len(),
    decreases sorted.len(),
{
    if sorted.len() > 0 && !text_le(sorted.last().name(), name) {
        lemma_name_position_bounds(sorted.drop_last(), name);
    }
}

/// Ordering by name drops no entry and adds none to the count.
pub proof fn lemma_sorted_keeps_entry(entries: Seq<Rc<MmmDirEntry>>, k: int) -> (at: int)
    requires
        0 <= k < entries.len(),
    ensures
        sorted_by_name(entries).len() == entries.len(),
        0 <= at < entries.len(),
        sorted_by_name(entries)[at] == entries[k],
    decreases entries.len(),
{
    let before = sorted_by_name(entries.drop_last());
    let position = name_position(before, entries.last().name());
    lemma_name_position_bounds(before, entries.last().name());
    lemma_sorted_len(entries.drop_last());
    if k == entries.len() - 1 {
        position
    } else {
        let found = lemma_sorted_keeps_entry(entries.drop_last(), k);
        if found < position {
            found
        } else {
            found + 1
        }
    }
}

proof fn lemma_sorted_len(entries: Seq<Rc<MmmDirEntry>>)
    ensures
        sorted_by_name(entries).len() == entries.len(),
    decreases entries.len(),
{
    if entries.len() > 0 {
        let before = sorted_by_name(entries.drop_last());
        lemma_name_position_bounds(before, entries.last().name());
        lemma_sorted_len(entries.drop_last());
    }
}

/// In a listing that is in order of name, every entry before the place for
/// `name` has a name that does not come after it, and `name` comes before
/// the name of every entry from there on.
proof fn lemma_name_position_splits(sorted: Seq<Rc<MmmDirEntry>>, name: Seq<char>)
    requires
        forall|i: int, j: int|
            0 <= i < j < sorted.len() ==> text_le((#[trigger] sorted[i]).name(), (#[trigger] sorted[j]).name()),
    ensures
        forall|i: int| 0 <= i < name_position(sorted, name) ==> text_le((#[trigger] sorted[i]).name(), name),
        forall|i: int|
            name_position(sorted, name) <= i < sorted.len() ==> text_le(name, (#[trigger] sorted[i]).name()),
    decreases sorted.len(),
{
    lemma_name_position_bounds(sorted, name);
    if sorted.len() > 0 {
        let last = sorted.len() - 1;
        if text_le(sorted.last().name(), name) {
            assert forall|i: int| 0 <= i < sorted.len() implies text_le((#[trigger] sorted[i]).name(), name) by {
                if i < last {
                    assert(text_le(sorted[i].name(), sorted[last].name()));
                    crate::text::lemma_text_le_transitive(sorted[i].name(), sorted[last].name(), name);
                }
            }
        } else {
            let shorter = sorted.drop_last();
            assert forall|i: int, j: int| 0 <= i < j < shorter.len() implies text_le(
                (#[trigger] shorter[i]).name(),
                (#[trigger] shorter[j]).name(),
            ) by {
                assert(text_le(sorted[i].name(), sorted[j].name()));
            }
            lemma_name_position_splits(shorter, name);
            crate::text::lemma_text_le_total(sorted.last().name(), name);
            assert forall|i: int| 0 <= i < name_position(sorted, name) implies text_le(
                (#[trigger] sorted[i]).name(),
                name,
            ) by {
                assert(text_le(shorter[i].name(), name));
            }
            assert forall|i: int| name_position(sorted, name) <= i < sorted.len() implies text_le(
                name,
                (#[trigger] sorted[i]).name(),
            ) by {
                if i < shorter.len() {
                    assert(text_le(name, shorter[i].name()));
                }
            }
        }
    }
}

/// A listing ordered by name is in order: no entry's name comes after the
/// name of an entry behind it.
pub proof fn lemma_sorted_in_order(entries: Seq<Rc<MmmDirEntry>>)
    ensures
        forall|i: int, j: int|
            0 <= i < j < sorted_by_name(entries).len() ==> text_le(
                (#[trigger] sorted_by_name(entries)[i]).name(),
                (#[trigger] sorted_by_name(entries)[j]).name(),
            ),
    decreases entries.len(),
{
    if entries.len() > 0 {
        let before = sorted_by_name(entries.drop_last());
        let name = entries.last().name();
        let at = name_position(before, name);
        lemma_sorted_in_order(entries.drop_last());
        lemma_name_position_bounds(before, name);
        lemma_name_position_splits(before, name);
        let after = before.insert(at, entries.last());
        assert(after == sorted_by_name(entries));
        assert forall|i: int, j: int| 0 <= i < j < after.len() implies text_le(
            (#[trigger] after[i]).name(),
            (#[trigger] after[j]).name(),
        ) by {
            if j < at {
                assert(after[i] == before[i] && after[j] == before[j]);
            } else if j == at {
                assert(after[i] == before[i]);
            } else if i < at {
                assert(after[i] == before[i] && after[j] == before[j - 1]);
            } else if i == at {
                assert(after[j] == before[j - 1]);
            } else {
                assert(after[i] == before[i - 1] && after[j] == before[j - 1]);
            }
        }
    }
}

/// The parent pane keeps every entry that it is to show.
pub proof fn lemma_pane_keeps_entry(
    entries: Seq<Rc<MmmDirEntry>>,
    show_hidden: bool,
    current: Seq<Seq<char>>,
    k: int,
) -> (at: int)
    requires
        0 <= k < entries.len(),
        shown_in_parent(*entries[k], show_hidden, current),
    ensures
        0 <= at < parent_pane(entries, show_hidden, current).len(),
        parent_pane(entries, show_hidden, current)[at] == entries[k],
    decreases entries.len(),
{
    let before = parent_pane(entries.drop_last(), show_hidden, current);
    if k == entries.len() - 1 {
        before.len() as int
    } else {
        lemma_pane_keeps_entry(entries.drop_last(), show_hidden, current, k)
    }
}

/// Whether the parent pane shows `entry` while the user is in the directory
/// at `current`: hidden entries are left out unless hidden files are shown,
/// but the current directory's own entry always stays.
pub open spec fn shown_in_parent(entry: MmmDirEntry, show_hidden: bool, current: Seq<Seq<char>>) -> bool {
    current.len() > 0 && (show_hidden || !entry.is_hidden() || entry.name() == current.last())
}

/// What the parent pane shows of the parent directory's entries.
pub open spec fn parent_pane(entries: Seq<Rc<MmmDirEntry>>, show_hidden: bool, current: Seq<Seq<char>>) -> Seq<
    Rc<MmmDirEntry>,
>
    decreases entries.len(),
{
    if entries.len() == 0 {
        Seq::empty()
    } else {
        let before = parent_pane(entries.drop_last(), show_hidden, current);
        if shown_in_parent(*entries.last(), show_hidden, current) {
            before.push(entries.last())
        } else {
            before
        }
    }
}

/// The entries of the parent directory that the parent pane shows.
pub fn build_parent_pane(entries: &Vec<Rc<MmmDirEntry>>, show_hidden: bool, current: &MmmPath) -> (pane: Vec<
    Rc<MmmDirEntry>,
>)
    ensures
        pane@ == parent_pane(entries@, show_hidden, current@),
{
    let mut pane: Vec<Rc<MmmDirEntry>> = Vec::new();
    let mut i: usize = 0;
    while i < entries.len()
        invariant
            i <= entries.len(),
            pane@ == parent_pane(entries@.take(i as int), show_hidden, current@),
        decreases entries.len() - i,
    {
        proof {
            assert(entries@.take(i + 1).drop_last() =~= entries@.take(i as int));
            assert(entries@.take(i + 1).last() == entries@[i as int]);
        }
        if let Some(name) = current.file_name() {
            if let Some(entry) = filter_hidden_with_exception(share(&entries[i]), show_hidden, name) {
                pane.push(entry);
            }
        }
        i += 1;
    }
    assert(entries@.take(entries.len() as int) =~= entries@);
    pane
}

/// Entry `i` is the first of `entries` that lies at `path`.
pub open spec fn first_at_path(entries: Seq<Rc<MmmDirEntry>>, path: Seq<Seq<char>>, i: int) -> bool {
    &&& 0 <= i < entries.len()
    &&& entries[i].path() == path
    &&& forall|j: int| 0 <= j < i ==> (#[trigger] entries[j]).path() != path
}

/// Some entry lies at `path`.
pub open spec fn has_path(entries: Seq<Rc<MmmDirEntry>>, path: Seq<Seq<char>>) -> bool {
    exists|i: int| 0 <= i < entries.len() && (#[trigger] entries[i]).path() == path
}

/// The index of the first entry that lies at `path`.
pub fn find_path(entries: &Vec<Rc<MmmDirEntry>>, path: &MmmPath) -> (found: Option<usize>)
    ensures
        found is Some <==> has_path(entries@, path@),
        found matches Some(i) ==> first_at_path(entries@, path@, i as int),
{
    let mut i: usize = 0;
    while i < entries.len()
        invariant
            i <= entries.len(),
            forall|j: int| 0 <= j < i ==> (#[trigger] entries@[j]).path() != path@,
        decreases entries.len() - i,
    {
        if entries[i].get_path().same_as(path) {
            return Some(i);
        }
        i += 1;
    }
    None
}

/// `entry` as the filter scores it.
pub open spec fn scored(entry: Rc<MmmDirEntry>, filter: Seq<char>) -> ScoredView {
    ScoredView { entry, mask: match_mask(entry.name(), filter), score: entry_score(*entry, filter) }
}

/// Whether the current pane lists `entry` under `filter`.
pub open spec fn listed(entry: MmmDirEntry, show_hidden: bool, filter: Seq<char>) -> bool {
    (show_hidden || !entry.is_hidden()) && matches_filter(entry.name(), filter)
}

/// Where an entry of the given score goes into a ranked list: behind every
/// entry that scores as much or more.
pub open spec fn score_position(ranked: Seq<ScoredView>, score: int) -> int
    decreases ranked.len(),
{
    if ranked.len() == 0 {
        0
    } else if ranked.last().score >= score {
        ranked.len() as int
    } else {
        score_position(ranked.drop_last(), score)
    }
}

/// What the current pane lists of `entries` under `filter`: the entries that
/// are not hidden and that the filter matches, the highest score first;
/// entries of one score keep the order in which they came.
pub open spec fn ranked(entries: Seq<Rc<MmmDirEntry>>, show_hidden: bool, filter: Seq<char>) -> Seq<ScoredView>
    decreases entries.len(),
{
    if entries.len() == 0 {
        Seq::empty()
    } else {
        let before = ranked(entries.drop_last(), show_hidden, filter);
        let entry = entries.last();
        if listed(*entry, show_hidden, filter) {
            before.insert(score_position(before, entry_score(*entry, filter)), scored(entry, filter))
        } else {
            before
        }
    }
}

/// The entry behind the handle.
spec fn pointee(entry: Rc<MmmDirEntry>) -> MmmDirEntry {
    *entry
}

proof fn lemma_score_position_bounds(ranked: Seq<ScoredView>, score: int)
    ensures
        0 <= score_position(ranked, score) <= ranked.len(),
    decreases ranked.len(),
{
    if ranked.len() > 0 && ranked.last().score < score {
        lemma_score_position_bounds(ranked.drop_last(), score);
    }
}

/// In a list that is in order of score, every entry before the place for
/// `score` scores as much or more, and every entry from there on scores
/// less.
proof fn lemma_score_position_splits(ranked: Seq<ScoredView>, score: int)
    requires
        forall|i: int, j: int| 0 <= i < j < ranked.len() ==> (#[trigger] ranked[i]).score >= (#[trigger] ranked[j]).score,
    ensures
        forall|i: int| 0 <= i < score_position(ranked, score) ==> (#[trigger] ranked[i]).score >= score,
        forall|i: int| score_position(ranked, score) <= i < ranked.len() ==> (#[trigger] ranked[i]).score < score,
    decreases ranked.len(),
{
    lemma_score_position_bounds(ranked, score);
    if ranked.len() > 0 {
        if ranked.last().score >= score {
            assert forall|i: int| 0 <= i < ranked.len() implies (#[trigger] ranked[i]).score >= score by {
                if i < ranked.len() - 1 {
                    assert(ranked[i].score >= ranked[ranked.len() - 1].score);
                }
            }
        } else {
            let shorter = ranked.drop_last();
            assert forall|i: int, j: int| 0 <= i < j < shorter.len() implies (#[trigger] shorter[i]).score >= (
            #[trigger] shorter[j]).score by {
                assert(ranked[i].score >= ranked[j].score);
            }
            lemma_score_position_splits(shorter, score);
            assert forall|i: int| 0 <= i < score_position(ranked, score) implies (#[trigger] ranked[i]).score
                >= score by {
                assert(shorter[i].score >= score);
            }
            assert forall|i: int| score_position(ranked, score) <= i < ranked.len() implies (#[trigger] ranked[i]).score
                < score by {
                if i < shorter.len() {
                    assert(shorter[i].score < score);
                }
            }
        }
    }
}

/// The current pane is in order of score, the highest first, and it lists
/// entries only that are not hidden and that the filter matches, each with
/// its own mask and score.
pub proof fn lemma_ranked_in_order(entries: Seq<Rc<MmmDirEntry>>, show_hidden: bool, filter: Seq<char>)
    ensures
        forall|i: int, j: int|
            0 <= i < j < ranked(entries, show_hidden, filter).len() ==> (#[trigger] ranked(
                entries,
                show_hidden,
                filter,
            )[i]).score >= (#[trigger] ranked(entries, show_hidden, filter)[j]).score,
        forall|i: int|
            0 <= i < ranked(entries, show_hidden, filter).len() ==> {
                let item = #[trigger] ranked(entries, show_hidden, filter)[i];
                listed(*item.entry, show_hidden, filter) && item == scored(item.entry, filter)
            },
        ranked(entries, show_hidden, filter).len() <= entries.len(),
    decreases entries.len(),
{
    if entries.len() > 0 {
        let before = ranked(entries.drop_last(), show_hidden, filter);
        let ghost entry = entries.last();
        lemma_ranked_in_order(entries.drop_last(), show_hidden, filter);
        if listed(pointee(entry), show_hidden, filter) {
            let score = entry_score(pointee(entry), filter);
            let at = score_position(before, score);
            lemma_score_position_bounds(before, score);
            lemma_score_position_splits(before, score);
            let after = before.insert(at, scored(entry, filter));
            assert(after == ranked(entries, show_hidden, filter));
            assert forall|i: int, j: int| 0 <= i < j < after.len() implies (#[trigger] after[i]).score >= (
            #[trigger] after[j]).score by {
                if j < at {
                    assert(after[i] == before[i] && after[j] == before[j]);
                } else if j == at {
                    assert(after[i] == before[i]);
                } else if i < at {
                    assert(after[i] == before[i] && after[j] == before[j - 1]);
                } else if i == at {
                    assert(after[j] == before[j - 1]);
                } else {
                    assert(after[i] == before[i - 1] && after[j] == before[j - 1]);
                }
            }
            assert forall|i: int| 0 <= i < after.len() implies listed(
                *(#[trigger] after[i]).entry,
                show_hidden,
                filter,
            ) && after[i] == scored(after[i].entry, filter) by {
                if i < at {
                    assert(after[i] == before[i]);
                } else if i > at {
                    assert(after[i] == before[i - 1]);
                }
            }
        }
    }
}

/// The entries that are not hidden, or all of them if hidden files are
/// shown, in the order in which they came, each with the neutral score and
/// no character marked.
pub open spec fn unfiltered(entries: Seq<Rc<MmmDirEntry>>, show_hidden: bool) -> Seq<ScoredView>
    decreases entries.len(),
{
    if entries.len() == 0 {
        Seq::empty()
    } else {
        let before = unfiltered(entries.drop_last(), show_hidden);
        if show_hidden || !entries.last().is_hidden() {
            before.push(
                ScoredView {
                    entry: entries.last(),
                    mask: Seq::new(entries.last().name().len(), |i: int| FilterMatchEnum::NoMatch),
                    score: 0,
                },
            )
        } else {
            before
        }
    }
}

/// Under the empty filter the current pane lists every entry that is not
/// hidden, in the order of the listing, with the neutral score.
pub proof fn lemma_empty_filter_keeps_order(entries: Seq<Rc<MmmDirEntry>>, show_hidden: bool)
    ensures
        ranked(entries, show_hidden, Seq::empty()) == unfiltered(entries, show_hidden),
        forall|i: int|
            0 <= i < unfiltered(entries, show_hidden).len() ==> (#[trigger] unfiltered(entries, show_hidden)[i]).score
                == 0,
    decreases entries.len(),
{
    if entries.len() > 0 {
        let ghost entry = entries.last();
        let before = unfiltered(entries.drop_last(), show_hidden);
        lemma_empty_filter_keeps_order(entries.drop_last(), show_hidden);
        crate::filesystem::filter::lemma_empty_filter(entry.name());
        if show_hidden || !entry.is_hidden() {
            if before.len() > 0 {
                assert(before[before.len() - 1].score == 0);
            }
            assert(score_position(before, 0) == before.len());
            assert(before.insert(before.len() as int, scored(entry, Seq::empty())) =~= before.push(
                scored(entry, Seq::empty()),
            ));
        }
    }
}

/// The entries that the current pane lists under `filter`, ranked.
pub fn rank_entries(entries: &Vec<Rc<MmmDirEntry>>, show_hidden: bool, filter: &str) -> (list: Vec<
    MmmScoredDirEntry,
>)
    ensures
        scored_views(list@) == ranked(entries@, show_hidden, filter@),
{
    let mut list: Vec<MmmScoredDirEntry> = Vec::new();
    let mut i: usize = 0;
    assert(scored_views(list@) =~= Seq::<ScoredView>::empty());
    while i < entries.len()
        invariant
            i <= entries.len(),
            scored_views(list@) == ranked(entries@.take(i as int), show_hidden, filter@),
        decreases entries.len() - i,
    {
        proof {
            assert(entries@.take(i + 1).drop_last() =~= entries@.take(i as int));
            assert(entries@.take(i + 1).last() == entries@[i as int]);
        }
        if let Some(entry) = filter_hidden(share(&entries[i]), show_hidden) {
            if let Some(item) = filter_and_score(entry, filter) {
                let ghost before = scored_views(list@);
                let mut at: usize = list.len();
                assert(before.take(at as int) =~= before);
                while at > 0 && list[at - 1].score < item.score
                    invariant
                        at <= list.len(),
                        before == scored_views(list@),
                        score_position(before, item.score as int) == score_position(
                            before.take(at as int),
                            item.score as int,
                        ),
                    decreases at,
                {
                    assert(before.take(at as int).drop_last() =~= before.take(at - 1));
                    at -= 1;
                }
                proof {
                    if at > 0 {
                        assert(before.take(at as int).last() == before[at - 1]);
                    }
                }
                let ghost item_view = item@;
                list.insert(at, item);
                assert(scored_views(list@) =~= before.insert(at as int, item_view));
            }
        }
        i += 1;
    }
    assert(entries@.take(entries.len() as int) =~= entries@);
    list
}

} // verus!
