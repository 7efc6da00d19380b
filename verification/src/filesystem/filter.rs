//! The fuzzy filter: which entries a filter text keeps, which characters of
//! a name it matched, and how the kept entries rank.
//!
//! A filter matches a name when its characters occur in the name in order,
//! not necessarily next to each other, with ASCII letters compared without
//! regard to case. The match is greedy: each filter character takes the
//! first name character that it can.

use vstd::prelude::*;
use std::rc::Rc;
use crate::filesystem::{MmmDirEntry, MmmScoredDirEntry};
use crate::text::chars_of;

verus! {

/// Whether the filter took a character of the name.
#[derive(Clone, Copy, Debug, PartialEq, Eq, Structural)]
pub enum FilterMatchEnum {
    NoMatch,
    Match,
}

/// What a directory scores above a file with the same match.
pub const DIRECTORY_BONUS: i32 = 1000000;

/// The score of an entry under the empty filter.
pub const NEUTRAL_SCORE: i32 = 0;

/// `c` with an ASCII capital replaced by its small letter.
pub open spec fn ascii_lowercase(c: char) -> char {
    if 'A' <= c && c <= 'Z' {
        ((c as u32) + 32) as char
    } else {
        c
    }
}

/// The two characters are the same but for the case of an ASCII letter.
pub open spec fn chars_match(a: char, b: char) -> bool {
    ascii_lowercase(a) == ascii_lowercase(b)
}

/// `char::eq_ignore_ascii_case` compares the two characters after mapping
/// `A` to `Z` to `a` to `z` and leaving every other character as it is.
pub assume_specification[ char::eq_ignore_ascii_case ](a: &char, b: &char) -> (same: bool)
    ensures
        same == chars_match(*a, *b),
;

/// How many characters of the filter the first `upto` characters of the name
/// have used up.
pub open spec fn consumed(name: Seq<char>, filter: Seq<char>, upto: int) -> int
    decreases upto,
{
    if upto <= 0 {
        0
    } else {
        let before = consumed(name, filter, upto - 1);
        if before < filter.len() && chars_match(name[upto - 1], filter[before]) {
            before + 1
        } else {
            before
        }
    }
}

/// The filter takes character `i` of the name.
pub open spec fn takes(name: Seq<char>, filter: Seq<char>, i: int) -> bool {
    let before = consumed(name, filter, i);
    before < filter.len() && chars_match(name[i], filter[before])
}

/// The match mask of the name: one mark for each of its characters.
pub open spec fn match_mask(name: Seq<char>, filter: Seq<char>) -> Seq<FilterMatchEnum> {
    Seq::new(
        name.len(),
        |i: int|
            if takes(name, filter, i) {
                FilterMatchEnum::Match
            } else {
                FilterMatchEnum::NoMatch
            },
    )
}

/// The name uses up the whole filter.
pub open spec fn matches_filter(name: Seq<char>, filter: Seq<char>) -> bool {
    consumed(name, filter, name.len() as int) == filter.len()
}

/// `positions` shows the filter as an ordered subsequence of the name: it
/// gives each filter character a matching character of the name, further
/// right than the one before.
pub open spec fn is_embedding(filter: Seq<char>, name: Seq<char>, positions: Seq<int>) -> bool {
    &&& positions.len() == filter.len()
    &&& forall|k: int|
        0 <= k < positions.len() ==> 0 <= #[trigger] positions[k] < name.len() && chars_match(
            name[positions[k]],
            filter[k],
        )
    &&& forall|j: int, k: int| 0 <= j < k < positions.len() ==> #[trigger] positions[j] < #[trigger] positions[k]
}

/// The filter's characters occur in the name, in order.
pub open spec fn is_subsequence(filter: Seq<char>, name: Seq<char>) -> bool {
    exists|positions: Seq<int>| is_embedding(filter, name, positions)
}

proof fn lemma_consumed_bounds(name: Seq<char>, filter: Seq<char>, upto: int)
    requires
        0 <= upto,
    ensures
        0 <= consumed(name, filter, upto) <= upto,
        consumed(name, filter, upto) <= filter.len(),
    decreases upto,
{
    if upto > 0 {
        lemma_consumed_bounds(name, filter, upto - 1);
    }
}

proof fn lemma_consumed_grows(name: Seq<char>, filter: Seq<char>, from: int, to: int)
    requires
        0 <= from <= to,
    ensures
        consumed(name, filter, from) <= consumed(name, filter, to),
    decreases to - from,
{
    if from < to {
        lemma_consumed_grows(name, filter, from, to - 1);
    }
}

/// The positions that the greedy match takes among the first `upto`
/// characters of the name.
spec fn greedy_positions(name: Seq<char>, filter: Seq<char>, upto: int) -> Seq<int>
    decreases upto,
{
    if upto <= 0 {
        Seq::empty()
    } else if takes(name, filter, upto - 1) {
        greedy_positions(name, filter, upto - 1).push(upto - 1)
    } else {
        greedy_positions(name, filter, upto - 1)
    }
}

proof fn lemma_greedy_positions(name: Seq<char>, filter: Seq<char>, upto: int)
    requires
        0 <= upto <= name.len(),
    ensures
        ({
            let positions = greedy_positions(name, filter, upto);
            &&& positions.len() == consumed(name, filter, upto)
            &&& forall|k: int|
                0 <= k < positions.len() ==> 0 <= #[trigger] positions[k] < upto && chars_match(
                    name[positions[k]],
                    filter[k],
                )
            &&& forall|j: int, k: int|
                0 <= j < k < positions.len() ==> #[trigger] positions[j] < #[trigger] positions[k]
        }),
    decreases upto,
{
    if upto > 0 {
        lemma_greedy_positions(name, filter, upto - 1);
        lemma_consumed_bounds(name, filter, upto - 1);
    }
}

/// Along an embedding the greedy match never falls behind: by the position
/// of the `k`-th filter character it has used up `k` characters or more.
proof fn lemma_greedy_keeps_up(name: Seq<char>, filter: Seq<char>, positions: Seq<int>, k: int)
    requires
        is_embedding(filter, name, positions),
        0 <= k <= filter.len(),
    ensures
        k > 0 ==> consumed(name, filter, positions[k - 1] + 1) >= k,
    decreases k,
{
    if k > 0 {
        lemma_greedy_keeps_up(name, filter, positions, k - 1);
        let at = positions[k - 1];
        let reached = if k > 1 {
            positions[k - 2] + 1
        } else {
            0
        };
        if k > 1 {
            assert(positions[k - 2] < positions[k - 1]);
        }
        lemma_consumed_grows(name, filter, reached, at);
        lemma_consumed_bounds(name, filter, at);
    }
}

/// The filter keeps a name exactly when the filter's characters occur in the
/// name as an ordered subsequence, ASCII case set aside.
pub proof fn lemma_match_is_subsequence(name: Seq<char>, filter: Seq<char>)
    ensures
        matches_filter(name, filter) <==> is_subsequence(filter, name),
{
    if matches_filter(name, filter) {
        lemma_greedy_positions(name, filter, name.len() as int);
        assert(is_embedding(filter, name, greedy_positions(name, filter, name.len() as int)));
    }
    if is_subsequence(filter, name) {
        let positions = choose|positions: Seq<int>| is_embedding(filter, name, positions);
        let k = filter.len() as int;
        lemma_greedy_keeps_up(name, filter, positions, k);
        lemma_consumed_bounds(name, filter, name.len() as int);
        if k > 0 {
            lemma_consumed_grows(name, filter, positions[k - 1] + 1, name.len() as int);
        }
    }
}

/// The empty filter keeps every name and marks none of its characters.
pub proof fn lemma_empty_filter(name: Seq<char>)
    ensures
        matches_filter(name, Seq::empty()),
        match_mask(name, Seq::empty()) == Seq::new(name.len(), |i: int| FilterMatchEnum::NoMatch),
{
    lemma_consumed_bounds(name, Seq::empty(), name.len() as int);
    assert forall|i: int| 0 <= i < name.len() implies !takes(name, Seq::empty(), i) by {
        lemma_consumed_bounds(name, Seq::empty(), i);
    }
    assert(match_mask(name, Seq::empty()) =~= Seq::new(name.len(), |i: int| FilterMatchEnum::NoMatch));
}

/// Matches `filter` against `base`: the mask of the characters taken, or
/// `None` when `base` does not use up the whole filter.
pub fn filter_match(base: &str, filter: &str) -> (mask: Option<Vec<FilterMatchEnum>>)
    ensures
        mask is Some <==> is_subsequence(filter@, base@),
        mask is Some <==> matches_filter(base@, filter@),
        mask matches Some(m) ==> m@ == match_mask(base@, filter@),
{
    proof {
        lemma_match_is_subsequence(base@, filter@);
    }
    let name = chars_of(base);
    let wanted = chars_of(filter);
    let mut match_list: Vec<FilterMatchEnum> = Vec::new();
    let mut used: usize = 0;
    let mut i: usize = 0;
    while i < name.len()
        invariant
            i <= name.len(),
            name@ == base@,
            wanted@ == filter@,
            used <= wanted.len(),
            used == consumed(name@, wanted@, i as int),
            match_list.len() == i,
            forall|k: int| 0 <= k < i ==> match_list@[k] == match_mask(name@, wanted@)[k],
        decreases name.len() - i,
    {
        if used < wanted.len() && name[i].eq_ignore_ascii_case(&wanted[used]) {
            match_list.push(FilterMatchEnum::Match);
            used += 1;
        } else {
            match_list.push(FilterMatchEnum::NoMatch);
        }
        i += 1;
    }
    if used == wanted.len() {
        assert(match_list@ =~= match_mask(base@, filter@));
        Some(match_list)
    } else {
        None
    }
}

/// What a match on character `i` of the name is worth: 500 on the first
/// character, 5 less on each one after it.
pub open spec fn match_weight(i: int) -> int {
    500 - 5 * i
}

/// The weights of the matches among the first `upto` marks of the mask.
pub open spec fn weight_sum(mask: Seq<FilterMatchEnum>, upto: int) -> int
    decreases upto,
{
    if upto <= 0 {
        0
    } else {
        weight_sum(mask, upto - 1) + if mask[upto - 1] == FilterMatchEnum::Match {
            match_weight(upto - 1)
        } else {
            0
        }
    }
}

/// The quality of a match: the weights of its matches, less one for each
/// character of the name.
pub open spec fn match_quality(mask: Seq<FilterMatchEnum>) -> int {
    weight_sum(mask, mask.len() as int) - mask.len()
}

/// No match is worth more than this.
pub const QUALITY_LIMIT: i32 = 50000;

/// A mask longer than this has a quality below the range of `i32`, whatever
/// it matched: its length outweighs the most that its matches can be worth.
pub const LONGEST_IN_RANGE: usize = 0x8000_C350;

/// `value`, held to the range of `i32`.
pub open spec fn clamped(value: int) -> int {
    if value < i32::MIN {
        i32::MIN as int
    } else if value > i32::MAX {
        i32::MAX as int
    } else {
        value
    }
}

proof fn lemma_weight_sum_limit(mask: Seq<FilterMatchEnum>, upto: int)
    requires
        0 <= upto,
    ensures
        weight_sum(mask, upto) <= 500 * upto,
        weight_sum(mask, upto) <= QUALITY_LIMIT,
    decreases upto,
{
    if upto > 0 {
        lemma_weight_sum_limit(mask, upto - 1);
    }
}

/// The quality of the match that the mask records, held to the range of
/// `i32`: matches early in the name score high, long names score low.
pub fn evaluate_score(filter_match: &[FilterMatchEnum]) -> (score: i32)
    ensures
        score == clamped(match_quality(filter_match@)),
        score <= QUALITY_LIMIT,
{
    let length = filter_match.len();
    proof {
        lemma_weight_sum_limit(filter_match@, length as int);
    }
    if length > LONGEST_IN_RANGE {
        return i32::MIN;
    }
    let mut start_match_weight_score: i128 = 0;
    let mut i: usize = 0;
    while i < length
        invariant
            i <= length == filter_match@.len(),
            length <= LONGEST_IN_RANGE,
            start_match_weight_score == weight_sum(filter_match@, i as int),
            start_match_weight_score <= 500 * i,
            start_match_weight_score <= QUALITY_LIMIT,
            start_match_weight_score >= -(i * 0x10_0000_0000),
        decreases length - i,
    {
        if filter_match[i] == FilterMatchEnum::Match {
            start_match_weight_score = start_match_weight_score + (500 - 5 * (i as i128));
        }
        i += 1;
    }
    let total: i128 = start_match_weight_score - (length as i128);
    if total < -0x8000_0000 {
        i32::MIN
    } else {
        total as i32
    }
}

/// The score of `entry` under `filter`: neutral under the empty filter, else
/// the quality of the match, with the bonus that puts directories first.
pub open spec fn entry_score(entry: MmmDirEntry, filter: Seq<char>) -> int {
    if filter.len() == 0 {
        NEUTRAL_SCORE as int
    } else {
        clamped(match_quality(match_mask(entry.name(), filter))) + if entry is Directory {
            DIRECTORY_BONUS as int
        } else {
            0
        }
    }
}

/// Holds `entry` against `filter`: `None` when the filter does not match the
/// entry's name, else the entry with its match mask and score.
pub fn filter_and_score(entry: Rc<MmmDirEntry>, filter: &str) -> (scored: Option<MmmScoredDirEntry>)
    ensures
        scored is Some <==> is_subsequence(filter@, entry.name()),
        scored is Some <==> matches_filter(entry.name(), filter@),
        scored matches Some(s) ==> {
            &&& s.entry == entry
            &&& s.filter_match@ == match_mask(entry.name(), filter@)
            &&& s.score == entry_score(*entry, filter@)
        },
{
    match filter_match(entry.get_name(), filter) {
        None => None,
        Some(filter_match) => {
            let mut score: i32 = NEUTRAL_SCORE;
            if !filter.is_empty() {
                if let MmmDirEntry::Directory { .. } = &*entry {
                    score += DIRECTORY_BONUS;
                }
                score += evaluate_score(filter_match.as_slice());
            }
            Some(MmmScoredDirEntry { filter_match, entry, score })
        },
    }
}

/// Directories rank first: under a filter that is not empty, a directory
/// outranks every entry of another kind whose match is no better than its
/// own.
pub proof fn lemma_directory_outranks(directory: MmmDirEntry, other: MmmDirEntry, filter: Seq<char>)
    requires
        directory is Directory,
        !(other is Directory),
        filter.len() > 0,
        match_quality(match_mask(directory.name(), filter)) >= match_quality(match_mask(other.name(), filter)),
    ensures
        entry_score(directory, filter) > entry_score(other, filter),
{
}

/// Drops an entry whose name starts with a dot, unless hidden files are
/// shown.
pub fn filter_hidden(entry: Rc<MmmDirEntry>, show_hidden: bool) -> (kept: Option<Rc<MmmDirEntry>>)
    ensures
        kept == if show_hidden || !entry.is_hidden() {
            Some(entry)
        } else {
            None
        },
{
    if show_hidden || !starts_with_dot(entry.get_name()) {
        Some(entry)
    } else {
        None
    }
}

/// As `filter_hidden`, but the entry called `exception` is kept in any case.
pub fn filter_hidden_with_exception(entry: Rc<MmmDirEntry>, show_hidden: bool, exception: &str) -> (kept: Option<
    Rc<MmmDirEntry>,
>)
    ensures
        kept == if show_hidden || !entry.is_hidden() || entry.name() == exception@ {
            Some(entry)
        } else {
            None
        },
{
    if show_hidden || !starts_with_dot(entry.get_name()) || *entry.get_name() == *exception {
        Some(entry)
    } else {
        None
    }
}

/// Whether `name` begins with a dot.
pub fn starts_with_dot(name: &str) -> (dotted: bool)
    ensures
        dotted == (name@.len() > 0 && name@[0] == '.'),
{
    !name.is_empty() && name.get_char(0) == '.'
}

} // verus!
