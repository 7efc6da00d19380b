//! Moving between strings and sequences of characters.

use vstd::prelude::*;

verus! {

/// `String::push` appends one character to the end of the string.
pub assume_specification[ String::push ](s: &mut String, c: char)
    ensures
        final(s)@ == old(s)@.push(c),
;

/// `String::push_str` appends the whole of `text` to the end of the string.
pub assume_specification[ String::push_str ](s: &mut String, text: &str)
    ensures
        final(s)@ == old(s)@ + text@,
;

/// `==` on string slices holds exactly when the two hold the same characters.
pub assume_specification[ <str as PartialEq>::eq ](a: &str, b: &str) -> (same: bool)
    ensures
        same == (a@ == b@),
;

/// The characters of `s`, in order.
pub fn chars_of(s: &str) -> (v: Vec<char>)
    ensures
        v@ == s@,
{
    let mut v: Vec<char> = Vec::new();
    for c in it: s.chars()
        invariant
            v@ == it.seq().take(it.index() as int),
            it.seq() == s@,
    {
        v.push(c);
    }
    v
}

/// The string made of the characters `v[start..end]`.
pub(crate) fn string_from_chars(v: &Vec<char>, start: usize, end: usize) -> (s: String)
    requires
        start <= end <= v.len(),
    ensures
        s@ == v@.subrange(start as int, end as int),
{
    let mut s = String::new();
    let mut i: usize = start;
    while i < end
        invariant
            start <= i <= end <= v.len(),
            s@ == v@.subrange(start as int, i as int),
        decreases end - i,
    {
        s.push(v[i]);
        i += 1;
    }
    s
}

/// The first index from `from` on at which the two texts differ or one of
/// them ends.
pub open spec fn common_prefix(a: Seq<char>, b: Seq<char>, from: int) -> int
    decreases a.len() - from,
{
    if from < 0 || from >= a.len() || from >= b.len() || a[from] != b[from] {
        from
    } else {
        common_prefix(a, b, from + 1)
    }
}

/// `a` comes before `b`, or is equal to it, in lexicographic order: at the
/// first place where the two differ `a` has the smaller character, or `a`
/// ends there.
pub open spec fn text_le(a: Seq<char>, b: Seq<char>) -> bool {
    let k = common_prefix(a, b, 0);
    k == a.len() || (k < b.len() && (a[k] as u32) < (b[k] as u32))
}

/// Up to their common prefix the two texts agree, and there they differ or
/// one of them ends.
pub proof fn lemma_common_prefix(a: Seq<char>, b: Seq<char>, from: int)
    requires
        0 <= from <= a.len(),
        from <= b.len(),
    ensures
        from <= common_prefix(a, b, from) <= a.len(),
        common_prefix(a, b, from) <= b.len(),
        forall|i: int| from <= i < common_prefix(a, b, from) ==> a[i] == b[i],
        common_prefix(a, b, from) == a.len() || common_prefix(a, b, from) == b.len() || a[common_prefix(a, b, from)]
            != b[common_prefix(a, b, from)],
    decreases a.len() - from,
{
    if from < a.len() && from < b.len() && a[from] == b[from] {
        lemma_common_prefix(a, b, from + 1);
    }
}

/// The common prefix ends at the first place where the texts differ or one
/// of them ends, and nowhere else.
pub proof fn lemma_common_prefix_is(a: Seq<char>, b: Seq<char>, from: int, k: int)
    requires
        0 <= from <= k <= a.len(),
        k <= b.len(),
        forall|i: int| from <= i < k ==> a[i] == b[i],
        k == a.len() || k == b.len() || a[k] != b[k],
    ensures
        common_prefix(a, b, from) == k,
    decreases k - from,
{
    if from < k {
        lemma_common_prefix_is(a, b, from + 1, k);
    }
}

/// Of two texts one comes before the other, or they are equal.
pub proof fn lemma_text_le_total(a: Seq<char>, b: Seq<char>)
    ensures
        text_le(a, b) || text_le(b, a),
{
    let k = common_prefix(a, b, 0);
    lemma_common_prefix(a, b, 0);
    lemma_common_prefix_is(b, a, 0, k);
    if k < a.len() && k < b.len() {
        lemma_chars_ordered(a[k], b[k]);
    }
}

/// Of two different characters one has the smaller code.
proof fn lemma_chars_ordered(x: char, y: char)
    requires
        x != y,
    ensures
        (x as u32) < (y as u32) || (y as u32) < (x as u32),
{
}

/// What comes before a text comes before everything that the text comes
/// before.
pub proof fn lemma_text_le_transitive(a: Seq<char>, b: Seq<char>, c: Seq<char>)
    requires
        text_le(a, b),
        text_le(b, c),
    ensures
        text_le(a, c),
{
    lemma_common_prefix(a, b, 0);
    lemma_common_prefix(b, c, 0);
    let first = common_prefix(a, b, 0);
    let second = common_prefix(b, c, 0);
    let k = if first <= second {
        first
    } else {
        second
    };
    lemma_common_prefix_is(a, c, 0, k);
}

/// Whether `a` comes before `b`, or is equal to it, in lexicographic order.
pub fn chars_le(a: &Vec<char>, b: &Vec<char>) -> (le: bool)
    ensures
        le == text_le(a@, b@),
{
    let mut k: usize = 0;
    while k < a.len() && k < b.len() && a[k] == b[k]
        invariant
            k <= a.len(),
            k <= b.len(),
            common_prefix(a@, b@, 0) == common_prefix(a@, b@, k as int),
        decreases a.len() - k,
    {
        k += 1;
    }
    k == a.len() || (k < b.len() && (a[k] as u32) < (b[k] as u32))
}

} // verus!
