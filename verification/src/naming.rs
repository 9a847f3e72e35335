//! Series names derived from type names.
//!
//! A metric is written to the series named after its type. The name of a type is a
//! path such as `app::metrics::CpuLoad`; the series name is its last segment,
//! `CpuLoad`. A name without a scope separator is used whole.

use vstd::prelude::*;

verus! {

/// Whether the scope separator `::` starts at position `i` of `s`.
pub open spec fn separator_at(s: Seq<char>, i: int) -> bool {
    0 <= i && i + 1 < s.len() && s[i] == ':' && s[i + 1] == ':'
}

/// Whether `s` holds a scope separator anywhere.
pub open spec fn has_separator(s: Seq<char>) -> bool {
    exists|i: int| separator_at(s, i)
}

/// Whether the rightmost scope separator of `s` starts at position `i`.
pub open spec fn is_last_separator(s: Seq<char>, i: int) -> bool {
    separator_at(s, i) && forall|j: int| i < j ==> !separator_at(s, j)
}

/// Where the rightmost scope separator of `s` starts, if `s` holds one.
pub open spec fn last_separator(s: Seq<char>) -> int {
    choose|i: int| is_last_separator(s, i)
}

/// The series name of a type name: what follows the rightmost scope
/// separator, or the whole name where there is none.
pub open spec fn spec_series_name(path: Seq<char>) -> Seq<char> {
    if has_separator(path) {
        path.subrange(last_separator(path) + 2, path.len() as int)
    } else {
        path
    }
}

/// The rightmost separator is unique, so finding one position that
/// qualifies fixes `last_separator`.
pub proof fn lemma_last_separator_unique(s: Seq<char>, i: int)
    requires
        is_last_separator(s, i),
    ensures
        has_separator(s),
        last_separator(s) == i,
{
    let k = last_separator(s);
    assert(is_last_separator(s, k));
    if k < i {
        assert(!separator_at(s, i));
    }
    if i < k {
        assert(!separator_at(s, k));
    }
}

/// A path that holds a separator holds a rightmost one.
pub proof fn lemma_last_separator_exists(s: Seq<char>)
    requires
        has_separator(s),
    ensures
        is_last_separator(s, last_separator(s)),
{
    let first = choose|i: int| separator_at(s, i);
    lemma_rightmost_from(s, first, s.len() as int);
}

/// Searching leftwards from `bound` finds the rightmost separator, given
/// that there is one at `known` and none at or right of `bound`.
proof fn lemma_rightmost_from(s: Seq<char>, known: int, bound: int)
    requires
        separator_at(s, known),
        known < bound,
        forall|j: int| bound <= j ==> !separator_at(s, j),
    ensures
        exists|i: int| is_last_separator(s, i),
    decreases bound - known,
{
    if separator_at(s, bound - 1) {
        assert(is_last_separator(s, bound - 1));
    } else {
        lemma_rightmost_from(s, known, bound - 1);
    }
}

/// A series name is a single segment: it holds no scope separator, and the
/// path ends with it.
pub proof fn lemma_series_name_is_last_segment(path: Seq<char>)
    ensures
        !has_separator(spec_series_name(path)),
        spec_series_name(path).len() <= path.len(),
        spec_series_name(path) == path.subrange(
            path.len() - spec_series_name(path).len(),
            path.len() as int,
        ),
        has_separator(path) ==> spec_series_name(path).len() + 2 <= path.len() && separator_at(
            path,
            path.len() - spec_series_name(path).len() - 2,
        ),
{
    if has_separator(path) {
        lemma_last_separator_exists(path);
        let at = last_separator(path);
        let name = spec_series_name(path);
        assert forall|i: int| !separator_at(name, i) by {
            if separator_at(name, i) {
                assert(separator_at(path, at + 2 + i));
            }
        }
    } else {
        assert(path.subrange(0, path.len() as int) == path);
    }
}

/// Computes the series name of `path`.
pub fn series_name<'a>(path: &'a str) -> (name: &'a str)
    ensures
        name@ == spec_series_name(path@),
{
    let length: usize = path.unicode_len();
    let mut found: bool = false;
    let mut cut: usize = 0;
    let mut previous_colon: bool = false;
    let mut position: usize = 0;
    for c in it: path.chars()
        invariant
            length == path@.len(),
            it.seq() == path@,
            position == it.index(),
            previous_colon == (position > 0 && path@[position - 1] == ':'),
            found ==> 2 <= cut <= position && separator_at(path@, cut - 2),
            forall|j: int|
                (if found { cut - 2 < j } else { true }) && j + 1 < position ==> !separator_at(
                    path@,
                    j,
                ),
    {
        if previous_colon && c == ':' {
            found = true;
            cut = position + 1;
        }
        previous_colon = c == ':';
        position = position + 1;
    }
    if found {
        proof {
            lemma_last_separator_unique(path@, cut - 2);
        }
        path.substring_char(cut, length)
    } else {
        path
    }
}

} // verus!
