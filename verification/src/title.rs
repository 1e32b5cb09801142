//! The grammar of a title with the series named behind it in parentheses.

use crate::entry::{all_kept, entries_in, memberships, memberships_are_named};
use crate::series::{Membership, SeriesInfo, memberships_view, series_view};
use crate::text::{chars_of, is_space, is_space_char, string_of, string_of_range};
use vstd::prelude::*;

verus! {

/// Whether `text` reads as a title, one white-space character at `at`, and
/// a parenthesis that opens right behind it and closes at the very end.
/// The title is not empty.
pub open spec fn splits_at(text: Seq<char>, at: int) -> bool {
    &&& 0 < at
    &&& at + 3 <= text.len()
    &&& is_space(text[at])
    &&& text[at + 1] == '('
    &&& text[text.len() - 1] == ')'
}

/// The last position under `bound` at which `text` splits, if there is one.
pub open spec fn split_point_below(text: Seq<char>, bound: int) -> Option<int>
    decreases bound,
{
    if bound <= 0 {
        None
    } else if splits_at(text, bound - 1) {
        Some(bound - 1)
    } else {
        split_point_below(text, bound - 1)
    }
}

/// Where `text` parts into title and series: the last position at which it
/// splits, so that the title is as long as it can be.
pub open spec fn split_point(text: Seq<char>) -> Option<int> {
    split_point_below(text, text.len() as int)
}

/// Between `low` and `high` the text splits nowhere, so the search for the
/// last split may start at `low`.
pub proof fn split_point_skips(text: Seq<char>, low: int, high: int)
    requires
        low <= high,
        forall|at: int| low <= at < high ==> !splits_at(text, at),
    ensures
        split_point_below(text, high) == split_point_below(text, low),
    decreases high - low,
{
    if low < high {
        split_point_skips(text, low, high - 1);
    }
}

/// The split point is a position at which the text splits, and the last one.
pub proof fn split_point_is_last(text: Seq<char>, bound: int)
    ensures
        match split_point_below(text, bound) {
            Some(at) => at < bound && splits_at(text, at) && forall|later: int|
                at < later < bound ==> !splits_at(text, later),
            None => forall|at: int| at < bound ==> !splits_at(text, at),
        },
    decreases bound,
{
    if bound > 0 && !splits_at(text, bound - 1) {
        split_point_is_last(text, bound - 1);
    }
}

/// Where the text parts into title and series, if it does.
pub fn find_split(chars: &Vec<char>) -> (found: Option<usize>)
    ensures
        match found {
            Some(at) => split_point(chars@) == Some(at as int),
            None => split_point(chars@) is None,
        },
{
    let n = chars.len();
    if n < 4 || chars[n - 1] != ')' {
        proof {
            split_point_skips(chars@, 0, n as int);
        }
        return None;
    }
    let mut bound: usize = n - 2;
    proof {
        split_point_skips(chars@, n - 2, n as int);
    }
    while bound > 1
        invariant
            1 <= bound <= n - 2,
            n == chars.len(),
            n >= 4,
            chars[n - 1] == ')',
            split_point(chars@) == split_point_below(chars@, bound as int),
        decreases bound,
    {
        let at = bound - 1;
        if is_space_char(chars[at]) && chars[at + 1] == '(' {
            return Some(at);
        }
        bound = at;
    }
    proof {
        split_point_skips(chars@, 0, bound as int);
    }
    None
}

/// What a title with its series reads as: the title, and the memberships
/// if there are any. Where the text does not split, or the parentheses state
/// no membership, the whole text is the title.
pub open spec fn parsed(text: Seq<char>) -> (Seq<char>, Option<Seq<Membership>>) {
    match split_point(text) {
        Some(at) => {
            let stated = memberships(text.subrange(at + 2, text.len() - 1));
            if stated.len() > 0 {
                (text.take(at), Some(stated))
            } else {
                (text, None)
            }
        },
        None => (text, None),
    }
}

/// A text that is not empty has a title that is not empty; a series that
/// is there holds at least one membership, each as it is kept;
/// and without a series the title is the whole text.
pub proof fn parsed_is_well_formed(text: Seq<char>)
    ensures
        text.len() > 0 ==> parsed(text).0.len() > 0,
        parsed(text).1 is None ==> parsed(text).0 == text,
        parsed(text).1 matches Some(stated) ==> stated.len() > 0 && all_kept(stated),
{
    split_point_is_last(text, text.len() as int);
    if let Some(at) = split_point(text) {
        memberships_are_named(text.subrange(at + 2, text.len() - 1), 0, 0);
    }
}

/// Whether `result` is what `text` reads as.
pub open spec fn reads_as(text: Seq<char>, result: (String, Option<Vec<SeriesInfo>>)) -> bool {
    (result.0@, series_view(result.1)) == parsed(text)
}

/// The same text always reads as the same title and the same series.
pub proof fn same_text_reads_the_same(
    text: Seq<char>,
    once: (String, Option<Vec<SeriesInfo>>),
    again: (String, Option<Vec<SeriesInfo>>),
)
    requires
        reads_as(text, once),
        reads_as(text, again),
    ensures
        once.0@ == again.0@,
        series_view(once.1) == series_view(again.1),
{
}

/// Parts a title from the series named behind it. The result is a function
/// of the text alone.
pub fn split(title_and_series: &str) -> (result: (String, Option<Vec<SeriesInfo>>))
    ensures
        reads_as(title_and_series@, result),
        title_and_series@.len() > 0 ==> result.0@.len() > 0,
        result.1 is None ==> result.0@ == title_and_series@,
        result.1 matches Some(list) ==> list.len() > 0 && all_kept(memberships_view(list@)),
{
    proof {
        parsed_is_well_formed(title_and_series@);
    }
    let chars = chars_of(title_and_series);
    match find_split(&chars) {
        Some(at) => {
            proof {
                split_point_is_last(chars@, chars.len() as int);
            }
            let entries = entries_in(&chars, at + 2, chars.len() - 1);
            if entries.len() > 0 {
                let title = string_of_range(&chars, 0, at);
                (title, Some(entries))
            } else {
                (string_of(&chars), None)
            }
        },
        None => (string_of(&chars), None),
    }
}

} // verus!
