//! The entries of a series list: `<name> #<number>`, parted by semicolons.

use crate::series::{
    Membership, SeriesInfo, Volume, VolumeView, memberships_view, without_final_zeros,
    without_final_zeros_is_fraction,
};
use crate::text::{
    all_digits, decimal, decimal_value, is_digit, is_digit_char, is_space, is_space_char,
    slice_of, spaces_end, spaces_end_is_first, string_of_range,
};
use vstd::prelude::*;

verus! {

/// Whether the `#` at `at` marks an entry: a character other than `#` stands
/// before it and a digit behind it.
pub open spec fn marks_entry(piece: Seq<char>, at: int) -> bool {
    &&& 0 < at
    &&& at + 1 < piece.len()
    &&& piece[at] == '#'
    &&& piece[at - 1] != '#'
    &&& is_digit(piece[at + 1])
}

/// The first position from `from` on that marks an entry.
pub open spec fn entry_mark_from(piece: Seq<char>, from: int) -> Option<int>
    decreases piece.len() - from,
{
    if from >= piece.len() {
        None
    } else if marks_entry(piece, from) {
        Some(from)
    } else {
        entry_mark_from(piece, from + 1)
    }
}

/// Where the run of characters other than `#` that ends before `at` begins.
pub open spec fn run_start(piece: Seq<char>, at: int) -> int
    decreases at,
{
    if at <= 0 || piece[at - 1] == '#' {
        at
    } else {
        run_start(piece, at - 1)
    }
}

/// Where the run of digits that begins at `from` ends.
pub open spec fn digits_end(piece: Seq<char>, from: int) -> int
    decreases piece.len() - from,
{
    if from >= piece.len() || !is_digit(piece[from]) {
        from
    } else {
        digits_end(piece, from + 1)
    }
}

/// What is dropped from the end of a name: white space, commas, semicolons.
pub open spec fn is_name_padding(c: char) -> bool {
    is_space(c) || c == ',' || c == ';'
}

/// The end of what is left of `raw[..to]` without the padding at its end.
pub open spec fn name_end(raw: Seq<char>, to: int) -> int
    decreases to,
{
    if to <= 0 || !is_name_padding(raw[to - 1]) {
        to
    } else {
        name_end(raw, to - 1)
    }
}

/// A series name as it is kept: without the white space before it and
/// without the white space, commas and semicolons behind it.
pub open spec fn clean_name(raw: Seq<char>) -> Seq<char> {
    let from = spaces_end(raw, 0);
    let to = name_end(raw, raw.len() as int);
    if from < to {
        raw.subrange(from, to)
    } else {
        Seq::empty()
    }
}

/// The fraction that stands at `at`, behind the digits of a whole number:
/// where a point stands there with a digit behind it, the digits behind the
/// point without the zeros at their end; and nothing elsewhere.
pub open spec fn fraction_at(piece: Seq<char>, at: int) -> Seq<char> {
    if at + 1 < piece.len() && piece[at] == '.' && is_digit(piece[at + 1]) {
        without_final_zeros(piece.subrange(at + 1, digits_end(piece, at + 1)))
    } else {
        Seq::empty()
    }
}

/// The membership that one piece of a series list states. The entry is the
/// first `#` that marks one; the name is the run before it, cleaned; the
/// volume is the number behind it, `<digits>` or `<digits>.<digits>`. A
/// piece without such a mark, with an empty name or with a whole part above
/// `u64::MAX` states none.
pub open spec fn membership_of(piece: Seq<char>) -> Option<Membership> {
    match entry_mark_from(piece, 0) {
        None => None,
        Some(mark) => {
            let name = clean_name(piece.subrange(run_start(piece, mark), mark));
            let end = digits_end(piece, mark + 1);
            let whole = decimal_value(piece.subrange(mark + 1, end));
            if name.len() > 0 && whole <= u64::MAX {
                Some(Membership { name, volume: VolumeView { whole, fraction: fraction_at(piece, end) } })
            } else {
                None
            }
        },
    }
}

/// The memberships of one piece: one or none.
pub open spec fn piece_memberships(piece: Seq<char>) -> Seq<Membership> {
    match membership_of(piece) {
        Some(membership) => seq![membership],
        None => Seq::empty(),
    }
}

/// The memberships stated from `start` on, where the piece that begins at
/// `start` has been read up to `at` without meeting a semicolon.
pub open spec fn memberships_scan(list: Seq<char>, start: int, at: int) -> Seq<Membership>
    decreases list.len() - at,
{
    if at >= list.len() {
        piece_memberships(list.subrange(start, list.len() as int))
    } else if list[at] == ';' {
        piece_memberships(list.subrange(start, at)) + memberships_scan(list, at + 1, at + 1)
    } else {
        memberships_scan(list, start, at + 1)
    }
}

/// The memberships that a series list states: those of its pieces between
/// semicolons, from left to right.
pub open spec fn memberships(list: Seq<char>) -> Seq<Membership> {
    memberships_scan(list, 0, 0)
}

/// Whether `name` is a name as it is kept: not empty, without white space
/// at its start, and without white space, a comma or a semicolon at its end.
pub open spec fn is_kept_name(name: Seq<char>) -> bool {
    &&& name.len() > 0
    &&& !is_space(name.first())
    &&& !is_name_padding(name.last())
}

/// Whether the membership is as it is kept: its name is, and the fraction
/// of its volume is made of digits and does not end with a 0.
pub open spec fn is_kept(membership: Membership) -> bool {
    is_kept_name(membership.name) && membership.volume.wf()
}

/// Whether every membership of the list is as it is kept.
pub open spec fn all_kept(list: Seq<Membership>) -> bool {
    forall|i: int| 0 <= i < list.len() ==> is_kept(#[trigger] list[i])
}

/// The padding at the end of a name begins within the name, and not behind
/// a character of padding.
pub proof fn name_end_is_last(raw: Seq<char>, to: int)
    requires
        0 <= to <= raw.len(),
    ensures
        0 <= name_end(raw, to) <= to,
        name_end(raw, to) > 0 ==> !is_name_padding(raw[name_end(raw, to) - 1]),
        forall|i: int| name_end(raw, to) <= i < to ==> is_name_padding(raw[i]),
    decreases to,
{
    if to > 0 && is_name_padding(raw[to - 1]) {
        name_end_is_last(raw, to - 1);
    }
}

/// A cleaned name that is not empty is a name as it is kept.
pub proof fn clean_name_is_kept(raw: Seq<char>)
    ensures
        clean_name(raw).len() > 0 ==> is_kept_name(clean_name(raw)),
{
    spaces_end_is_first(raw, 0);
    name_end_is_last(raw, raw.len() as int);
}

/// A mark that is found lies within the piece.
pub proof fn entry_mark_is_within(piece: Seq<char>, from: int)
    requires
        0 <= from,
    ensures
        entry_mark_from(piece, from) matches Some(mark) ==> from <= mark && marks_entry(piece, mark),
    decreases piece.len() - from,
{
    if from < piece.len() && !marks_entry(piece, from) {
        entry_mark_is_within(piece, from + 1);
    }
}

/// The membership of a piece, if it states one, is as it is kept.
pub proof fn piece_is_named(piece: Seq<char>)
    ensures
        all_kept(piece_memberships(piece)),
{
    if let Some(mark) = entry_mark_from(piece, 0) {
        clean_name_is_kept(piece.subrange(run_start(piece, mark), mark));
        entry_mark_is_within(piece, 0);
        digits_end_is_last(piece, mark + 1);
        let end = digits_end(piece, mark + 1);
        let whole = decimal_value(piece.subrange(mark + 1, end));
        if end + 1 < piece.len() {
            digits_end_is_last(piece, end + 1);
            without_final_zeros_is_fraction(whole, piece.subrange(end + 1, digits_end(piece, end + 1)));
        }
    }
}

/// Every membership that a series list states is as it is kept.
pub proof fn memberships_are_named(list: Seq<char>, start: int, at: int)
    requires
        0 <= start <= at <= list.len(),
    ensures
        all_kept(memberships_scan(list, start, at)),
    decreases list.len() - at,
{
    if at >= list.len() {
        piece_is_named(list.subrange(start, list.len() as int));
    } else if list[at] == ';' {
        memberships_are_named(list, at + 1, at + 1);
        let head = piece_memberships(list.subrange(start, at));
        let tail = memberships_scan(list, at + 1, at + 1);
        piece_is_named(list.subrange(start, at));
        assert forall|i: int| 0 <= i < (head + tail).len() implies is_kept(
            #[trigger] (head + tail)[i],
        ) by {
            if i >= head.len() {
                assert((head + tail)[i] == tail[i - head.len()]);
            } else {
                assert((head + tail)[i] == head[i]);
            }
        }
    } else {
        memberships_are_named(list, start, at + 1);
    }
}

/// The digits behind a mark are digits, all that stand there: the piece
/// ends behind them, or goes on with another character.
pub proof fn digits_end_is_last(piece: Seq<char>, from: int)
    requires
        0 <= from <= piece.len(),
    ensures
        from <= digits_end(piece, from) <= piece.len(),
        all_digits(piece.subrange(from, digits_end(piece, from))),
        digits_end(piece, from) == piece.len() || !is_digit(piece[digits_end(piece, from)]),
    decreases piece.len() - from,
{
    if from >= piece.len() || !is_digit(piece[from]) {
    } else {
        digits_end_is_last(piece, from + 1);
        let end = digits_end(piece, from);
        assert forall|i: int| 0 <= i < end - from implies is_digit(
            #[trigger] piece.subrange(from, end)[i],
        ) by {
            if i > 0 {
                assert(piece.subrange(from, end)[i] == piece.subrange(from + 1, end)[i - 1]);
            }
        }
    }
}

/// The membership that one piece states.
pub fn entry_of(piece: &Vec<char>) -> (entry: Option<SeriesInfo>)
    ensures
        match entry {
            Some(info) => membership_of(piece@) == Some(info@),
            None => membership_of(piece@) is None,
        },
{
    let n = piece.len();
    let mut at: usize = 0;
    let mut start: usize = 0;
    while at < n
        invariant
            0 <= start <= at <= n,
            n == piece.len(),
            start == run_start(piece@, at as int),
            entry_mark_from(piece@, 0) == entry_mark_from(piece@, at as int),
        ensures
            at < n ==> marks_entry(piece@, at as int),
        decreases n - at,
    {
        if piece[at] == '#' {
            if at > 0 && piece[at - 1] != '#' && at + 1 < n && is_digit_char(piece[at + 1]) {
                assert(marks_entry(piece@, at as int));
                break;
            }
            assert(!marks_entry(piece@, at as int));
            at += 1;
            start = at;
        } else {
            assert(!marks_entry(piece@, at as int));
            at += 1;
        }
    }
    if at >= n {
        return None;
    }
    assert(entry_mark_from(piece@, at as int) == Some(at as int));
    let mut end: usize = at + 1;
    while end < n && is_digit_char(piece[end])
        invariant
            at + 1 <= end <= n,
            n == piece.len(),
            digits_end(piece@, at + 1) == digits_end(piece@, end as int),
        decreases n - end,
    {
        end += 1;
    }
    proof {
        digits_end_is_last(piece@, at + 1);
    }
    let raw = slice_of(piece, start, at);
    let mut from: usize = 0;
    while from < raw.len() && is_space_char(raw[from])
        invariant
            from <= raw.len(),
            spaces_end(raw@, 0) == spaces_end(raw@, from as int),
        decreases raw.len() - from,
    {
        from += 1;
    }
    let mut to: usize = raw.len();
    while to > 0 && (is_space_char(raw[to - 1]) || raw[to - 1] == ',' || raw[to - 1] == ';')
        invariant
            to <= raw.len(),
            name_end(raw@, raw.len() as int) == name_end(raw@, to as int),
        decreases to,
    {
        to -= 1;
    }
    if from >= to {
        return None;
    }
    let whole = match decimal(piece, at + 1, end) {
        Some(whole) => whole,
        None => {
            return None;
        },
    };
    let volume = if end < n && n - end > 1 && piece[end] == '.' && is_digit_char(piece[end + 1]) {
        let mut stop: usize = end + 1;
        while stop < n && is_digit_char(piece[stop])
            invariant
                end + 1 <= stop <= n,
                n == piece.len(),
                digits_end(piece@, end + 1) == digits_end(piece@, stop as int),
            decreases n - stop,
        {
            stop += 1;
        }
        proof {
            digits_end_is_last(piece@, end + 1);
        }
        Volume::of_digits(whole, piece, end + 1, stop)
    } else {
        Volume::whole(whole)
    };
    Some(SeriesInfo::new(string_of_range(&raw, from, to), volume))
}

/// The memberships that the series list `chars[from..to]` states.
pub fn entries_in(chars: &Vec<char>, from: usize, to: usize) -> (entries: Vec<SeriesInfo>)
    requires
        from <= to <= chars.len(),
    ensures
        memberships_view(entries@) == memberships(chars@.subrange(from as int, to as int)),
{
    let list = slice_of(chars, from, to);
    let n = list.len();
    let mut entries: Vec<SeriesInfo> = Vec::new();
    let mut start: usize = 0;
    let mut at: usize = 0;
    assert(memberships_view(entries@) == Seq::<Membership>::empty());
    loop
        invariant_except_break
            memberships(list@) == memberships_view(entries@) + memberships_scan(
                list@,
                start as int,
                at as int,
            ),
        invariant
            0 <= start <= at <= n,
            n == list.len(),
        ensures
            memberships(list@) == memberships_view(entries@),
        decreases n + 1 - at,
    {
        if at < n && list[at] != ';' {
            at += 1;
        } else {
            let piece = slice_of(&list, start, at);
            let ghost before = memberships_view(entries@);
            match entry_of(&piece) {
                Some(info) => {
                    entries.push(info);
                    assert(memberships_view(entries@) == before + seq![info@]);
                },
                None => {},
            }
            assert(memberships_view(entries@) == before + piece_memberships(piece@));
            if at >= n {
                break;
            }
            at += 1;
            start = at;
        }
    }
    entries
}

} // verus!
