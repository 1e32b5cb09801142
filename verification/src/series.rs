//! Series memberships and their volume numbers.

use crate::text::{
    all_digits, chars_of, decimal_digits, digits_of, is_digit, is_digit_char, string_of,
    string_of_range,
};
use vstd::prelude::*;
use vstd::string::StringExecFns;

verus! {

/// What a `Volume` stands for: the whole part of the number, and the digits
/// behind the decimal point. Volume 2 has no such digits, volume 0.5 the
/// whole part 0 and the one digit 5.
pub ghost struct VolumeView {
    pub whole: nat,
    pub fraction: Seq<char>,
}

impl VolumeView {
    /// Whether the fraction is made of digits and does not end with a 0, so
    /// that two volumes are the same number only if they are equal.
    pub open spec fn wf(self) -> bool {
        &&& all_digits(self.fraction)
        &&& self.fraction.len() > 0 ==> self.fraction.last() != '0'
    }
}

/// The end of what is left of `digits[..to]` without the zeros at its end.
pub open spec fn zeros_start(digits: Seq<char>, to: int) -> int
    decreases to,
{
    if to <= 0 || digits[to - 1] != '0' {
        to
    } else {
        zeros_start(digits, to - 1)
    }
}

/// The digits without the zeros at their end.
pub open spec fn without_final_zeros(digits: Seq<char>) -> Seq<char> {
    digits.take(zeros_start(digits, digits.len() as int))
}

/// The zeros at the end begin within the digits, and not behind a zero.
pub proof fn zeros_start_is_last(digits: Seq<char>, to: int)
    requires
        0 <= to <= digits.len(),
    ensures
        0 <= zeros_start(digits, to) <= to,
        zeros_start(digits, to) > 0 ==> digits[zeros_start(digits, to) - 1] != '0',
        forall|i: int| zeros_start(digits, to) <= i < to ==> digits[i] == '0',
    decreases to,
{
    if to > 0 && digits[to - 1] == '0' {
        zeros_start_is_last(digits, to - 1);
    }
}

/// Where the zeros at the end begin depends on the digits before `to` alone.
pub proof fn zeros_start_of_prefix(digits: Seq<char>, longer: Seq<char>, to: int)
    requires
        0 <= to <= digits.len(),
        digits.is_prefix_of(longer),
    ensures
        zeros_start(longer, to) == zeros_start(digits, to),
    decreases to,
{
    if to > 0 {
        assert(longer[to - 1] == digits[to - 1]);
        if digits[to - 1] == '0' {
            zeros_start_of_prefix(digits, longer, to - 1);
        }
    }
}

/// Zeros behind a fraction do not change it: 2.50 is 2.5, and 2.0 is 2.
pub proof fn final_zeros_are_dropped(digits: Seq<char>, zeros: Seq<char>)
    requires
        forall|i: int| 0 <= i < zeros.len() ==> zeros[i] == '0',
    ensures
        without_final_zeros(digits + zeros) == without_final_zeros(digits),
    decreases zeros.len(),
{
    let all = digits + zeros;
    if zeros.len() == 0 {
        assert(all == digits);
    } else {
        let shorter = digits + zeros.drop_last();
        final_zeros_are_dropped(digits, zeros.drop_last());
        assert(all.last() == zeros.last());
        assert(shorter == all.subrange(0, shorter.len() as int));
        zeros_start_of_prefix(shorter, all, shorter.len() as int);
        zeros_start_is_last(shorter, shorter.len() as int);
        assert(without_final_zeros(all) == without_final_zeros(shorter));
    }
}

/// Digits without the zeros at their end are the fraction of a well-formed
/// volume.
pub proof fn without_final_zeros_is_fraction(whole: nat, digits: Seq<char>)
    requires
        all_digits(digits),
    ensures
        (VolumeView { whole, fraction: without_final_zeros(digits) }).wf(),
{
    zeros_start_is_last(digits, digits.len() as int);
}

/// A volume as a line shows it: the whole part as a numeral, and behind it,
/// where there is a fraction, a point and the fraction's digits.
pub open spec fn volume_line(volume: VolumeView) -> Seq<char> {
    if volume.fraction.len() > 0 {
        decimal_digits(volume.whole) + "."@ + volume.fraction
    } else {
        decimal_digits(volume.whole)
    }
}

/// The number of a book in a series. It may have a fraction: a novella
/// between two volumes is numbered 0.5 or 2.5.
#[derive(Clone, Debug, PartialEq, Eq)]
pub struct Volume {
    whole: u64,
    fraction: String,
}

impl View for Volume {
    type V = VolumeView;

    closed spec fn view(&self) -> VolumeView {
        VolumeView { whole: self.whole as nat, fraction: self.fraction@ }
    }
}

impl Volume {
    /// The volume with the whole number `whole` and no fraction.
    pub fn whole(whole: u64) -> (volume: Self)
        ensures
            volume@ == (VolumeView { whole: whole as nat, fraction: Seq::empty() }),
            volume@.wf(),
    {
        Self { whole, fraction: String::new() }
    }

    /// The volume with the whole part `whole` and the fraction that the
    /// digits `chars[from..to]` state behind the decimal point.
    pub(crate) fn of_digits(whole: u64, chars: &Vec<char>, from: usize, to: usize) -> (volume: Self)
        requires
            from <= to <= chars.len(),
            all_digits(chars@.subrange(from as int, to as int)),
        ensures
            volume@ == (VolumeView {
                whole: whole as nat,
                fraction: without_final_zeros(chars@.subrange(from as int, to as int)),
            }),
            volume@.wf(),
    {
        let ghost digits = chars@.subrange(from as int, to as int);
        let mut stop: usize = to;
        while stop > from && chars[stop - 1] == '0'
            invariant
                from <= stop <= to <= chars.len(),
                digits == chars@.subrange(from as int, to as int),
                zeros_start(digits, digits.len() as int) == zeros_start(digits, stop - from),
            decreases stop,
        {
            assert(digits[stop - from - 1] == chars[stop - 1]);
            stop -= 1;
        }
        proof {
            if stop > from {
                assert(digits[stop - from - 1] == chars[stop - 1]);
            }
            assert(chars@.subrange(from as int, stop as int) == digits.take(stop - from));
            without_final_zeros_is_fraction(whole as nat, digits);
        }
        Self { whole, fraction: string_of_range(chars, from, stop) }
    }

    /// The volume with the whole part `whole` and the fraction that the
    /// digits of `fraction` state behind the decimal point; none where
    /// `fraction` holds anything but ASCII digits. `new(0, "5")` is volume
    /// 0.5, and `new(2, "50")` is volume 2.5.
    pub fn new(whole: u64, fraction: &str) -> (volume: Option<Self>)
        ensures
            match volume {
                Some(volume) => {
                    &&& all_digits(fraction@)
                    &&& volume@ == (VolumeView {
                        whole: whole as nat,
                        fraction: without_final_zeros(fraction@),
                    })
                    &&& volume@.wf()
                },
                None => !all_digits(fraction@),
            },
    {
        let chars = chars_of(fraction);
        let mut i: usize = 0;
        while i < chars.len()
            invariant
                i <= chars.len(),
                chars@ == fraction@,
                forall|k: int| 0 <= k < i ==> is_digit(chars[k]),
            decreases chars.len() - i,
        {
            if !is_digit_char(chars[i]) {
                assert(!is_digit(fraction@[i as int]));
                return None;
            }
            i += 1;
        }
        assert(chars@.subrange(0, chars.len() as int) == chars@);
        Some(Self::of_digits(whole, &chars, 0, chars.len()))
    }

    /// The whole part of the number.
    pub fn whole_part(&self) -> (whole: u64)
        ensures
            whole == self@.whole,
    {
        self.whole
    }

    /// The digits behind the decimal point; none for a whole number.
    pub fn fraction_digits(&self) -> (fraction: String)
        ensures
            fraction@ == self@.fraction,
    {
        self.fraction.clone()
    }

    /// Whether the two volumes are equal.
    pub fn same(&self, other: &Self) -> (same: bool)
        ensures
            same == (self@ == other@),
    {
        self.whole == other.whole && self.fraction == other.fraction
    }

    /// A copy of this volume.
    pub fn copy(&self) -> (volume: Self)
        ensures
            volume@ == self@,
    {
        Self { whole: self.whole, fraction: self.fraction.clone() }
    }

    /// The volume as a line shows it.
    pub fn line(&self) -> (line: String)
        ensures
            line@ == volume_line(self@),
    {
        let mut line = string_of(&digits_of(self.whole));
        if !self.fraction.as_str().is_empty() {
            line.append(".");
            line.append(self.fraction.as_str());
        }
        line
    }
}

/// What a `SeriesInfo` stands for: a series and the number of the book in it.
pub ghost struct Membership {
    pub name: Seq<char>,
    pub volume: VolumeView,
}

/// A membership as a line shows it: the name, and the volume.
pub open spec fn membership_line(membership: Membership) -> Seq<char> {
    membership.name + ", book #"@ + volume_line(membership.volume)
}

/// A book's place in a series.
#[derive(Clone, Debug, PartialEq, Eq)]
pub struct SeriesInfo {
    name: String,
    volume: Volume,
}

impl View for SeriesInfo {
    type V = Membership;

    closed spec fn view(&self) -> Membership {
        Membership { name: self.name@, volume: self.volume@ }
    }
}

/// What a list of memberships stands for, entry by entry.
pub open spec fn memberships_view(list: Seq<SeriesInfo>) -> Seq<Membership> {
    list.map_values(|info: SeriesInfo| info@)
}

/// What an optional list of memberships stands for.
pub open spec fn series_view(series: Option<Vec<SeriesInfo>>) -> Option<Seq<Membership>> {
    match series {
        Some(list) => Some(memberships_view(list@)),
        None => None,
    }
}

impl SeriesInfo {
    /// The membership in the series `name` as its volume `volume`.
    pub fn new(name: String, volume: Volume) -> (info: Self)
        ensures
            info@ == (Membership { name: name@, volume: volume@ }),
    {
        Self { name, volume }
    }

    /// The name of the series.
    pub fn name(&self) -> (name: String)
        ensures
            name@ == self@.name,
    {
        self.name.clone()
    }

    /// The number of the book in the series.
    pub fn volume(&self) -> (volume: Volume)
        ensures
            volume@ == self@.volume,
    {
        self.volume.copy()
    }

    /// Whether the two memberships name the same series and volume.
    pub fn same(&self, other: &Self) -> (same: bool)
        ensures
            same == (self@ == other@),
    {
        self.name == other.name && self.volume.same(&other.volume)
    }

    /// A copy of this membership.
    pub fn copy(&self) -> (info: Self)
        ensures
            info@ == self@,
    {
        Self { name: self.name.clone(), volume: self.volume.copy() }
    }

    /// The membership as a line shows it.
    pub fn line(&self) -> (line: String)
        ensures
            line@ == membership_line(self@),
    {
        let mut line = self.name.clone();
        line.append(", book #");
        line.append(self.volume.line().as_str());
        line
    }
}

} // verus!
