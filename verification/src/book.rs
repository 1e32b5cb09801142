//! Book records.

use crate::cover::has_token;
use crate::entry::all_kept;
use crate::scan::is_absolute;
use crate::series::{Membership, SeriesInfo, membership_line, memberships_view, series_view};
use crate::text::{copy_texts, decimal_digits, digits_of, join, joined, string_of};
use vstd::prelude::*;
use vstd::std_specs::cmp::{PartialEqSpec, PartialEqSpecImpl};
use vstd::string::StringExecFns;

verus! {

/// What a `GoodreadsBook` stands for.
pub ghost struct BookView {
    pub title: Seq<char>,
    pub authors: Seq<Seq<char>>,
    pub pages: nat,
    pub series: Option<Seq<Membership>>,
    pub url: Seq<char>,
    pub cover_image: Option<Seq<char>>,
}

impl BookView {
    /// What holds of a record that was made of a row of search results:
    /// its title is not empty; its series, if it has one, holds at least
    /// one membership, each as it is kept; its address is absolute; and its
    /// cover, if it has one, is an absolute address without a resizing
    /// token.
    pub open spec fn wf(self) -> bool {
        &&& self.title.len() > 0
        &&& self.series matches Some(list) ==> list.len() > 0 && all_kept(list)
        &&& is_absolute(self.url)
        &&& self.cover_image matches Some(cover) ==> is_absolute(cover) && !has_token(cover)
    }
}

/// Whether two records describe the same book: they agree on title,
/// authors, page count and series. The two addresses are not looked at.
pub open spec fn same_book(a: BookView, b: BookView) -> bool {
    &&& a.title == b.title
    &&& a.authors == b.authors
    &&& a.pages == b.pages
    &&& a.series == b.series
}

/// A series as a line shows it: its memberships with `, ` between them, or
/// `None` where there is no series.
pub open spec fn series_line(series: Option<Seq<Membership>>) -> Seq<char> {
    match series {
        Some(list) => joined(list.map_values(|m: Membership| membership_line(m)), ", "@),
        None => "None"@,
    }
}

/// A record as one line of text: title, authors, page count and series.
pub open spec fn book_line(book: BookView) -> Seq<char> {
    book.title + " by "@ + joined(book.authors, ", "@) + ", "@ + decimal_digits(book.pages)
        + " pages, series: "@ + series_line(book.series)
}

/// A book as the catalog describes it. A page count of 0 stands for an
/// unknown one.
#[derive(Clone, Debug)]
pub struct GoodreadsBook {
    title: String,
    authors: Vec<String>,
    pages: u64,
    series_info: Option<Vec<SeriesInfo>>,
    url: String,
    cover_image: Option<String>,
}

impl View for GoodreadsBook {
    type V = BookView;

    closed spec fn view(&self) -> BookView {
        BookView {
            title: self.title@,
            authors: self.authors.deep_view(),
            pages: self.pages as nat,
            series: series_view(self.series_info),
            url: self.url@,
            cover_image: self.cover_image.deep_view(),
        }
    }
}

/// Whether the two lists hold the same texts in the same order.
pub fn same_texts(a: &Vec<String>, b: &Vec<String>) -> (same: bool)
    ensures
        same == (a.deep_view() == b.deep_view()),
{
    if a.len() != b.len() {
        assert(a.deep_view().len() != b.deep_view().len());
        return false;
    }
    let mut i: usize = 0;
    while i < a.len()
        invariant
            i <= a.len(),
            a.len() == b.len(),
            forall|k: int| 0 <= k < i ==> a[k]@ == b[k]@,
        decreases a.len() - i,
    {
        if a[i] != b[i] {
            assert(a.deep_view()[i as int] != b.deep_view()[i as int]);
            return false;
        }
        i += 1;
    }
    assert(a.deep_view() =~= b.deep_view());
    true
}

/// Whether the two lists hold the same memberships in the same order.
pub fn same_memberships(a: &Vec<SeriesInfo>, b: &Vec<SeriesInfo>) -> (same: bool)
    ensures
        same == (memberships_view(a@) == memberships_view(b@)),
{
    if a.len() != b.len() {
        assert(memberships_view(a@).len() != memberships_view(b@).len());
        return false;
    }
    let mut i: usize = 0;
    while i < a.len()
        invariant
            i <= a.len(),
            a.len() == b.len(),
            forall|k: int| 0 <= k < i ==> a[k]@ == b[k]@,
        decreases a.len() - i,
    {
        if !a[i].same(&b[i]) {
            assert(memberships_view(a@)[i as int] != memberships_view(b@)[i as int]);
            return false;
        }
        i += 1;
    }
    assert(memberships_view(a@) =~= memberships_view(b@));
    true
}

/// Whether the two series are both absent, or both there with the same
/// memberships in the same order.
pub fn same_series(a: &Option<Vec<SeriesInfo>>, b: &Option<Vec<SeriesInfo>>) -> (same: bool)
    ensures
        same == (series_view(*a) == series_view(*b)),
{
    match (a, b) {
        (Some(a), Some(b)) => same_memberships(a, b),
        (None, None) => true,
        _ => false,
    }
}

/// Copies of the memberships, in their order.
pub fn copy_series(series: &Option<Vec<SeriesInfo>>) -> (copy: Option<Vec<SeriesInfo>>)
    ensures
        series_view(copy) == series_view(*series),
{
    match series {
        None => None,
        Some(list) => {
            let mut copy: Vec<SeriesInfo> = Vec::new();
            let mut i: usize = 0;
            while i < list.len()
                invariant
                    i <= list.len(),
                    copy.len() == i,
                    forall|k: int| 0 <= k < i ==> copy[k]@ == list[k]@,
                decreases list.len() - i,
            {
                copy.push(list[i].copy());
                i += 1;
            }
            assert(memberships_view(copy@) =~= memberships_view(list@));
            Some(copy)
        },
    }
}

impl GoodreadsBook {
    /// The record with these parts.
    pub fn new(
        title: String,
        authors: Vec<String>,
        pages: u64,
        series_info: Option<Vec<SeriesInfo>>,
        url: String,
        cover_image: Option<String>,
    ) -> (book: Self)
        ensures
            book@ == (BookView {
                title: title@,
                authors: authors.deep_view(),
                pages: pages as nat,
                series: series_view(series_info),
                url: url@,
                cover_image: cover_image.deep_view(),
            }),
    {
        Self { title, authors, pages, series_info, url, cover_image }
    }

    /// The title.
    pub fn title(&self) -> (title: String)
        ensures
            title@ == self@.title,
    {
        self.title.clone()
    }

    /// The names of the authors, in the order of the catalog.
    pub fn authors(&self) -> (authors: Vec<String>)
        ensures
            authors.deep_view() == self@.authors,
    {
        copy_texts(&self.authors)
    }

    /// The page count; 0 where it is unknown.
    pub fn pages(&self) -> (pages: u64)
        ensures
            pages == self@.pages,
    {
        self.pages
    }

    /// The memberships in series, if there are any.
    pub fn series_info(&self) -> (series: Option<Vec<SeriesInfo>>)
        ensures
            series_view(series) == self@.series,
    {
        copy_series(&self.series_info)
    }

    /// The address of the book's own page.
    pub fn url(&self) -> (url: String)
        ensures
            url@ == self@.url,
    {
        self.url.clone()
    }

    /// The address of the cover image, if there is one.
    pub fn cover_image(&self) -> (cover: Option<String>)
        ensures
            cover.deep_view() == self@.cover_image,
    {
        match &self.cover_image {
            Some(cover) => Some(cover.clone()),
            None => None,
        }
    }

    /// The record as one line of text.
    pub fn line(&self) -> (line: String)
        ensures
            line@ == book_line(self@),
    {
        let series = match &self.series_info {
            Some(list) => {
                let mut lines: Vec<String> = Vec::new();
                let mut i: usize = 0;
                while i < list.len()
                    invariant
                        i <= list.len(),
                        lines.len() == i,
                        forall|k: int| 0 <= k < i ==> lines[k]@ == membership_line(list[k]@),
                    decreases list.len() - i,
                {
                    lines.push(list[i].line());
                    i += 1;
                }
                assert(lines.deep_view() =~= memberships_view(list@).map_values(
                    |m: Membership| membership_line(m),
                ));
                join(&lines, ", ")
            },
            None => String::from_str("None"),
        };
        let mut line = self.title.clone();
        line.append(" by ");
        line.append(join(&self.authors, ", ").as_str());
        line.append(", ");
        line.append(string_of(&digits_of(self.pages)).as_str());
        line.append(" pages, series: ");
        line.append(series.as_str());
        line
    }

    /// Whether the two records describe the same book.
    pub fn describes(&self, other: &Self) -> (same: bool)
        ensures
            same == same_book(self@, other@),
    {
        self.title == other.title && same_texts(&self.authors, &other.authors) && self.pages
            == other.pages && same_series(&self.series_info, &other.series_info)
    }
}

impl PartialEq for GoodreadsBook {
    fn eq(&self, other: &Self) -> (same: bool) {
        self.describes(other)
    }
}

impl PartialEqSpecImpl for GoodreadsBook {
    open spec fn obeys_eq_spec() -> bool {
        true
    }

    open spec fn eq_spec(&self, other: &Self) -> bool {
        same_book(self@, other@)
    }
}

/// Records that agree on title, authors, page count and series are equal,
/// whatever their addresses and cover images are.
pub proof fn equality_ignores_addresses(a: GoodreadsBook, b: GoodreadsBook)
    requires
        a@.title == b@.title,
        a@.authors == b@.authors,
        a@.pages == b@.pages,
        a@.series == b@.series,
    ensures
        PartialEqSpec::eq_spec(&a, &b),
{
}

} // verus!
