//! The rows of a page of search results.

use crate::cover::{has_token, sanitize_url, sanitized, sanitized_has_no_token, token_at};
use crate::markup::{
    fits_parser, is_parsable, nested_attributes, nested_texts, select_nested_attributes,
    select_nested_texts,
};
use crate::text::{
    chars_of, copy_texts, is_space, starts_with, trim, trimmed, trimmed_has_no_margin,
};
use vstd::prelude::*;
use vstd::string::StringExecFns;

verus! {

/// The origin against which link targets are resolved.
pub const ORIGIN: &'static str = "https://www.goodreads.com";

/// The selector of the elements that hold one book each.
pub const BOOK_SELECTOR: &'static str = "tr[itemscope][itemtype=\"http://schema.org/Book\"]";

/// The selector of a book's title, which links to the book's own page.
pub const TITLE_SELECTOR: &'static str = "a[class=bookTitle]";

/// The selector of the names of a book's authors.
pub const AUTHOR_SELECTOR: &'static str = "a[class=authorName]";

/// The selector of a book's cover image.
pub const COVER_SELECTOR: &'static str = "img[class=bookCover]";

/// The attribute that holds a link's target.
pub const LINK_ATTRIBUTE: &'static str = "href";

/// The attribute that holds an image's source.
pub const SOURCE_ATTRIBUTE: &'static str = "src";

/// One candidate book of a page of search results.
#[derive(Clone, Debug, PartialEq, Eq)]
pub struct Row {
    pub raw_title_series_text: String,
    pub author_names: Vec<String>,
    pub detail_url: String,
    pub cover_url: Option<String>,
}

/// What a `Row` stands for.
pub ghost struct RowView {
    pub title_series: Seq<char>,
    pub authors: Seq<Seq<char>>,
    pub url: Seq<char>,
    pub cover: Option<Seq<char>>,
}

impl View for Row {
    type V = RowView;

    open spec fn view(&self) -> RowView {
        RowView {
            title_series: self.raw_title_series_text@,
            authors: self.author_names.deep_view(),
            url: self.detail_url@,
            cover: self.cover_url.deep_view(),
        }
    }
}

impl RowView {
    /// What holds of every row of a page: its text is not empty and has no
    /// white space at its ends, its address is absolute, and its cover, if
    /// it has one, is an absolute address without a resizing token.
    pub open spec fn wf(self) -> bool {
        &&& self.title_series.len() > 0
        &&& !is_space(self.title_series.first())
        &&& !is_space(self.title_series.last())
        &&& is_absolute(self.url)
        &&& self.cover matches Some(cover) ==> is_absolute(cover) && !has_token(cover)
    }
}

/// What a list of rows stands for, row by row.
pub open spec fn rows_view(rows: Seq<Row>) -> Seq<RowView> {
    rows.map_values(|row: Row| row@)
}

/// Whether `link` names its scheme, `http` or `https`, itself.
pub open spec fn is_absolute(link: Seq<char>) -> bool {
    "http://"@.is_prefix_of(link) || "https://"@.is_prefix_of(link)
}

/// The absolute address that `link` stands for on a page of the origin: the
/// link itself where it is absolute, and else the origin with the link
/// behind it as a path.
pub open spec fn resolved(link: Seq<char>) -> Seq<char> {
    if is_absolute(link) {
        link
    } else if link.len() > 0 && link[0] == '/' {
        ORIGIN@ + link
    } else {
        ORIGIN@ + "/"@ + link
    }
}

/// A resolved address is absolute.
pub proof fn resolved_is_absolute(link: Seq<char>)
    ensures
        is_absolute(resolved(link)),
{
    reveal_strlit("https://www.goodreads.com");
    reveal_strlit("https://");
    if !is_absolute(link) {
        assert(resolved(link).subrange(0, 8) == "https://"@);
    }
}

/// An address without a resizing token, resolved, is without one still.
pub proof fn resolved_has_no_token(link: Seq<char>)
    requires
        !has_token(link),
    ensures
        !has_token(resolved(link)),
{
    reveal_strlit("https://www.goodreads.com");
    reveal_strlit("/");
    if !is_absolute(link) {
        let prefix = if link.len() > 0 && link[0] == '/' {
            ORIGIN@
        } else {
            ORIGIN@ + "/"@
        };
        assert(resolved(link) == prefix + link);
        assert forall|at: int| !token_at(prefix + link, at) by {
            if token_at(prefix + link, at) {
                if at >= prefix.len() {
                    assert(token_at(link, at - prefix.len()));
                } else if at + 1 < prefix.len() {
                    assert((prefix + link)[at + 1] == prefix[at + 1]);
                } else {
                    assert((prefix + link)[at] == prefix[at]);
                }
            }
        }
    }
}

/// What the elements of one book hold: the texts and link targets of its
/// title elements, the texts of its author elements, and the sources of its
/// cover elements.
pub ghost struct BookMarkup {
    pub titles: Seq<Seq<char>>,
    pub links: Seq<Option<Seq<char>>>,
    pub authors: Seq<Seq<char>>,
    pub covers: Seq<Option<Seq<char>>>,
}

/// The cover of a book: the source of its first cover element, sanitized
/// and resolved; none where there is no such element or it has no source.
pub open spec fn cover_of(covers: Seq<Option<Seq<char>>>) -> Option<Seq<char>> {
    if covers.len() > 0 && covers[0] is Some {
        Some(resolved(sanitized(covers[0]->0)))
    } else {
        None
    }
}

/// Whether a book's elements give a row: there is a title element, its text
/// is more than white space, and it has a link target.
pub open spec fn is_usable(book: BookMarkup) -> bool {
    &&& book.titles.len() > 0
    &&& trimmed(book.titles[0]).len() > 0
    &&& book.links.len() > 0
    &&& book.links[0] is Some
}

/// The row that a usable book's elements give: the trimmed text of the
/// first title element, the authors' names in their order, the resolved
/// target of the title's link, and the cover.
pub open spec fn row_of(book: BookMarkup) -> RowView {
    RowView {
        title_series: trimmed(book.titles[0]),
        authors: book.authors,
        url: resolved(book.links[0]->0),
        cover: cover_of(book.covers),
    }
}

/// What was found under the book at `at`; nothing where the table has no
/// such book.
pub open spec fn found_at<T>(table: Option<Seq<Seq<T>>>, at: int) -> Seq<T> {
    match table {
        Some(books) if 0 <= at < books.len() => books[at],
        _ => Seq::empty(),
    }
}

/// What was found in a page of results, book by book.
pub ghost struct PageMarkup {
    pub titles: Option<Seq<Seq<Seq<char>>>>,
    pub links: Option<Seq<Seq<Option<Seq<char>>>>>,
    pub authors: Option<Seq<Seq<Seq<char>>>>,
    pub covers: Option<Seq<Seq<Option<Seq<char>>>>>,
}

impl PageMarkup {
    /// The number of books on the page.
    pub open spec fn len(self) -> int {
        match self.titles {
            Some(books) => books.len() as int,
            None => 0,
        }
    }

    /// What the elements of the book at `at` hold.
    pub open spec fn book(self, at: int) -> BookMarkup {
        BookMarkup {
            titles: found_at(self.titles, at),
            links: found_at(self.links, at),
            authors: found_at(self.authors, at),
            covers: found_at(self.covers, at),
        }
    }

    /// The rows of the first `count` books: a row for each usable book, in
    /// the order of the page; a book that is not usable gives none.
    pub open spec fn rows_of_first(self, count: int) -> Seq<RowView>
        decreases count,
    {
        if count <= 0 {
            Seq::empty()
        } else if is_usable(self.book(count - 1)) {
            self.rows_of_first(count - 1).push(row_of(self.book(count - 1)))
        } else {
            self.rows_of_first(count - 1)
        }
    }

    /// The rows of the page.
    pub open spec fn rows(self) -> Seq<RowView> {
        self.rows_of_first(self.len())
    }

    /// How many of the first `count` books are usable.
    pub open spec fn usable_among_first(self, count: int) -> int
        decreases count,
    {
        if count <= 0 {
            0
        } else if is_usable(self.book(count - 1)) {
            self.usable_among_first(count - 1) + 1
        } else {
            self.usable_among_first(count - 1)
        }
    }

    /// There are as many rows as usable books, and the row of a usable book
    /// stands behind the rows of the usable books before it.
    pub proof fn rows_keep_order(self, count: int, at: int)
        requires
            0 <= at < count,
            is_usable(self.book(at)),
        ensures
            self.rows_of_first(count).len() == self.usable_among_first(count),
            0 <= self.usable_among_first(at) < self.rows_of_first(count).len(),
            self.rows_of_first(count)[self.usable_among_first(at)] == row_of(self.book(at)),
        decreases count,
    {
        self.rows_count(count);
        self.rows_count(at);
        if at < count - 1 {
            self.rows_keep_order(count - 1, at);
        }
    }

    /// Every row of the page is well-formed.
    pub proof fn rows_are_well_formed(self, count: int)
        ensures
            forall|i: int|
                0 <= i < self.rows_of_first(count).len() ==> (#[trigger] self.rows_of_first(
                    count,
                )[i]).wf(),
        decreases count,
    {
        if count > 0 {
            self.rows_are_well_formed(count - 1);
            let book = self.book(count - 1);
            let before = self.rows_of_first(count - 1);
            if is_usable(book) {
                trimmed_has_no_margin(book.titles[0]);
                resolved_is_absolute(book.links[0]->0);
                if book.covers.len() > 0 && book.covers[0] is Some {
                    sanitized_has_no_token(book.covers[0]->0);
                    resolved_has_no_token(sanitized(book.covers[0]->0));
                    resolved_is_absolute(sanitized(book.covers[0]->0));
                }
                assert forall|i: int| 0 <= i < self.rows_of_first(count).len() implies (
                #[trigger] self.rows_of_first(count)[i]).wf() by {
                    if i < before.len() {
                        assert(self.rows_of_first(count)[i] == before[i]);
                    }
                }
            }
        }
    }

    /// There are as many rows as usable books.
    pub proof fn rows_count(self, count: int)
        ensures
            self.rows_of_first(count).len() == self.usable_among_first(count),
            0 <= self.usable_among_first(count),
            count >= 0 ==> self.usable_among_first(count) <= count,
        decreases count,
    {
        if count > 0 {
            self.rows_count(count - 1);
        }
    }
}

/// What the scanner finds in the document `html`; nothing where the
/// document is longer than the parser takes.
pub open spec fn page_markup(html: Seq<char>) -> PageMarkup {
    if is_parsable(html) {
        PageMarkup {
            titles: nested_texts(html, BOOK_SELECTOR@, TITLE_SELECTOR@),
            links: nested_attributes(html, BOOK_SELECTOR@, TITLE_SELECTOR@, LINK_ATTRIBUTE@),
            authors: nested_texts(html, BOOK_SELECTOR@, AUTHOR_SELECTOR@),
            covers: nested_attributes(html, BOOK_SELECTOR@, COVER_SELECTOR@, SOURCE_ATTRIBUTE@),
        }
    } else {
        PageMarkup { titles: None, links: None, authors: None, covers: None }
    }
}

/// The absolute address that `link` stands for.
pub fn resolve(link: &str) -> (address: String)
    ensures
        address@ == resolved(link@),
        is_absolute(address@),
{
    proof {
        resolved_is_absolute(link@);
    }
    let chars = chars_of(link);
    if starts_with(&chars, &chars_of("http://")) || starts_with(&chars, &chars_of("https://")) {
        return String::from_str(link);
    }
    let mut address = String::from_str(ORIGIN);
    if !(chars.len() > 0 && chars[0] == '/') {
        address.append("/");
    }
    address.append(link);
    address
}

/// The row that the elements of one book give, if they give one.
pub fn row_from(
    titles: &Vec<String>,
    links: &Vec<Option<String>>,
    authors: &Vec<String>,
    covers: &Vec<Option<String>>,
) -> (row: Option<Row>)
    ensures
        ({
            let book = BookMarkup {
                titles: titles.deep_view(),
                links: links.deep_view(),
                authors: authors.deep_view(),
                covers: covers.deep_view(),
            };
            match row {
                Some(row) => is_usable(book) && row@ == row_of(book),
                None => !is_usable(book),
            }
        }),
{
    if titles.len() == 0 || links.len() == 0 {
        return None;
    }
    let title = trim(titles[0].as_str());
    if title.as_str().is_empty() {
        return None;
    }
    let url = match &links[0] {
        Some(link) => resolve(link.as_str()),
        None => {
            return None;
        },
    };
    let cover = if covers.len() > 0 {
        match &covers[0] {
            Some(source) => Some(resolve(sanitize_url(source.as_str()).as_str())),
            None => None,
        }
    } else {
        None
    };
    Some(
        Row {
            raw_title_series_text: title,
            author_names: copy_texts(authors),
            detail_url: url,
            cover_url: cover,
        },
    )
}

/// The rows of a page whose books hold what the four tables say, book by
/// book; a table that is `None` holds nothing. A book without a title, or
/// whose title has no link target, gives no row; the others give theirs in
/// the order of the page.
pub fn rows_from(
    titles: &Option<Vec<Vec<String>>>,
    links: &Option<Vec<Vec<Option<String>>>>,
    authors: &Option<Vec<Vec<String>>>,
    covers: &Option<Vec<Vec<Option<String>>>>,
) -> (rows: Vec<Row>)
    ensures
        rows_view(rows@) == (PageMarkup {
            titles: titles.deep_view(),
            links: links.deep_view(),
            authors: authors.deep_view(),
            covers: covers.deep_view(),
        }).rows(),
        forall|i: int| 0 <= i < rows.len() ==> (#[trigger] rows[i])@.wf(),
{
    let ghost page = PageMarkup {
        titles: titles.deep_view(),
        links: links.deep_view(),
        authors: authors.deep_view(),
        covers: covers.deep_view(),
    };
    let mut rows: Vec<Row> = Vec::new();
    let books = match titles {
        Some(books) => books,
        None => {
            assert(rows_view(rows@) =~= page.rows());
            return rows;
        },
    };
    let no_texts: Vec<String> = Vec::new();
    let no_values: Vec<Option<String>> = Vec::new();
    let mut at: usize = 0;
    assert(rows_view(rows@) =~= page.rows_of_first(0));
    while at < books.len()
        invariant
            at <= books.len(),
            titles == Some(*books),
            page == (PageMarkup {
                titles: titles.deep_view(),
                links: links.deep_view(),
                authors: authors.deep_view(),
                covers: covers.deep_view(),
            }),
            no_texts@.len() == 0,
            no_values@.len() == 0,
            rows_view(rows@) == page.rows_of_first(at as int),
        decreases books.len() - at,
    {
        let book_links = match links {
            Some(found) => if at < found.len() {
                &found[at]
            } else {
                &no_values
            },
            None => &no_values,
        };
        let book_authors = match authors {
            Some(found) => if at < found.len() {
                &found[at]
            } else {
                &no_texts
            },
            None => &no_texts,
        };
        let book_covers = match covers {
            Some(found) => if at < found.len() {
                &found[at]
            } else {
                &no_values
            },
            None => &no_values,
        };
        proof {
            let book = page.book(at as int);
            assert(book.titles == books[at as int].deep_view());
            assert(book.links =~= book_links.deep_view());
            assert(book.authors =~= book_authors.deep_view());
            assert(book.covers =~= book_covers.deep_view());
        }
        let ghost before = rows_view(rows@);
        match row_from(&books[at], book_links, book_authors, book_covers) {
            Some(row) => {
                rows.push(row);
                assert(rows_view(rows@) =~= before.push(row@));
            },
            None => {},
        }
        at += 1;
    }
    proof {
        page.rows_are_well_formed(page.len());
        assert forall|i: int| 0 <= i < rows.len() implies (#[trigger] rows[i])@.wf() by {
            assert(rows_view(rows@)[i] == rows[i]@);
        }
    }
    rows
}

/// The rows of a page of search results; none where the document is longer
/// than the parser takes.
pub fn scan(results_document: &str) -> (rows: Vec<Row>)
    ensures
        rows_view(rows@) == page_markup(results_document@).rows(),
        forall|i: int| 0 <= i < rows.len() ==> (#[trigger] rows[i])@.wf(),
{
    if !fits_parser(results_document) {
        return rows_from(&None, &None, &None, &None);
    }
    let titles = select_nested_texts(results_document, BOOK_SELECTOR, TITLE_SELECTOR);
    let links = select_nested_attributes(
        results_document,
        BOOK_SELECTOR,
        TITLE_SELECTOR,
        LINK_ATTRIBUTE,
    );
    let authors = select_nested_texts(results_document, BOOK_SELECTOR, AUTHOR_SELECTOR);
    let covers = select_nested_attributes(
        results_document,
        BOOK_SELECTOR,
        COVER_SELECTOR,
        SOURCE_ATTRIBUTE,
    );
    rows_from(&titles, &links, &authors, &covers)
}

} // verus!
