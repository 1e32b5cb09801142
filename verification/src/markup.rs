//! What the HTML parser finds in a document.

use scraper::{Html, Selector};
use vstd::prelude::*;
use vstd::utf8::encode_utf8;

verus! {

/// The greatest length in bytes of a document that is handed to the parser:
/// half a gibibyte. The parser keeps text in buffers whose lengths are
/// 32-bit numbers and whose capacities grow by powers of two, and it panics
/// where one would pass 2^31 bytes; a character of the document may take
/// three bytes there where the document has one.
pub const MAX_DOCUMENT_LEN: usize = 0x2000_0000;

/// Whether the parser takes the document: its UTF-8 encoding is at most
/// `MAX_DOCUMENT_LEN` bytes long.
pub open spec fn is_parsable(html: Seq<char>) -> bool {
    encode_utf8(html).len() <= MAX_DOCUMENT_LEN
}

/// Whether the parser takes the document.
pub fn fits_parser(html: &str) -> (fits: bool)
    ensures
        fits == is_parsable(html@),
{
    html.as_bytes().len() <= MAX_DOCUMENT_LEN
}

/// What `scraper` finds in the document that `html` parses to: for each
/// element that `selector` matches, in the order in which `Html::select`
/// yields them, its text nodes joined; `None` where `selector` does not
/// parse as a CSS selector.
pub uninterp spec fn selected_texts(html: Seq<char>, selector: Seq<char>) -> Option<
    Seq<Seq<char>>,
>;

/// What `scraper` finds in the document that `html` parses to: for each
/// element that `outer` matches, in the order in which `Html::select` yields
/// them, the elements below it that `inner` matches, in the order in which
/// `ElementRef::select` yields them, each by its text nodes joined; `None`
/// where one of the two does not parse as a CSS selector.
pub uninterp spec fn nested_texts(html: Seq<char>, outer: Seq<char>, inner: Seq<char>) -> Option<
    Seq<Seq<Seq<char>>>,
>;

/// As `nested_texts`, with each element by the value of its attribute
/// `name`, and by `None` where it has no such attribute.
pub uninterp spec fn nested_attributes(
    html: Seq<char>,
    outer: Seq<char>,
    inner: Seq<char>,
    name: Seq<char>,
) -> Option<Seq<Seq<Option<Seq<char>>>>>;

/// Calls `Selector::parse`, `Html::parse_document`, `Html::select` and
/// `ElementRef::text` of `scraper`. Trusted, not proved: the result is a
/// function of the two arguments alone. Nothing is claimed of what it holds.
/// A document above `MAX_DOCUMENT_LEN` is left out: `Html::parse_document`
/// may panic on it.
#[verifier::external_body]
pub(crate) fn select_texts(html: &str, selector: &str) -> (found: Option<Vec<String>>)
    requires
        is_parsable(html@),
    ensures
        found.deep_view() == selected_texts(html@, selector@),
{
    match Selector::parse(selector) {
        Ok(selector) => {
            let document = Html::parse_document(html);
            Some(document.select(&selector).map(|element| element.text().collect()).collect())
        },
        Err(_) => None,
    }
}

/// Calls `Selector::parse`, `Html::parse_document`, `Html::select`,
/// `ElementRef::select` and `ElementRef::text` of `scraper`. Trusted, not
/// proved: the result is a function of the three arguments alone. Nothing
/// is claimed of what it holds. A document above `MAX_DOCUMENT_LEN` is left
/// out: `Html::parse_document` may panic on it.
#[verifier::external_body]
pub(crate) fn select_nested_texts(html: &str, outer: &str, inner: &str) -> (found: Option<
    Vec<Vec<String>>,
>)
    requires
        is_parsable(html@),
    ensures
        found.deep_view() == nested_texts(html@, outer@, inner@),
{
    match (Selector::parse(outer), Selector::parse(inner)) {
        (Ok(outer), Ok(inner)) => {
            let document = Html::parse_document(html);
            Some(
                document.select(&outer).map(
                    |row| row.select(&inner).map(|element| element.text().collect()).collect(),
                ).collect(),
            )
        },
        _ => None,
    }
}

/// Calls `Selector::parse`, `Html::parse_document`, `Html::select`,
/// `ElementRef::select` and `ElementRef::attr` of `scraper`. Trusted, not
/// proved: the result is a function of the four arguments alone. Nothing is
/// claimed of what it holds. A document above `MAX_DOCUMENT_LEN` is left
/// out: `Html::parse_document` may panic on it.
#[verifier::external_body]
pub(crate) fn select_nested_attributes(html: &str, outer: &str, inner: &str, name: &str) -> (found:
    Option<Vec<Vec<Option<String>>>>)
    requires
        is_parsable(html@),
    ensures
        found.deep_view() == nested_attributes(html@, outer@, inner@, name@),
{
    match (Selector::parse(outer), Selector::parse(inner)) {
        (Ok(outer), Ok(inner)) => {
            let document = Html::parse_document(html);
            Some(
                document.select(&outer).map(
                    |row| row.select(&inner).map(|element| element.attr(name).map(String::from)).collect(),
                ).collect(),
            )
        },
        _ => None,
    }
}

} // verus!
