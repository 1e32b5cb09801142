//! Page counts, as a book's own page states them.

use crate::markup::{fits_parser, is_parsable, select_texts, selected_texts};
use crate::text::{
    all_digits, chars_of, decimal, decimal_value, is_digit, is_digit_char, is_space_char,
    spaces_end, word_end,
};
use vstd::prelude::*;

verus! {

/// The selector of the element that states the page count.
pub const PAGES_SELECTOR: &'static str = "p[data-testid=pagesFormat]";

/// The first word of `text`: what stands between the white space at its
/// start and the next white space. It is empty where there is no word.
pub open spec fn first_word(text: Seq<char>) -> Seq<char> {
    let from = spaces_end(text, 0);
    text.subrange(from, word_end(text, from))
}

/// The digits of a numeral: the word itself, without a plus sign at its
/// start.
pub open spec fn numeral_digits(word: Seq<char>) -> Seq<char> {
    if word.len() > 0 && word[0] == '+' {
        word.drop_first()
    } else {
        word
    }
}

/// Whether `word` is a numeral that an unsigned 64-bit integer can hold:
/// digits, at least one, with or without a plus sign before them.
pub open spec fn is_count(word: Seq<char>) -> bool {
    &&& numeral_digits(word).len() > 0
    &&& all_digits(numeral_digits(word))
    &&& decimal_value(numeral_digits(word)) <= u64::MAX
}

/// The page count that `text` states: the number that its first word
/// stands for, and 0 where that word is no such numeral.
pub open spec fn page_count(text: Seq<char>) -> nat {
    if is_count(first_word(text)) {
        decimal_value(numeral_digits(first_word(text)))
    } else {
        0
    }
}

/// The page count of a document, from the texts of the elements that state
/// it: that of the first, and 0 where there is none.
pub open spec fn stated_pages(texts: Option<Seq<Seq<char>>>) -> nat {
    match texts {
        Some(found) if found.len() > 0 => page_count(found[0]),
        _ => 0,
    }
}

/// The page count that a text states.
pub fn pages_in_text(text: &str) -> (pages: u64)
    ensures
        pages == page_count(text@),
{
    let chars = chars_of(text);
    let n = chars.len();
    let mut from: usize = 0;
    while from < n && is_space_char(chars[from])
        invariant
            from <= n,
            n == chars.len(),
            spaces_end(chars@, 0) == spaces_end(chars@, from as int),
        decreases n - from,
    {
        from += 1;
    }
    let mut to: usize = from;
    while to < n && !is_space_char(chars[to])
        invariant
            from <= to <= n,
            n == chars.len(),
            word_end(chars@, from as int) == word_end(chars@, to as int),
        decreases n - to,
    {
        to += 1;
    }
    let ghost word = chars@.subrange(from as int, to as int);
    assert(word == first_word(text@));
    let start: usize = if from < to && chars[from] == '+' {
        from + 1
    } else {
        from
    };
    assert(chars@.subrange(start as int, to as int) == numeral_digits(word));
    if start >= to {
        return 0;
    }
    let mut i: usize = start;
    while i < to
        invariant
            start <= i <= to <= n,
            n == chars.len(),
            chars@.subrange(start as int, to as int) == numeral_digits(first_word(text@)),
            forall|k: int| start <= k < i ==> is_digit(chars[k]),
        decreases to - i,
    {
        if !is_digit_char(chars[i]) {
            assert(!is_digit(chars@.subrange(start as int, to as int)[i - start]));
            return 0;
        }
        i += 1;
    }
    assert forall|k: int| 0 <= k < to - start implies is_digit(
        #[trigger] chars@.subrange(start as int, to as int)[k],
    ) by {
        assert(is_digit(chars[start + k]));
    }
    match decimal(&chars, start, to) {
        Some(pages) => pages,
        None => 0,
    }
}

/// The page count of the document whose elements that state it have the
/// texts `texts`; `None` stands for a selector that cannot be read.
pub fn pages_from_texts(texts: &Option<Vec<String>>) -> (pages: u64)
    ensures
        pages == stated_pages(texts.deep_view()),
        texts matches Some(found) && found.len() > 0 || pages == 0,
{
    match texts {
        Some(found) => {
            if found.len() > 0 {
                pages_in_text(found[0].as_str())
            } else {
                0
            }
        },
        None => 0,
    }
}

/// The page count that the document states: that of the first element
/// that states one, and 0 where the document has none or is longer than the
/// parser takes.
pub open spec fn document_pages(document: Seq<char>) -> nat {
    if is_parsable(document) {
        stated_pages(selected_texts(document, PAGES_SELECTOR@))
    } else {
        0
    }
}

/// The page count that a book's page states, and 0 where it states none:
/// where the document has no element for it, the element's text does not
/// begin with a numeral, or the document is longer than the parser takes.
pub fn extract_pages_from_url(response: String) -> (pages: u64)
    ensures
        pages == document_pages(response@),
        !is_parsable(response@) ==> pages == 0,
        selected_texts(response@, PAGES_SELECTOR@) matches Some(found) && found.len() > 0 || pages
            == 0,
{
    if !fits_parser(response.as_str()) {
        return 0;
    }
    let texts = select_texts(response.as_str(), PAGES_SELECTOR);
    pages_from_texts(&texts)
}

} // verus!
