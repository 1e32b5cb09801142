//! The address of a search.

use crate::scan::ORIGIN;
use crate::text::string_of;
use vstd::prelude::*;
use vstd::string::{StringExecFns, StringSliceAdditionalSpecFns};

verus! {

/// The path and the name of the parameter that takes the query.
pub const SEARCH_PATH: &'static str = "/search?q=";

/// What follows the query: the search is for books.
pub const SEARCH_TAIL: &'static str = "&tab=books";

/// Whether the byte may stand in a query as it is: an ASCII letter or
/// digit, a hyphen, a dot, an underscore or a tilde.
pub open spec fn is_unreserved(byte: u8) -> bool {
    ||| 0x61 <= byte <= 0x7A
    ||| 0x41 <= byte <= 0x5A
    ||| 0x30 <= byte <= 0x39
    ||| byte == 0x2D
    ||| byte == 0x2E
    ||| byte == 0x5F
    ||| byte == 0x7E
}

/// The digit that stands for `value` in base sixteen, in upper case.
pub open spec fn hex_digit(value: u8) -> char
    recommends
        value < 16,
{
    if value < 10 {
        (0x30 + value) as u8 as char
    } else {
        (0x37 + value) as u8 as char
    }
}

/// What stands for one byte in a query: the byte itself where it is
/// unreserved, and else a percent sign and its two digits in base sixteen.
pub open spec fn encoded_byte(byte: u8) -> Seq<char> {
    if is_unreserved(byte) {
        seq![byte as char]
    } else {
        seq!['%', hex_digit(byte / 16), hex_digit(byte % 16)]
    }
}

/// The bytes as they stand in a query, one after the other.
pub open spec fn percent_encoded(bytes: Seq<u8>) -> Seq<char>
    decreases bytes.len(),
{
    if bytes.len() == 0 {
        Seq::empty()
    } else {
        percent_encoded(bytes.drop_last()) + encoded_byte(bytes.last())
    }
}

/// The address of the search for the query with these bytes.
pub open spec fn search_address(query: Seq<u8>) -> Seq<char> {
    ORIGIN@ + SEARCH_PATH@ + percent_encoded(query) + SEARCH_TAIL@
}

/// Whether the character may stand in an encoded query: what stands for an
/// unreserved byte, a percent sign, or a digit in base sixteen.
pub open spec fn is_query_char(c: char) -> bool {
    ||| 'a' <= c <= 'z'
    ||| 'A' <= c <= 'Z'
    ||| '0' <= c <= '9'
    ||| c == '-'
    ||| c == '.'
    ||| c == '_'
    ||| c == '~'
    ||| c == '%'
}

/// An encoded query holds nothing that could end it or part it: no
/// character but letters, digits, `-`, `.`, `_`, `~` and `%`.
pub proof fn percent_encoded_is_plain(bytes: Seq<u8>)
    ensures
        forall|i: int|
            0 <= i < percent_encoded(bytes).len() ==> is_query_char(
                #[trigger] percent_encoded(bytes)[i],
            ),
    decreases bytes.len(),
{
    if bytes.len() > 0 {
        percent_encoded_is_plain(bytes.drop_last());
        let head = percent_encoded(bytes.drop_last());
        let tail = encoded_byte(bytes.last());
        assert forall|i: int| 0 <= i < (head + tail).len() implies is_query_char(
            #[trigger] (head + tail)[i],
        ) by {
            if i >= head.len() {
                assert((head + tail)[i] == tail[i - head.len()]);
            }
        }
    }
}

/// The digit that stands for `value` in base sixteen.
fn hex_digit_of(value: u8) -> (digit: char)
    requires
        value < 16,
    ensures
        digit == hex_digit(value),
{
    if value < 10 {
        (0x30 + value) as char
    } else {
        (0x37 + value) as char
    }
}

/// The address of the search for `query`, whose bytes are percent-encoded.
pub fn search_url(query: &str) -> (url: String)
    ensures
        url@ == search_address(query.spec_bytes()),
{
    let bytes = query.as_bytes();
    let mut encoded: Vec<char> = Vec::new();
    let mut i: usize = 0;
    assert(bytes@.take(0) == Seq::<u8>::empty());
    while i < bytes.len()
        invariant
            i <= bytes.len(),
            encoded@ == percent_encoded(bytes@.take(i as int)),
        decreases bytes.len() - i,
    {
        let byte = bytes[i];
        proof {
            assert(bytes@.take(i + 1).drop_last() == bytes@.take(i as int));
            assert(bytes@.take(i + 1).last() == byte);
        }
        let ghost before = encoded@;
        if (0x61 <= byte && byte <= 0x7A) || (0x41 <= byte && byte <= 0x5A) || (0x30 <= byte && byte
            <= 0x39) || byte == 0x2D || byte == 0x2E || byte == 0x5F || byte == 0x7E {
            encoded.push(byte as char);
        } else {
            encoded.push('%');
            encoded.push(hex_digit_of(byte / 16));
            encoded.push(hex_digit_of(byte % 16));
        }
        assert(encoded@ == before + encoded_byte(byte));
        i += 1;
    }
    assert(bytes@.take(bytes.len() as int) == bytes@);
    let mut url = String::from_str(ORIGIN);
    url.append(SEARCH_PATH);
    url.append(string_of(&encoded).as_str());
    url.append(SEARCH_TAIL);
    url
}

} // verus!
