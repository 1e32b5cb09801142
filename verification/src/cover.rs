//! Cover image addresses without the tokens that ask for a resized image.

use crate::text::{chars_of, is_alnum, is_alnum_char, string_of};
use vstd::prelude::*;

verus! {

/// The width of a resizing token.
pub const TOKEN_LEN: usize = 7;

/// Whether a resizing token stands at `at`: a dot, an underscore, four ASCII
/// letters or digits, and an underscore.
pub open spec fn token_at(url: Seq<char>, at: int) -> bool {
    &&& 0 <= at
    &&& at + 7 <= url.len()
    &&& url[at] == '.'
    &&& url[at + 1] == '_'
    &&& is_alnum(url[at + 2])
    &&& is_alnum(url[at + 3])
    &&& is_alnum(url[at + 4])
    &&& is_alnum(url[at + 5])
    &&& url[at + 6] == '_'
}

/// Whether `url` holds a resizing token anywhere.
pub open spec fn has_token(url: Seq<char>) -> bool {
    exists|at: int| token_at(url, at)
}

/// Whether the last seven characters of `url` are a resizing token.
pub open spec fn ends_with_token(url: Seq<char>) -> bool {
    token_at(url, url.len() - 7)
}

/// What is taken once the character `c` has been taken up behind `taken`:
/// the two together, without the token that `c` may have completed.
pub open spec fn take_up(taken: Seq<char>, c: char) -> Seq<char> {
    let grown = taken.push(c);
    if ends_with_token(grown) {
        grown.take(grown.len() - 7)
    } else {
        grown
    }
}

/// The address without its resizing tokens. The characters are taken up one
/// by one, and a token is dropped as soon as it is complete, so that what
/// stood on both sides of it meets; a token that forms there is dropped too.
pub open spec fn sanitized(url: Seq<char>) -> Seq<char>
    decreases url.len(),
{
    if url.len() == 0 {
        url
    } else {
        take_up(sanitized(url.drop_last()), url.last())
    }
}

/// The address without the tokens that stand in it: read from the left,
/// each token is left out where it is met, and every other character kept.
pub open spec fn stripped(url: Seq<char>) -> Seq<char>
    decreases url.len(),
{
    if url.len() == 0 {
        url
    } else if token_at(url, 0) {
        stripped(url.skip(7))
    } else {
        seq![url[0]] + stripped(url.skip(1))
    }
}

/// What is taken once the characters of `rest` have been taken up behind
/// `taken`, one by one.
pub open spec fn absorbed(taken: Seq<char>, rest: Seq<char>) -> Seq<char>
    decreases rest.len(),
{
    if rest.len() == 0 {
        taken
    } else {
        absorbed(take_up(taken, rest[0]), rest.skip(1))
    }
}

/// Taking up one more character at the end is taking it up last.
pub proof fn absorbed_push(taken: Seq<char>, rest: Seq<char>, c: char)
    ensures
        absorbed(taken, rest.push(c)) == take_up(absorbed(taken, rest), c),
    decreases rest.len(),
{
    if rest.len() == 0 {
        assert(rest.push(c).skip(1) == Seq::<char>::empty());
        assert(absorbed(take_up(taken, c), Seq::empty()) == take_up(taken, c));
    } else {
        assert(rest.push(c).skip(1) == rest.skip(1).push(c));
        absorbed_push(take_up(taken, rest[0]), rest.skip(1), c);
    }
}

/// The sanitized address is what is taken once all its characters have
/// been taken up.
pub proof fn sanitized_is_absorbed(url: Seq<char>)
    ensures
        sanitized(url) == absorbed(Seq::empty(), url),
    decreases url.len(),
{
    if url.len() > 0 {
        sanitized_is_absorbed(url.drop_last());
        absorbed_push(Seq::empty(), url.drop_last(), url.last());
        assert(url.drop_last().push(url.last()) == url);
    }
}

/// A token that is taken up leaves what was taken as it was.
pub proof fn absorbed_token(taken: Seq<char>, rest: Seq<char>)
    requires
        token_at(rest, 0),
    ensures
        absorbed(taken, rest) == absorbed(taken, rest.skip(7)),
{
    let t1 = taken.push(rest[0]);
    let t2 = t1.push(rest[1]);
    let t3 = t2.push(rest[2]);
    let t4 = t3.push(rest[3]);
    let t5 = t4.push(rest[4]);
    let t6 = t5.push(rest[5]);
    let t7 = t6.push(rest[6]);
    assert(take_up(taken, rest[0]) == t1);
    assert(take_up(t1, rest[1]) == t2);
    assert(take_up(t2, rest[2]) == t3);
    assert(take_up(t3, rest[3]) == t4);
    assert(take_up(t4, rest[4]) == t5);
    assert(take_up(t5, rest[5]) == t6);
    assert(ends_with_token(t7));
    assert(t7.take(t7.len() - 7) == taken);
    assert(take_up(t6, rest[6]) == taken);
    let r1 = rest.skip(1);
    let r2 = r1.skip(1);
    let r3 = r2.skip(1);
    let r4 = r3.skip(1);
    let r5 = r4.skip(1);
    let r6 = r5.skip(1);
    assert(r6.skip(1) == rest.skip(7));
    assert(absorbed(taken, rest) == absorbed(t1, r1));
    assert(absorbed(t1, r1) == absorbed(t2, r2));
    assert(absorbed(t2, r2) == absorbed(t3, r3));
    assert(absorbed(t3, r3) == absorbed(t4, r4));
    assert(absorbed(t4, r4) == absorbed(t5, r5));
    assert(absorbed(t5, r5) == absorbed(t6, r6));
    assert(absorbed(t6, r6) == absorbed(taken, r6.skip(1)));
}

/// Where leaving out the tokens behind `taken` gives a text without a
/// token, taking the characters up behind `taken` gives that text.
pub proof fn absorbed_is_stripped(taken: Seq<char>, rest: Seq<char>)
    requires
        !has_token(taken + stripped(rest)),
    ensures
        absorbed(taken, rest) == taken + stripped(rest),
    decreases rest.len(),
{
    if rest.len() == 0 {
        assert(taken + stripped(rest) == taken);
    } else if token_at(rest, 0) {
        absorbed_token(taken, rest);
        absorbed_is_stripped(taken, rest.skip(7));
    } else {
        let grown = taken.push(rest[0]);
        let whole = taken + stripped(rest);
        assert(whole == grown + stripped(rest.skip(1)));
        if ends_with_token(grown) {
            assert(token_at(whole, grown.len() - 7));
        }
        absorbed_is_stripped(grown, rest.skip(1));
    }
}

/// Where leaving out the tokens that stand in an address gives one without
/// a token, that is the sanitized address.
pub proof fn sanitized_is_stripped(url: Seq<char>)
    requires
        !has_token(stripped(url)),
    ensures
        sanitized(url) == stripped(url),
{
    sanitized_is_absorbed(url);
    assert(Seq::<char>::empty() + stripped(url) == stripped(url));
    absorbed_is_stripped(Seq::empty(), url);
}

/// A sanitized address holds no resizing token.
pub proof fn sanitized_has_no_token(url: Seq<char>)
    ensures
        !has_token(sanitized(url)),
    decreases url.len(),
{
    if url.len() > 0 {
        let kept = sanitized(url.drop_last());
        let taken = kept.push(url.last());
        sanitized_has_no_token(url.drop_last());
        assert forall|at: int| !token_at(sanitized(url), at) by {
            if token_at(sanitized(url), at) {
                if ends_with_token(taken) {
                    assert(token_at(kept, at));
                } else {
                    assert(at + 7 <= kept.len() ==> token_at(kept, at));
                }
            }
        }
    }
}

/// An address without a resizing token is left as it is.
pub proof fn sanitized_keeps_clean(url: Seq<char>)
    requires
        !has_token(url),
    ensures
        sanitized(url) == url,
    decreases url.len(),
{
    if url.len() > 0 {
        assert forall|at: int| !token_at(url.drop_last(), at) by {
            if token_at(url.drop_last(), at) {
                assert(token_at(url, at));
            }
        }
        sanitized_keeps_clean(url.drop_last());
        assert(url.drop_last().push(url.last()) == url);
    }
}

/// Sanitizing twice gives what sanitizing once gives.
pub proof fn sanitize_is_idempotent(url: Seq<char>)
    ensures
        sanitized(sanitized(url)) == sanitized(url),
{
    sanitized_has_no_token(url);
    sanitized_keeps_clean(sanitized(url));
}

/// Whether the characters taken so far end with a resizing token.
fn token_ends(taken: &Vec<char>) -> (ends: bool)
    ensures
        ends == ends_with_token(taken@),
{
    let n = taken.len();
    n >= TOKEN_LEN && taken[n - 7] == '.' && taken[n - 6] == '_' && is_alnum_char(taken[n - 5])
        && is_alnum_char(taken[n - 4]) && is_alnum_char(taken[n - 3]) && is_alnum_char(
        taken[n - 2],
    ) && taken[n - 1] == '_'
}

/// Removes the resizing tokens from a cover image address.
pub fn sanitize_url(dirty_url: &str) -> (clean: String)
    ensures
        clean@ == sanitized(dirty_url@),
        !has_token(clean@),
        !has_token(dirty_url@) ==> clean@ == dirty_url@,
        !has_token(stripped(dirty_url@)) ==> clean@ == stripped(dirty_url@),
{
    let chars = chars_of(dirty_url);
    let mut taken: Vec<char> = Vec::new();
    let mut i: usize = 0;
    assert(chars@.take(0) == Seq::<char>::empty());
    while i < chars.len()
        invariant
            i <= chars.len(),
            taken@ == sanitized(chars@.take(i as int)),
        decreases chars.len() - i,
    {
        proof {
            assert(chars@.take(i + 1).drop_last() == chars@.take(i as int));
        }
        taken.push(chars[i]);
        if token_ends(&taken) {
            taken.truncate(taken.len() - TOKEN_LEN);
        }
        i += 1;
    }
    proof {
        assert(chars@.take(chars.len() as int) == chars@);
        sanitized_has_no_token(chars@);
        if !has_token(chars@) {
            sanitized_keeps_clean(chars@);
        }
        if !has_token(stripped(chars@)) {
            sanitized_is_stripped(chars@);
        }
    }
    string_of(&taken)
}

} // verus!
