use vstd::prelude::*;

use itertools::MultiPeek;
use std::str::Chars;

verus! {

#[verifier::external_type_specification]
#[verifier::external_body]
#[verifier::reject_recursive_types(I)]
pub struct ExMultiPeek<I: Iterator>(MultiPeek<I>);

/// The characters that a stream over a source text has still to hand out.
pub uninterp spec fn unread(it: MultiPeek<Chars>) -> Seq<char>;

/// How far past the next character the stream's lookahead has moved.
pub uninterp spec fn peek_cursor(it: MultiPeek<Chars>) -> nat;

/// Relies on `itertools::multipeek` over `str::chars`: a stream of the
/// characters of `s`, with its lookahead at the start.
#[verifier::external_body]
pub(crate) fn char_stream(s: &str) -> (r: MultiPeek<Chars<'_>>)
    ensures
        unread(r) == s@,
        peek_cursor(r) == 0,
{
    itertools::multipeek(s.chars())
}

/// Relies on `MultiPeek::next`: hands out the next character and puts the
/// lookahead back at the start.
#[verifier::external_body]
pub(crate) fn next_char(it: &mut MultiPeek<Chars<'_>>) -> (r: Option<char>)
    ensures
        peek_cursor(*final(it)) == 0,
        unread(*old(it)).len() == 0 ==> r is None && unread(*final(it)) == unread(*old(it)),
        unread(*old(it)).len() > 0 ==> r == Some(unread(*old(it))[0]) && unread(*final(it))
            == unread(*old(it)).drop_first(),
{
    it.next()
}

/// Relies on `MultiPeek::peek`: the character at the lookahead, which then
/// moves one further; at the end of the stream nothing, and it stays.
#[verifier::external_body]
pub(crate) fn peek_char(it: &mut MultiPeek<Chars<'_>>) -> (r: Option<char>)
    ensures
        unread(*final(it)) == unread(*old(it)),
        peek_cursor(*old(it)) < unread(*old(it)).len() ==> r == Some(
            unread(*old(it))[peek_cursor(*old(it)) as int],
        ) && peek_cursor(*final(it)) == peek_cursor(*old(it)) + 1,
        peek_cursor(*old(it)) >= unread(*old(it)).len() ==> r is None && peek_cursor(*final(it))
            == peek_cursor(*old(it)),
{
    it.peek().copied()
}

/// Relies on `MultiPeek::reset_peek`: puts the lookahead back at the start.
#[verifier::external_body]
pub(crate) fn reset_lookahead(it: &mut MultiPeek<Chars<'_>>)
    ensures
        unread(*final(it)) == unread(*old(it)),
        peek_cursor(*final(it)) == 0,
{
    it.reset_peek()
}

/// The next character of the stream, without taking it; the lookahead is
/// left just past it.
pub(crate) fn lookahead(it: &mut MultiPeek<Chars<'_>>) -> (r: Option<char>)
    ensures
        unread(*final(it)) == unread(*old(it)),
        unread(*old(it)).len() > 0 ==> r == Some(unread(*old(it))[0]) && peek_cursor(*final(it))
            == 1,
        unread(*old(it)).len() == 0 ==> r is None,
{
    reset_lookahead(it);
    peek_char(it)
}

} // verus!
