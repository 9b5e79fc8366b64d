use vstd::prelude::*;

use crate::expr::{LiteralType, LiteralValue};
use crate::text::{append_range, chars_of, string_of, text_of};
use crate::stream::{char_stream, lookahead, next_char, peek_char, peek_cursor, unread};
use crate::token::{Token, TokenType, TokenView};
use itertools::MultiPeek;
use std::str::Chars;

verus! {

/// A problem found while scanning. Scanning goes on after each one.
#[derive(Debug, Clone, Copy, PartialEq, Eq, Structural)]
pub enum ScanError {
    /// A character that begins no token.
    UnexpectedCharacter { character: char, line: usize },
    /// A string literal still open at the end of the source; no token is made of it.
    UnterminatedString { line: usize },
}

/// What a scan produces: the tokens, ending with one end-of-input token, and
/// the problems met on the way, in source order.
pub struct ScanOutput {
    pub tokens: Vec<Token>,
    pub errors: Vec<ScanError>,
}

/// The result of scanning, as mathematical sequences.
pub struct Lexed {
    pub tokens: Seq<TokenView>,
    pub errors: Seq<ScanError>,
}

/// Whether `c` has Unicode's Alphabetic property.
pub uninterp spec fn alphabetic(c: char) -> bool;

/// Whether `c` is alphabetic or has a Unicode numeric property.
pub uninterp spec fn alphanumeric(c: char) -> bool;

/// Relies on `char::is_alphabetic`.
#[verifier::external_body]
fn is_alphabetic(c: char) -> (r: bool)
    ensures
        r == alphabetic(c),
{
    c.is_alphabetic()
}

/// Relies on `char::is_alphanumeric`.
#[verifier::external_body]
fn is_alphanumeric(c: char) -> (r: bool)
    ensures
        r == alphanumeric(c),
{
    c.is_alphanumeric()
}

pub open spec fn is_digit(c: char) -> bool {
    '0' <= c <= '9'
}

pub open spec fn starts_identifier(c: char) -> bool {
    alphabetic(c) || c == '_'
}

pub open spec fn continues_identifier(c: char) -> bool {
    alphanumeric(c) || c == '_'
}

/// The kind of a token made of the single character `c`, for characters
/// that never begin a longer token.
pub open spec fn single_kind(c: char) -> Option<TokenType> {
    if c == '(' {
        Some(TokenType::LeftParen)
    } else if c == ')' {
        Some(TokenType::RightParen)
    } else if c == '{' {
        Some(TokenType::LeftBrace)
    } else if c == '}' {
        Some(TokenType::RightBrace)
    } else if c == ',' {
        Some(TokenType::Comma)
    } else if c == '.' {
        Some(TokenType::Dot)
    } else if c == '-' {
        Some(TokenType::Minus)
    } else if c == '+' {
        Some(TokenType::Plus)
    } else if c == ';' {
        Some(TokenType::Semicolon)
    } else if c == '*' {
        Some(TokenType::Star)
    } else {
        None
    }
}

/// For a character that may be followed by `=`: the kind alone and the kind
/// with the `=`.
pub open spec fn operator_kinds(c: char) -> Option<(TokenType, TokenType)> {
    if c == '!' {
        Some((TokenType::Bang, TokenType::BangEqual))
    } else if c == '=' {
        Some((TokenType::Equal, TokenType::EqualEqual))
    } else if c == '<' {
        Some((TokenType::Less, TokenType::LessEqual))
    } else if c == '>' {
        Some((TokenType::Greater, TokenType::GreaterEqual))
    } else {
        None
    }
}

/// The reserved word spelled by `w`, if any.
pub open spec fn keyword_kind(w: Seq<char>) -> Option<TokenType> {
    if w == seq!['a', 'n', 'd'] {
        Some(TokenType::And)
    } else if w == seq!['c', 'l', 'a', 's', 's'] {
        Some(TokenType::Class)
    } else if w == seq!['e', 'l', 's', 'e'] {
        Some(TokenType::Else)
    } else if w == seq!['f', 'a', 'l', 's', 'e'] {
        Some(TokenType::False)
    } else if w == seq!['f', 'o', 'r'] {
        Some(TokenType::For)
    } else if w == seq!['f', 'u', 'n'] {
        Some(TokenType::Fun)
    } else if w == seq!['i', 'f'] {
        Some(TokenType::If)
    } else if w == seq!['n', 'i', 'l'] {
        Some(TokenType::Nil)
    } else if w == seq!['o', 'r'] {
        Some(TokenType::Or)
    } else if w == seq!['p', 'r', 'i', 'n', 't'] {
        Some(TokenType::Print)
    } else if w == seq!['r', 'e', 't', 'u', 'r', 'n'] {
        Some(TokenType::Return)
    } else if w == seq!['s', 'u', 'p', 'e', 'r'] {
        Some(TokenType::Super)
    } else if w == seq!['t', 'h', 'i', 's'] {
        Some(TokenType::This)
    } else if w == seq!['t', 'r', 'u', 'e'] {
        Some(TokenType::True)
    } else if w == seq!['v', 'a', 'r'] {
        Some(TokenType::Var)
    } else if w == seq!['w', 'h', 'i', 'l', 'e'] {
        Some(TokenType::While)
    } else {
        None
    }
}

/// The end of the run of digits that starts at `i`.
pub open spec fn digits_end(s: Seq<char>, i: int) -> int
    decreases s.len() - i,
{
    if 0 <= i < s.len() && is_digit(s[i]) {
        digits_end(s, i + 1)
    } else {
        i
    }
}

/// The end of the run of identifier characters that starts at `i`.
pub open spec fn identifier_end(s: Seq<char>, i: int) -> int
    decreases s.len() - i,
{
    if 0 <= i < s.len() && continues_identifier(s[i]) {
        identifier_end(s, i + 1)
    } else {
        i
    }
}

/// The first line feed at or after `i`, or the end of `s`.
pub open spec fn line_end(s: Seq<char>, i: int) -> int
    decreases s.len() - i,
{
    if 0 <= i < s.len() && s[i] != '\n' {
        line_end(s, i + 1)
    } else {
        i
    }
}

/// The first double quote at or after `i`, or the end of `s`.
pub open spec fn closing_quote(s: Seq<char>, i: int) -> int
    decreases s.len() - i,
{
    if 0 <= i < s.len() && s[i] != '"' {
        closing_quote(s, i + 1)
    } else {
        i
    }
}

/// The end of the number literal that starts at `i`: its digits, and a dot
/// with the digits after it only where at least one digit follows the dot.
pub open spec fn number_end(s: Seq<char>, i: int) -> int {
    let e = digits_end(s, i);
    if e + 1 < s.len() && s[e] == '.' && is_digit(s[e + 1]) {
        digits_end(s, e + 1)
    } else {
        e
    }
}

/// The number of line feeds in `t`.
pub open spec fn newlines(t: Seq<char>) -> nat
    decreases t.len(),
{
    if t.len() == 0 {
        0
    } else {
        newlines(t.drop_last()) + if t.last() == '\n' {
            1nat
        } else {
            0nat
        }
    }
}

pub open spec fn trim_leading_zeros(d: Seq<char>) -> Seq<char>
    decreases d.len(),
{
    if d.len() > 1 && d[0] == '0' {
        trim_leading_zeros(d.drop_first())
    } else {
        d
    }
}

pub open spec fn trim_trailing_zeros(d: Seq<char>) -> Seq<char>
    decreases d.len(),
{
    if d.len() > 0 && d.last() == '0' {
        trim_trailing_zeros(d.drop_last())
    } else {
        d
    }
}

/// The canonical text of the number with integer digits `whole` and
/// fraction digits `fraction`.
pub open spec fn canonical_number(whole: Seq<char>, fraction: Seq<char>) -> Seq<char> {
    let f = trim_trailing_zeros(fraction);
    if f.len() == 0 {
        trim_leading_zeros(whole)
    } else {
        trim_leading_zeros(whole) + seq!['.'] + f
    }
}

/// The value of the number literal `s[i..number_end(s, i)]`.
pub open spec fn number_value(s: Seq<char>, i: int) -> Seq<char> {
    let w = digits_end(s, i);
    let e = number_end(s, i);
    if e > w {
        canonical_number(s.subrange(i, w), s.subrange(w + 1, e))
    } else {
        canonical_number(s.subrange(i, w), seq![])
    }
}

pub open spec fn plain_token(kind: TokenType, s: Seq<char>, start: int, end: int, line: nat) -> TokenView {
    TokenView { kind, lexeme: s.subrange(start, end), literal: None, line: line as usize }
}

pub open spec fn end_token(line: nat) -> TokenView {
    TokenView { kind: TokenType::Eof, lexeme: seq![], literal: None, line: line as usize }
}

pub open spec fn emit(t: TokenView, rest: Lexed) -> Lexed {
    Lexed { tokens: seq![t] + rest.tokens, errors: rest.errors }
}

pub open spec fn report(e: ScanError, rest: Lexed) -> Lexed {
    Lexed { tokens: rest.tokens, errors: seq![e] + rest.errors }
}

/// Scanning `s` from position `pos`, on line `line`: the lexical grammar.
pub open spec fn lex(s: Seq<char>, pos: nat, line: nat) -> Lexed
    decreases s.len() - pos,
    via lex_decreases
{
    if pos >= s.len() {
        Lexed { tokens: seq![end_token(line)], errors: seq![] }
    } else {
        let c = s[pos as int];
        let p = pos as int;
        let next_is_eq = p + 1 < s.len() && s[p + 1] == '=';
        if single_kind(c) is Some {
            emit(plain_token(single_kind(c)->0, s, p, p + 1, line), lex(s, pos + 1, line))
        } else if operator_kinds(c) is Some {
            let (alone, with_eq) = operator_kinds(c)->0;
            if next_is_eq {
                emit(plain_token(with_eq, s, p, p + 2, line), lex(s, pos + 2, line))
            } else {
                emit(plain_token(alone, s, p, p + 1, line), lex(s, pos + 1, line))
            }
        } else if c == '/' {
            if p + 1 < s.len() && s[p + 1] == '/' {
                lex(s, line_end(s, p + 2) as nat, line)
            } else {
                emit(plain_token(TokenType::Slash, s, p, p + 1, line), lex(s, pos + 1, line))
            }
        } else if c == ' ' || c == '\t' || c == '\r' {
            lex(s, pos + 1, line)
        } else if c == '\n' {
            lex(s, pos + 1, line + 1)
        } else if c == '"' {
            let close = closing_quote(s, p + 1);
            if close < s.len() {
                let after = line + newlines(s.subrange(p, close + 1));
                let t = TokenView {
                    kind: TokenType::String,
                    lexeme: s.subrange(p, close + 1),
                    literal: Some(LiteralValue::Str(s.subrange(p + 1, close))),
                    line: after as usize,
                };
                emit(t, lex(s, (close + 1) as nat, after))
            } else {
                let after = line + newlines(s.subrange(p, s.len() as int));
                report(ScanError::UnterminatedString { line: after as usize }, lex(s, s.len(), after))
            }
        } else if is_digit(c) {
            let e = number_end(s, p);
            let t = TokenView {
                kind: TokenType::Number,
                lexeme: s.subrange(p, e),
                literal: Some(LiteralValue::Num(number_value(s, p))),
                line: line as usize,
            };
            emit(t, lex(s, e as nat, line))
        } else if starts_identifier(c) {
            let e = identifier_end(s, p + 1);
            let kind = match keyword_kind(s.subrange(p, e)) {
                Some(k) => k,
                None => TokenType::Identifier,
            };
            emit(plain_token(kind, s, p, e, line), lex(s, e as nat, line))
        } else {
            report(
                ScanError::UnexpectedCharacter { character: c, line: line as usize },
                lex(s, pos + 1, line),
            )
        }
    }
}

proof fn lemma_digits_end(s: Seq<char>, i: int)
    requires
        0 <= i <= s.len(),
    ensures
        i <= digits_end(s, i) <= s.len(),
    decreases s.len() - i,
{
    if i < s.len() && is_digit(s[i]) {
        lemma_digits_end(s, i + 1);
    }
}

proof fn lemma_identifier_end(s: Seq<char>, i: int)
    requires
        0 <= i <= s.len(),
    ensures
        i <= identifier_end(s, i) <= s.len(),
    decreases s.len() - i,
{
    if i < s.len() && continues_identifier(s[i]) {
        lemma_identifier_end(s, i + 1);
    }
}

proof fn lemma_line_end(s: Seq<char>, i: int)
    requires
        0 <= i <= s.len(),
    ensures
        i <= line_end(s, i) <= s.len(),
    decreases s.len() - i,
{
    if i < s.len() && s[i] != '\n' {
        lemma_line_end(s, i + 1);
    }
}

proof fn lemma_closing_quote(s: Seq<char>, i: int)
    requires
        0 <= i <= s.len(),
    ensures
        i <= closing_quote(s, i) <= s.len(),
    decreases s.len() - i,
{
    if i < s.len() && s[i] != '"' {
        lemma_closing_quote(s, i + 1);
    }
}

proof fn lemma_number_end(s: Seq<char>, i: int)
    requires
        0 <= i < s.len(),
        is_digit(s[i]),
    ensures
        i < digits_end(s, i) <= number_end(s, i) <= s.len(),
{
    lemma_digits_end(s, i + 1);
    let e = digits_end(s, i);
    if e + 1 < s.len() && s[e] == '.' && is_digit(s[e + 1]) {
        lemma_digits_end(s, e + 1);
    }
}

#[via_fn]
proof fn lex_decreases(s: Seq<char>, pos: nat, line: nat) {
    if pos < s.len() {
        let p = pos as int;
        if p + 2 <= s.len() {
            lemma_line_end(s, p + 2);
        }
        if p + 1 <= s.len() {
            lemma_closing_quote(s, p + 1);
            lemma_identifier_end(s, p + 1);
        }
        if is_digit(s[p]) {
            lemma_number_end(s, p);
        }
    }
}

pub open spec fn token_views(ts: Seq<Token>) -> Seq<TokenView> {
    ts.map_values(|t: Token| t@)
}

pub open spec fn option_view(t: Option<Token>) -> Option<TokenView> {
    match t {
        Some(t) => Some(t@),
        None => None,
    }
}

/// What one step of scanning adds in front of the rest: a token, an error, or nothing.
pub open spec fn step_result(t: Option<TokenView>, e: Option<ScanError>, rest: Lexed) -> Lexed {
    match t {
        Some(t) => emit(t, rest),
        None => match e {
            Some(e) => report(e, rest),
            None => rest,
        },
    }
}

fn word_is(w: &Vec<char>, k: &[char]) -> (r: bool)
    ensures
        r == (w@ == k@),
{
    if w.len() != k.len() {
        return false;
    }
    let mut i: usize = 0;
    while i < w.len()
        invariant
            w@.len() == k@.len(),
            0 <= i <= w@.len(),
            forall|j: int| 0 <= j < i ==> w@[j] == k@[j],
        decreases w@.len() - i,
    {
        if w[i] != k[i] {
            return false;
        }
        i = i + 1;
    }
    assert(w@ =~= k@);
    true
}

/// The reserved word spelled by `w`, if any.
fn keyword_kind_of(w: &Vec<char>) -> (r: Option<TokenType>)
    ensures
        r == keyword_kind(w@),
{
    if word_is(w, &['a', 'n', 'd']) {
        Some(TokenType::And)
    } else if word_is(w, &['c', 'l', 'a', 's', 's']) {
        Some(TokenType::Class)
    } else if word_is(w, &['e', 'l', 's', 'e']) {
        Some(TokenType::Else)
    } else if word_is(w, &['f', 'a', 'l', 's', 'e']) {
        Some(TokenType::False)
    } else if word_is(w, &['f', 'o', 'r']) {
        Some(TokenType::For)
    } else if word_is(w, &['f', 'u', 'n']) {
        Some(TokenType::Fun)
    } else if word_is(w, &['i', 'f']) {
        Some(TokenType::If)
    } else if word_is(w, &['n', 'i', 'l']) {
        Some(TokenType::Nil)
    } else if word_is(w, &['o', 'r']) {
        Some(TokenType::Or)
    } else if word_is(w, &['p', 'r', 'i', 'n', 't']) {
        Some(TokenType::Print)
    } else if word_is(w, &['r', 'e', 't', 'u', 'r', 'n']) {
        Some(TokenType::Return)
    } else if word_is(w, &['s', 'u', 'p', 'e', 'r']) {
        Some(TokenType::Super)
    } else if word_is(w, &['t', 'h', 'i', 's']) {
        Some(TokenType::This)
    } else if word_is(w, &['t', 'r', 'u', 'e']) {
        Some(TokenType::True)
    } else if word_is(w, &['v', 'a', 'r']) {
        Some(TokenType::Var)
    } else if word_is(w, &['w', 'h', 'i', 'l', 'e']) {
        Some(TokenType::While)
    } else {
        None
    }
}

/// The stream `it` has read `s` up to `pos`.
pub open spec fn reads_at(it: MultiPeek<Chars>, s: Seq<char>, pos: int) -> bool {
    unread(it) == s.subrange(pos, s.len() as int)
}

/// Takes the character at `pos` from the stream.
fn take(it: &mut MultiPeek<Chars<'_>>, s: &Vec<char>, pos: usize) -> (r: char)
    requires
        pos < s@.len(),
        reads_at(*old(it), s@, pos as int),
    ensures
        r == s@[pos as int],
        reads_at(*final(it), s@, pos + 1),
{
    assert(s@.subrange(pos as int, s@.len() as int).drop_first() =~= s@.subrange(
        pos + 1,
        s@.len() as int,
    ));
    match next_char(it) {
        Some(c) => c,
        None => s[pos],
    }
}

/// The character at `pos`, left in the stream.
fn peek_at(it: &mut MultiPeek<Chars<'_>>, s: &Vec<char>, pos: usize) -> (r: Option<char>)
    requires
        pos <= s@.len(),
        reads_at(*old(it), s@, pos as int),
    ensures
        reads_at(*final(it), s@, pos as int),
        pos < s@.len() ==> r == Some(s@[pos as int]) && peek_cursor(*final(it)) == 1,
        pos == s@.len() ==> r is None,
{
    lookahead(it)
}

/// The character after the one at `pos`, once that one was looked at.
fn peek_second(it: &mut MultiPeek<Chars<'_>>, s: &Vec<char>, pos: usize) -> (r: Option<char>)
    requires
        pos < s@.len(),
        reads_at(*old(it), s@, pos as int),
        peek_cursor(*old(it)) == 1,
    ensures
        reads_at(*final(it), s@, pos as int),
        pos + 1 < s@.len() ==> r == Some(s@[pos + 1]),
        pos + 1 == s@.len() ==> r is None,
{
    peek_char(it)
}

/// Reads the run of digits that starts at `i`; returns where it ends.
fn skip_digits(it: &mut MultiPeek<Chars<'_>>, s: &Vec<char>, i: usize) -> (r: usize)
    requires
        i <= s@.len() < usize::MAX,
        reads_at(*old(it), s@, i as int),
    ensures
        r == digits_end(s@, i as int),
        i <= r <= s@.len(),
        reads_at(*final(it), s@, r as int),
{
    let mut j: usize = i;
    loop
        invariant
            i <= j <= s@.len() < usize::MAX,
            reads_at(*it, s@, j as int),
            digits_end(s@, j as int) == digits_end(s@, i as int),
        ensures
            j == digits_end(s@, i as int),
            reads_at(*it, s@, j as int),
            i <= j <= s@.len(),
        decreases s@.len() - j,
    {
        match peek_at(it, s, j) {
            Some(c) => {
                if '0' <= c && c <= '9' {
                    take(it, s, j);
                    j = j + 1;
                } else {
                    break ;
                }
            },
            None => break ,
        }
    }
    j
}

/// Drops the rest of a line comment, from `i` up to the next line feed
/// (left unread) or the end of the source; returns where it stopped.
fn ignore_until_new_line(it: &mut MultiPeek<Chars<'_>>, s: &Vec<char>, i: usize) -> (r: usize)
    requires
        i <= s@.len() < usize::MAX,
        reads_at(*old(it), s@, i as int),
    ensures
        r == line_end(s@, i as int),
        i <= r <= s@.len(),
        reads_at(*final(it), s@, r as int),
{
    let mut j: usize = i;
    loop
        invariant
            i <= j <= s@.len() < usize::MAX,
            reads_at(*it, s@, j as int),
            line_end(s@, j as int) == line_end(s@, i as int),
        ensures
            j == line_end(s@, i as int),
            reads_at(*it, s@, j as int),
            i <= j <= s@.len(),
        decreases s@.len() - j,
    {
        match peek_at(it, s, j) {
            Some(c) => {
                if c != '\n' {
                    take(it, s, j);
                    j = j + 1;
                } else {
                    break ;
                }
            },
            None => break ,
        }
    }
    j
}

/// Reads the string literal whose opening quote at `start` was taken, on
/// line `line`: the position of the closing quote (the end of the source if
/// there is none), taken too, and the line reached there.
fn read_string(it: &mut MultiPeek<Chars<'_>>, s: &Vec<char>, start: usize, line: usize) -> (r: (
    usize,
    usize,
))
    requires
        start < s@.len() < usize::MAX,
        s@[start as int] == '"',
        line <= start + 1,
        reads_at(*old(it), s@, start + 1),
    ensures
        r.0 == closing_quote(s@, start + 1),
        start < r.0 <= s@.len(),
        r.0 < s@.len() ==> r.1 == line + newlines(s@.subrange(start as int, r.0 + 1)) && reads_at(
            *final(it),
            s@,
            r.0 + 1,
        ),
        r.0 == s@.len() ==> r.1 == line + newlines(s@.subrange(start as int, s@.len() as int))
            && reads_at(*final(it), s@, r.0 as int),
        line <= r.1 <= line + (r.0 - start),
{
    let mut j: usize = start + 1;
    let mut l: usize = line;
    proof {
        let t = s@.subrange(start as int, start + 1);
        assert(t.drop_last() =~= Seq::<char>::empty());
        assert(newlines(t.drop_last()) == 0);
        assert(t.last() == s@[start as int]);
    }
    loop
        invariant
            start < j <= s@.len() < usize::MAX,
            line <= start + 1,
            reads_at(*it, s@, j as int),
            closing_quote(s@, j as int) == closing_quote(s@, start + 1),
            l == line + newlines(s@.subrange(start as int, j as int)),
            line <= l <= line + (j - start),
        ensures
            start < j <= s@.len(),
            j == closing_quote(s@, start + 1),
            l == line + newlines(s@.subrange(start as int, j as int)),
            line <= l <= line + (j - start),
            reads_at(*it, s@, j as int),
            j < s@.len() ==> s@[j as int] == '"',
        decreases s@.len() - j,
    {
        match peek_at(it, s, j) {
            Some(c) => {
                if c == '"' {
                    break ;
                }
                take(it, s, j);
                assert(s@.subrange(start as int, j + 1).drop_last() =~= s@.subrange(
                    start as int,
                    j as int,
                ));
                if c == '\n' {
                    l = l + 1;
                }
                j = j + 1;
            },
            None => break ,
        }
    }
    if j < s.len() {
        take(it, s, j);
        assert(s@.subrange(start as int, j + 1).drop_last() =~= s@.subrange(start as int, j as int));
    }
    (j, l)
}

/// Removes leading zeros from the digits `s[start..end]`, keeping at least one.
fn skip_leading_zeros(s: &Vec<char>, start: usize, end: usize) -> (r: usize)
    requires
        start < end <= s@.len(),
    ensures
        start <= r < end,
        s@.subrange(r as int, end as int) == trim_leading_zeros(s@.subrange(start as int, end as int)),
{
    let mut a: usize = start;
    while a + 1 < end && s[a] == '0'
        invariant
            start <= a < end <= s@.len(),
            trim_leading_zeros(s@.subrange(a as int, end as int)) == trim_leading_zeros(
                s@.subrange(start as int, end as int),
            ),
        decreases end - a,
    {
        assert(s@.subrange(a as int, end as int).drop_first() =~= s@.subrange(a + 1, end as int));
        a = a + 1;
    }
    a
}

/// Removes trailing zeros from the digits `s[start..end]`.
fn skip_trailing_zeros(s: &Vec<char>, start: usize, end: usize) -> (r: usize)
    requires
        start <= end <= s@.len(),
    ensures
        start <= r <= end,
        s@.subrange(start as int, r as int) == trim_trailing_zeros(s@.subrange(start as int, end as int)),
{
    let mut b: usize = end;
    while b > start && s[b - 1] == '0'
        invariant
            start <= b <= end <= s@.len(),
            trim_trailing_zeros(s@.subrange(start as int, b as int)) == trim_trailing_zeros(
                s@.subrange(start as int, end as int),
            ),
        decreases b - start,
    {
        assert(s@.subrange(start as int, b as int).drop_last() =~= s@.subrange(start as int, b - 1));
        b = b - 1;
    }
    b
}

/// Reads the number literal whose first digit, at `start`, was taken:
/// where it ends, and its value in canonical form.
fn read_number(it: &mut MultiPeek<Chars<'_>>, s: &Vec<char>, start: usize) -> (r: (usize, String))
    requires
        start < s@.len() < usize::MAX,
        is_digit(s@[start as int]),
        reads_at(*old(it), s@, start + 1),
    ensures
        r.0 == number_end(s@, start as int),
        start < r.0 <= s@.len(),
        r.1@ == number_value(s@, start as int),
        reads_at(*final(it), s@, r.0 as int),
{
    proof {
        lemma_number_end(s@, start as int);
    }
    let w = skip_digits(it, s, start + 1);
    let mut e = w;
    if let Some(dot) = peek_at(it, s, w) {
        if dot == '.' {
            if let Some(d) = peek_second(it, s, w) {
                if '0' <= d && d <= '9' {
                    take(it, s, w);
                    e = skip_digits(it, s, w + 1);
                }
            }
        }
    }
    let a = skip_leading_zeros(s, start, w);
    let mut digits: Vec<char> = Vec::new();
    append_range(&mut digits, s, a, w);
    if e > w {
        let b = skip_trailing_zeros(s, w + 1, e);
        if b > w + 1 {
            digits.push('.');
            append_range(&mut digits, s, w + 1, b);
        }
    }
    proof {
        let whole = s@.subrange(a as int, w as int);
        if e > w {
            let f = trim_trailing_zeros(s@.subrange(w + 1, e as int));
            if f.len() != 0 {
                assert(digits@ =~= whole + seq!['.'] + f);
            } else {
                assert(digits@ =~= whole);
            }
        } else {
            assert(trim_trailing_zeros(seq![]) == Seq::<char>::empty());
            assert(digits@ =~= whole);
        }
    }
    (e, string_of(&digits))
}

/// Reads the identifier or reserved word whose first character, at
/// `start`, was taken: where it ends, and its kind.
fn read_identifier(it: &mut MultiPeek<Chars<'_>>, s: &Vec<char>, start: usize) -> (r: (
    usize,
    TokenType,
))
    requires
        start < s@.len() < usize::MAX,
        reads_at(*old(it), s@, start + 1),
    ensures
        r.0 == identifier_end(s@, start + 1),
        start < r.0 <= s@.len(),
        r.1 == match keyword_kind(s@.subrange(start as int, r.0 as int)) {
            Some(k) => k,
            None => TokenType::Identifier,
        },
        reads_at(*final(it), s@, r.0 as int),
{
    let mut j: usize = start + 1;
    loop
        invariant
            start < j <= s@.len() < usize::MAX,
            reads_at(*it, s@, j as int),
            identifier_end(s@, j as int) == identifier_end(s@, start + 1),
        ensures
            start < j <= s@.len(),
            j == identifier_end(s@, start + 1),
            reads_at(*it, s@, j as int),
        decreases s@.len() - j,
    {
        match peek_at(it, s, j) {
            Some(c) => {
                if is_alphanumeric(c) || c == '_' {
                    take(it, s, j);
                    j = j + 1;
                } else {
                    break ;
                }
            },
            None => break ,
        }
    }
    let mut word: Vec<char> = Vec::new();
    append_range(&mut word, s, start, j);
    assert(word@ =~= s@.subrange(start as int, j as int));
    let kind = match keyword_kind_of(&word) {
        Some(k) => k,
        None => TokenType::Identifier,
    };
    (j, kind)
}

fn single_kind_of(c: char) -> (r: Option<TokenType>)
    ensures
        r == single_kind(c),
{
    if c == '(' {
        Some(TokenType::LeftParen)
    } else if c == ')' {
        Some(TokenType::RightParen)
    } else if c == '{' {
        Some(TokenType::LeftBrace)
    } else if c == '}' {
        Some(TokenType::RightBrace)
    } else if c == ',' {
        Some(TokenType::Comma)
    } else if c == '.' {
        Some(TokenType::Dot)
    } else if c == '-' {
        Some(TokenType::Minus)
    } else if c == '+' {
        Some(TokenType::Plus)
    } else if c == ';' {
        Some(TokenType::Semicolon)
    } else if c == '*' {
        Some(TokenType::Star)
    } else {
        None
    }
}

fn operator_kinds_of(c: char) -> (r: Option<(TokenType, TokenType)>)
    ensures
        r == operator_kinds(c),
{
    if c == '!' {
        Some((TokenType::Bang, TokenType::BangEqual))
    } else if c == '=' {
        Some((TokenType::Equal, TokenType::EqualEqual))
    } else if c == '<' {
        Some((TokenType::Less, TokenType::LessEqual))
    } else if c == '>' {
        Some((TokenType::Greater, TokenType::GreaterEqual))
    } else {
        None
    }
}

/// Whether the character at `pos` is `expected`; if it is, it is taken.
fn next_matches(it: &mut MultiPeek<Chars<'_>>, s: &Vec<char>, pos: usize, expected: char) -> (r:
    bool)
    requires
        pos <= s@.len(),
        reads_at(*old(it), s@, pos as int),
    ensures
        r == (pos < s@.len() && s@[pos as int] == expected),
        reads_at(*final(it), s@, if r { pos + 1 } else { pos as int }),
{
    match peek_at(it, s, pos) {
        Some(c) => {
            if c == expected {
                take(it, s, pos);
                true
            } else {
                false
            }
        },
        None => false,
    }
}

/// One step of scanning at `pos`, on line `line`: where the next step
/// starts, its line, and the token or the error made on the way, if any.
fn scan_step(it: &mut MultiPeek<Chars<'_>>, s: &Vec<char>, pos: usize, line: usize) -> (r: (
    usize,
    usize,
    Option<Token>,
    Option<ScanError>,
))
    requires
        pos < s@.len() < usize::MAX,
        1 <= line <= pos + 1,
        reads_at(*old(it), s@, pos as int),
    ensures
        pos < r.0 <= s@.len(),
        line <= r.1 <= line + (r.0 - pos),
        reads_at(*final(it), s@, r.0 as int),
        lex(s@, pos as nat, line as nat) == step_result(
            option_view(r.2),
            r.3,
            lex(s@, r.0 as nat, r.1 as nat),
        ),
        r.2 matches Some(t) ==> t.token_type != TokenType::Eof && line <= t.line <= r.1,
{
    let c = take(it, s, pos);
    if let Some(kind) = single_kind_of(c) {
        let t = Token { token_type: kind, lexeme: text_of(s, pos, pos + 1), literal: None, line };
        return (pos + 1, line, Some(t), None);
    }
    if let Some((alone, with_eq)) = operator_kinds_of(c) {
        if next_matches(it, s, pos + 1, '=') {
            let t = Token { token_type: with_eq, lexeme: text_of(s, pos, pos + 2), literal: None, line };
            return (pos + 2, line, Some(t), None);
        } else {
            let t = Token { token_type: alone, lexeme: text_of(s, pos, pos + 1), literal: None, line };
            return (pos + 1, line, Some(t), None);
        }
    }
    if c == '/' {
        if next_matches(it, s, pos + 1, '/') {
            let e = ignore_until_new_line(it, s, pos + 2);
            return (e, line, None, None);
        } else {
            let t = Token {
                token_type: TokenType::Slash,
                lexeme: text_of(s, pos, pos + 1),
                literal: None,
                line,
            };
            return (pos + 1, line, Some(t), None);
        }
    }
    if c == ' ' || c == '\t' || c == '\r' {
        return (pos + 1, line, None, None);
    }
    if c == '\n' {
        return (pos + 1, line + 1, None, None);
    }
    if c == '"' {
        let (close, after) = read_string(it, s, pos, line);
        if close < s.len() {
            let text = text_of(s, pos + 1, close);
            let t = Token {
                token_type: TokenType::String,
                lexeme: text_of(s, pos, close + 1),
                literal: Some(LiteralType::String(text)),
                line: after,
            };
            return (close + 1, after, Some(t), None);
        } else {
            return (close, after, None, Some(ScanError::UnterminatedString { line: after }));
        }
    }
    if '0' <= c && c <= '9' {
        let (end, value) = read_number(it, s, pos);
        let t = Token {
            token_type: TokenType::Number,
            lexeme: text_of(s, pos, end),
            literal: Some(LiteralType::Number(value)),
            line,
        };
        return (end, line, Some(t), None);
    }
    if is_alphabetic(c) || c == '_' {
        let (end, kind) = read_identifier(it, s, pos);
        let t = Token { token_type: kind, lexeme: text_of(s, pos, end), literal: None, line };
        return (end, line, Some(t), None);
    }
    (pos + 1, line, None, Some(ScanError::UnexpectedCharacter { character: c, line }))
}

/// Scans `source` into tokens, collecting every lexical error on the way.
///
/// The tokens are exactly those that the lexical grammar `lex` gives; the
/// last one, and only the last one, marks the end of input, and their lines
/// never decrease.
pub fn scan_tokens(source: &str) -> (r: ScanOutput)
    requires
        source@.len() < usize::MAX,
    ensures
        token_views(r.tokens@) == lex(source@, 0, 1).tokens,
        r.errors@ == lex(source@, 0, 1).errors,
        r.tokens@.len() >= 1,
        r.tokens@.last().token_type == TokenType::Eof,
        forall|i: int| 0 <= i < r.tokens@.len() - 1 ==> r.tokens@[i].token_type != TokenType::Eof,
        forall|i: int, j: int|
            0 <= i <= j < r.tokens@.len() ==> r.tokens@[i].line <= r.tokens@[j].line,
        source@.len() == 0 ==> r.tokens@.len() == 1,
{
    let s = chars_of(source);
    let mut it = char_stream(source);
    proof {
        assert(s@.subrange(0, s@.len() as int) =~= s@);
    }
    let mut tokens: Vec<Token> = Vec::new();
    let mut errors: Vec<ScanError> = Vec::new();
    let mut pos: usize = 0;
    let mut line: usize = 1;
    while pos < s.len()
        invariant
            s@ == source@,
            pos <= s@.len() < usize::MAX,
            reads_at(it, s@, pos as int),
            1 <= line <= pos + 1,
            lex(s@, 0, 1).tokens == token_views(tokens@) + lex(s@, pos as nat, line as nat).tokens,
            lex(s@, 0, 1).errors == errors@ + lex(s@, pos as nat, line as nat).errors,
            forall|i: int| 0 <= i < tokens@.len() ==> tokens@[i].token_type != TokenType::Eof,
            forall|i: int| 0 <= i < tokens@.len() ==> tokens@[i].line <= line,
            forall|i: int, j: int|
                0 <= i <= j < tokens@.len() ==> tokens@[i].line <= tokens@[j].line,
        decreases s@.len() - pos,
    {
        let ghost before = token_views(tokens@);
        let ghost rest = lex(s@, pos as nat, line as nat);
        let (next, next_line, token, error) = scan_step(&mut it, &s, pos, line);
        let ghost after = lex(s@, next as nat, next_line as nat);
        match token {
            Some(t) => {
                let ghost tv = t@;
                tokens.push(t);
                assert(token_views(tokens@) =~= before.push(tv));
                assert(before + rest.tokens =~= before.push(tv) + after.tokens);
            },
            None => match error {
                Some(e) => {
                    let ghost old_errors = errors@;
                    errors.push(e);
                    assert(old_errors + rest.errors =~= errors@ + after.errors);
                },
                None => {},
            },
        }
        pos = next;
        line = next_line;
    }
    let ghost before = token_views(tokens@);
    let end = Token::new(TokenType::Eof, "", line);
    proof {
        reveal_strlit("");
        assert(end@.lexeme =~= Seq::<char>::empty());
    }
    let ghost ev = end@;
    tokens.push(end);
    assert(token_views(tokens@) =~= before.push(ev));
    assert(ev == end_token(line as nat));
    assert(before + seq![end_token(line as nat)] =~= before.push(ev));
    ScanOutput { tokens, errors }
}

} // verus!
