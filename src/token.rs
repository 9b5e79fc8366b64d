use vstd::prelude::*;

use crate::expr::{LiteralType, LiteralValue};

verus! {

/// The kinds of lexical unit.
#[derive(Debug, Clone, Copy, PartialEq, Eq, Structural)]
pub enum TokenType {
    // Single-character tokens.
    LeftParen,
    RightParen,
    LeftBrace,
    RightBrace,
    Comma,
    Dot,
    Minus,
    Plus,
    Semicolon,
    Slash,
    Star,
    // One or two character tokens.
    Bang,
    BangEqual,
    Equal,
    EqualEqual,
    Greater,
    GreaterEqual,
    Less,
    LessEqual,
    // Literals.
    Identifier,
    String,
    Number,
    // Keywords.
    And,
    Class,
    Else,
    False,
    Fun,
    For,
    If,
    Nil,
    Or,
    Print,
    Return,
    Super,
    This,
    True,
    Var,
    While,
    // End of input.
    Eof,
}

/// A lexical unit: its kind, the source text it was read from, the value it
/// carries (string and number tokens only) and the line it ends on.
#[derive(Debug, Clone)]
pub struct Token {
    pub token_type: TokenType,
    pub lexeme: String,
    pub literal: Option<LiteralType>,
    pub line: usize,
}

/// A token with its text seen as a sequence of characters.
pub struct TokenView {
    pub kind: TokenType,
    pub lexeme: Seq<char>,
    pub literal: Option<LiteralValue>,
    pub line: usize,
}

pub open spec fn literal_view(l: Option<LiteralType>) -> Option<LiteralValue> {
    match l {
        Some(v) => Some(v@),
        None => None,
    }
}

impl View for Token {
    type V = TokenView;

    open spec fn view(&self) -> TokenView {
        TokenView {
            kind: self.token_type,
            lexeme: self.lexeme@,
            literal: literal_view(self.literal),
            line: self.line,
        }
    }
}

impl Token {
    /// A token that carries no value.
    pub fn new(token_type: TokenType, lexeme: &str, line: usize) -> (r: Token)
        ensures
            r@ == (TokenView { kind: token_type, lexeme: lexeme@, literal: None, line }),
    {
        Token { token_type, lexeme: lexeme.to_owned(), literal: None, line }
    }

    /// A token that carries a value.
    pub fn new_literal(token_type: TokenType, lexeme: &str, literal: LiteralType, line: usize) -> (r:
        Token)
        ensures
            r@ == (TokenView {
                kind: token_type,
                lexeme: lexeme@,
                literal: Some(literal@),
                line,
            }),
    {
        Token { token_type, lexeme: lexeme.to_owned(), literal: Some(literal), line }
    }

    /// A copy of this token, field for field.
    pub fn copy(&self) -> (r: Token)
        ensures
            r == *self,
    {
        let literal = match &self.literal {
            Some(v) => Some(v.copy()),
            None => None,
        };
        Token { token_type: self.token_type, lexeme: self.lexeme.clone(), literal, line: self.line }
    }
}

impl PartialEq for Token {
    fn eq(&self, other: &Token) -> (r: bool)
        ensures
            r == (self@ == other@),
    {
        let literal_same = match (&self.literal, &other.literal) {
            (Some(a), Some(b)) => a == b,
            (None, None) => true,
            _ => false,
        };
        self.token_type == other.token_type && self.lexeme == other.lexeme && literal_same
            && self.line == other.line
    }
}

impl vstd::std_specs::cmp::PartialEqSpecImpl for Token {
    open spec fn obeys_eq_spec() -> bool {
        true
    }

    open spec fn eq_spec(&self, other: &Token) -> bool {
        self@ == other@
    }
}

} // verus!
