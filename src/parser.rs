use vstd::prelude::*;

use crate::expr::{binary_node, Expr, LiteralType};
use crate::token::{Token, TokenType};

verus! {

/// How deeply groupings and prefix operators may nest before parsing gives up.
pub const MAX_NESTING: usize = 128;

/// Precedence levels of the binary operators, from the loosest.
pub const EQUALITY: usize = 4;

pub const COMPARISON: usize = 3;

pub const TERM: usize = 2;

pub const FACTOR: usize = 1;

/// What the parser looked for where it failed.
#[derive(Debug, Clone, Copy, PartialEq, Eq, Structural)]
pub enum Expected {
    /// The start of an expression: a literal, a prefix operator or `(`.
    Expression,
    /// The `)` that closes a grouping.
    RightParen,
}

/// Why parsing stopped.
#[derive(Debug)]
pub enum ParseError {
    /// The token `found`, on `line`, does not fit the grammar there.
    Syntax { expected: Expected, found: Token, line: usize },
    /// Groupings and prefix operators nest deeper than `MAX_NESTING` at `found`.
    TooDeep { found: Token, line: usize },
}

/// A parse result with the position after it.
pub type Parsed = Result<(Expr, int), ParseError>;

/// A token sequence as a scan leaves it: not empty, and ending in end of input.
pub open spec fn well_formed(toks: Seq<Token>) -> bool {
    toks.len() > 0 && toks.last().token_type == TokenType::Eof
}

pub open spec fn kind_at(toks: Seq<Token>, pos: int) -> TokenType {
    toks[pos].token_type
}

pub open spec fn syntax_error(toks: Seq<Token>, pos: int, expected: Expected) -> ParseError {
    ParseError::Syntax { expected, found: toks[pos], line: toks[pos].line }
}

pub open spec fn too_deep(toks: Seq<Token>, pos: int) -> ParseError {
    ParseError::TooDeep { found: toks[pos], line: toks[pos].line }
}

/// Whether `k` is a binary operator of precedence level `level`.
pub open spec fn level_op(level: nat, k: TokenType) -> bool {
    if level == EQUALITY {
        k == TokenType::BangEqual || k == TokenType::EqualEqual
    } else if level == COMPARISON {
        k == TokenType::Greater || k == TokenType::GreaterEqual || k == TokenType::Less || k
            == TokenType::LessEqual
    } else if level == TERM {
        k == TokenType::Minus || k == TokenType::Plus
    } else if level == FACTOR {
        k == TokenType::Slash || k == TokenType::Star
    } else {
        false
    }
}

/// `expression → equality`
pub open spec fn parse_expression(toks: Seq<Token>, pos: int, depth: nat) -> Parsed
    decreases MAX_NESTING - depth, 3 * EQUALITY + 5, 0int,
{
    parse_operand(toks, pos, depth, EQUALITY as nat)
}

/// An operand at `level`: a binary expression of that level, or a unary
/// expression at level zero.
pub open spec fn parse_operand(toks: Seq<Token>, pos: int, depth: nat, level: nat) -> Parsed
    decreases MAX_NESTING - depth, 3 * level + 4, 0int,
{
    if level == 0 {
        parse_unary(toks, pos, depth)
    } else {
        parse_binary(toks, pos, depth, level)
    }
}

/// `level → operand ( op operand )*`, folded to the left.
pub open spec fn parse_binary(toks: Seq<Token>, pos: int, depth: nat, level: nat) -> Parsed
    decreases MAX_NESTING - depth, 3 * level + 3, 0int,
{
    if level == 0 {
        parse_unary(toks, pos, depth)
    } else {
        match parse_operand(toks, pos, depth, (level - 1) as nat) {
            Ok((e, p)) => binary_rest(toks, p, depth, level, e),
            Err(x) => Err(x),
        }
    }
}

/// The `( op operand )*` part of a binary level, after `left` was read.
pub open spec fn binary_rest(toks: Seq<Token>, pos: int, depth: nat, level: nat, left: Expr) -> Parsed
    decreases MAX_NESTING - depth, 3 * level + 2, toks.len() - pos,
{
    if level > 0 && 0 <= pos < toks.len() && level_op(level, kind_at(toks, pos)) {
        match parse_operand(toks, pos + 1, depth, (level - 1) as nat) {
            Ok((right, p)) => {
                let e = binary_node(left, toks[pos], right);
                if pos < p <= toks.len() {
                    binary_rest(toks, p, depth, level, e)
                } else {
                    Ok((e, p))
                }
            },
            Err(x) => Err(x),
        }
    } else {
        Ok((left, pos))
    }
}

/// `unary → ( "!" | "-" ) unary | primary`
pub open spec fn parse_unary(toks: Seq<Token>, pos: int, depth: nat) -> Parsed
    decreases MAX_NESTING - depth, 1int, 0int,
{
    let k = kind_at(toks, pos);
    if k == TokenType::Bang || k == TokenType::Minus {
        if depth >= MAX_NESTING {
            Err(too_deep(toks, pos))
        } else {
            match parse_unary(toks, pos + 1, depth + 1) {
                Ok((e, p)) => Ok((Expr::Unary { operator: toks[pos], right: Box::new(e) }, p)),
                Err(x) => Err(x),
            }
        }
    } else {
        parse_primary(toks, pos, depth)
    }
}

/// `primary → NUMBER | STRING | "true" | "false" | "nil" | "(" expression ")"`
pub open spec fn parse_primary(toks: Seq<Token>, pos: int, depth: nat) -> Parsed
    decreases MAX_NESTING - depth, 0int, 0int,
{
    let k = kind_at(toks, pos);
    if k == TokenType::False {
        Ok((Expr::Literal { value: LiteralType::Boolean(false) }, pos + 1))
    } else if k == TokenType::True {
        Ok((Expr::Literal { value: LiteralType::Boolean(true) }, pos + 1))
    } else if k == TokenType::Nil {
        Ok((Expr::Literal { value: LiteralType::Null }, pos + 1))
    } else if k == TokenType::String || k == TokenType::Number {
        match toks[pos].literal {
            Some(v) => Ok((Expr::Literal { value: v }, pos + 1)),
            None => Err(syntax_error(toks, pos, Expected::Expression)),
        }
    } else if k == TokenType::LeftParen {
        if depth >= MAX_NESTING {
            Err(too_deep(toks, pos))
        } else {
            match parse_expression(toks, pos + 1, depth + 1) {
                Ok((e, p)) => if 0 <= p < toks.len() && kind_at(toks, p) == TokenType::RightParen {
                    Ok((Expr::Grouping { expression: Box::new(e) }, p + 1))
                } else {
                    Err(syntax_error(toks, p, Expected::RightParen))
                },
                Err(x) => Err(x),
            }
        }
    } else {
        Err(syntax_error(toks, pos, Expected::Expression))
    }
}

/// A parse result as a pair of the result and the position after it.
pub open spec fn outcome(r: Result<Expr, ParseError>, pos: int) -> Parsed {
    match r {
        Ok(e) => Ok((e, pos)),
        Err(x) => Err(x),
    }
}

fn is_level_op(level: usize, k: TokenType) -> (r: bool)
    ensures
        r == level_op(level as nat, k),
{
    if level == EQUALITY {
        k == TokenType::BangEqual || k == TokenType::EqualEqual
    } else if level == COMPARISON {
        k == TokenType::Greater || k == TokenType::GreaterEqual || k == TokenType::Less || k
            == TokenType::LessEqual
    } else if level == TERM {
        k == TokenType::Minus || k == TokenType::Plus
    } else if level == FACTOR {
        k == TokenType::Slash || k == TokenType::Star
    } else {
        false
    }
}

/// A recursive-descent parser over a scanned token sequence.
pub struct Parser<'a> {
    tokens: &'a [Token],
    current: usize,
}

impl<'a> Parser<'a> {
    /// The tokens being parsed.
    pub closed spec fn token_seq(&self) -> Seq<Token> {
        self.tokens@
    }

    /// The index of the next token to read.
    pub closed spec fn position(&self) -> int {
        self.current as int
    }

    pub open spec fn wf(&self) -> bool {
        well_formed(self.token_seq()) && 0 <= self.position() < self.token_seq().len()
    }

    /// A parser at the start of `tokens`.
    pub fn new(tokens: &'a [Token]) -> (r: Parser<'a>)
        requires
            well_formed(tokens@),
        ensures
            r.wf(),
            r.token_seq() == tokens@,
            r.position() == 0,
    {
        Parser { tokens, current: 0 }
    }

    /// Parses one expression from the current position: the result is the
    /// one the grammar gives there, and the parser stops after it.
    pub fn parse(&mut self) -> (r: Result<Expr, ParseError>)
        requires
            old(self).wf(),
        ensures
            final(self).wf(),
            final(self).token_seq() == old(self).token_seq(),
            outcome(r, final(self).position()) == parse_expression(
                old(self).token_seq(),
                old(self).position(),
                0,
            ),
    {
        self.expression(0)
    }

    fn peek(&self) -> (r: TokenType)
        requires
            self.wf(),
        ensures
            r == kind_at(self.token_seq(), self.position()),
    {
        self.tokens[self.current].token_type
    }

    fn advance(&mut self)
        requires
            old(self).wf(),
            kind_at(old(self).token_seq(), old(self).position()) != TokenType::Eof,
        ensures
            final(self).wf(),
            final(self).token_seq() == old(self).token_seq(),
            final(self).position() == old(self).position() + 1,
    {
        let n = self.tokens.len();
        assert(self.current + 1 < n);
        self.current = self.current + 1;
    }

    fn error_here(&self, expected: Expected) -> (r: ParseError)
        requires
            self.wf(),
        ensures
            r == syntax_error(self.token_seq(), self.position(), expected),
    {
        let found = self.tokens[self.current].copy();
        let line = found.line;
        ParseError::Syntax { expected, found, line }
    }

    fn too_deep_here(&self) -> (r: ParseError)
        requires
            self.wf(),
        ensures
            r == too_deep(self.token_seq(), self.position()),
    {
        let found = self.tokens[self.current].copy();
        let line = found.line;
        ParseError::TooDeep { found, line }
    }

    fn expression(&mut self, depth: usize) -> (r: Result<Expr, ParseError>)
        requires
            old(self).wf(),
            depth <= MAX_NESTING,
        ensures
            final(self).wf(),
            final(self).token_seq() == old(self).token_seq(),
            outcome(r, final(self).position()) == parse_expression(
                old(self).token_seq(),
                old(self).position(),
                depth as nat,
            ),
            r is Ok ==> final(self).position() > old(self).position(),
        decreases MAX_NESTING - depth, 3 * EQUALITY + 5, 0int,
    {
        self.operand(depth, EQUALITY)
    }

    fn operand(&mut self, depth: usize, level: usize) -> (r: Result<Expr, ParseError>)
        requires
            old(self).wf(),
            depth <= MAX_NESTING,
            level <= EQUALITY,
        ensures
            final(self).wf(),
            final(self).token_seq() == old(self).token_seq(),
            outcome(r, final(self).position()) == parse_operand(
                old(self).token_seq(),
                old(self).position(),
                depth as nat,
                level as nat,
            ),
            r is Ok ==> final(self).position() > old(self).position(),
        decreases MAX_NESTING - depth, 3 * level + 4, 0int,
    {
        if level == 0 {
            self.unary(depth)
        } else {
            self.binary(depth, level)
        }
    }

    /// One binary precedence level: an operand, then any number of operator
    /// and operand pairs of this level, each folded onto what came before.
    fn binary(&mut self, depth: usize, level: usize) -> (r: Result<Expr, ParseError>)
        requires
            old(self).wf(),
            depth <= MAX_NESTING,
            1 <= level <= EQUALITY,
        ensures
            final(self).wf(),
            final(self).token_seq() == old(self).token_seq(),
            outcome(r, final(self).position()) == parse_binary(
                old(self).token_seq(),
                old(self).position(),
                depth as nat,
                level as nat,
            ),
            r is Ok ==> final(self).position() > old(self).position(),
        decreases MAX_NESTING - depth, 3 * level + 3, 0int,
    {
        let ghost toks = self.token_seq();
        let ghost start = self.position();
        let mut expr = match self.operand(depth, level - 1) {
            Ok(e) => e,
            Err(x) => return Err(x),
        };
        while is_level_op(level, self.peek())
            invariant
                self.wf(),
                self.token_seq() == toks,
                toks == old(self).token_seq(),
                start == old(self).position(),
                depth <= MAX_NESTING,
                1 <= level <= EQUALITY,
                self.position() > start,
                binary_rest(toks, self.position(), depth as nat, level as nat, expr) == parse_binary(
                    toks,
                    start,
                    depth as nat,
                    level as nat,
                ),
            decreases toks.len() - self.position(),
        {
            let operator = self.tokens[self.current].copy();
            self.advance();
            let right = match self.operand(depth, level - 1) {
                Ok(e) => e,
                Err(x) => return Err(x),
            };
            expr = Expr::Binary { left: Box::new(expr), operator, right: Box::new(right) };
        }
        Ok(expr)
    }

    fn unary(&mut self, depth: usize) -> (r: Result<Expr, ParseError>)
        requires
            old(self).wf(),
            depth <= MAX_NESTING,
        ensures
            final(self).wf(),
            final(self).token_seq() == old(self).token_seq(),
            outcome(r, final(self).position()) == parse_unary(
                old(self).token_seq(),
                old(self).position(),
                depth as nat,
            ),
            r is Ok ==> final(self).position() > old(self).position(),
        decreases MAX_NESTING - depth, 1int, 0int,
    {
        let k = self.peek();
        if k == TokenType::Bang || k == TokenType::Minus {
            if depth >= MAX_NESTING {
                return Err(self.too_deep_here());
            }
            let operator = self.tokens[self.current].copy();
            self.advance();
            match self.unary(depth + 1) {
                Ok(right) => Ok(Expr::Unary { operator, right: Box::new(right) }),
                Err(x) => Err(x),
            }
        } else {
            self.primary(depth)
        }
    }

    fn primary(&mut self, depth: usize) -> (r: Result<Expr, ParseError>)
        requires
            old(self).wf(),
            depth <= MAX_NESTING,
        ensures
            final(self).wf(),
            final(self).token_seq() == old(self).token_seq(),
            outcome(r, final(self).position()) == parse_primary(
                old(self).token_seq(),
                old(self).position(),
                depth as nat,
            ),
            r is Ok ==> final(self).position() > old(self).position(),
        decreases MAX_NESTING - depth, 0int, 0int,
    {
        let k = self.peek();
        if k == TokenType::False {
            self.advance();
            Ok(Expr::Literal { value: LiteralType::Boolean(false) })
        } else if k == TokenType::True {
            self.advance();
            Ok(Expr::Literal { value: LiteralType::Boolean(true) })
        } else if k == TokenType::Nil {
            self.advance();
            Ok(Expr::Literal { value: LiteralType::Null })
        } else if k == TokenType::String || k == TokenType::Number {
            match &self.tokens[self.current].literal {
                Some(v) => {
                    let value = v.copy();
                    self.advance();
                    Ok(Expr::Literal { value })
                },
                None => Err(self.error_here(Expected::Expression)),
            }
        } else if k == TokenType::LeftParen {
            if depth >= MAX_NESTING {
                return Err(self.too_deep_here());
            }
            self.advance();
            let expression = match self.expression(depth + 1) {
                Ok(e) => e,
                Err(x) => return Err(x),
            };
            if self.peek() == TokenType::RightParen {
                self.advance();
                Ok(Expr::Grouping { expression: Box::new(expression) })
            } else {
                Err(self.error_here(Expected::RightParen))
            }
        } else {
            Err(self.error_here(Expected::Expression))
        }
    }
}

} // verus!
