use vstd::prelude::*;

use crate::token::{Token, TokenView};

verus! {

/// The value carried by a literal token or a literal expression.
///
/// A number is kept as decimal text in canonical form: no leading zeros in
/// the integer part (but one), no trailing zeros in the fraction, and no
/// fraction at all where it would be empty. `"007.50"` is held as `"7.5"`
/// and `"3.0"` as `"3"`, so two literals compare equal exactly when they
/// denote the same decimal number.
#[derive(Debug, Clone)]
pub enum LiteralType {
    String(String),
    Number(String),
    Boolean(bool),
    Null,
}

/// What a `LiteralType` denotes, with text as sequences of characters.
pub enum LiteralValue {
    Str(Seq<char>),
    Num(Seq<char>),
    Bool(bool),
    Nil,
}

impl View for LiteralType {
    type V = LiteralValue;

    open spec fn view(&self) -> LiteralValue {
        match self {
            LiteralType::String(s) => LiteralValue::Str(s@),
            LiteralType::Number(n) => LiteralValue::Num(n@),
            LiteralType::Boolean(b) => LiteralValue::Bool(*b),
            LiteralType::Null => LiteralValue::Nil,
        }
    }
}

impl LiteralType {
    /// A copy of this value, field for field.
    pub fn copy(&self) -> (r: LiteralType)
        ensures
            r == *self,
    {
        match self {
            LiteralType::String(s) => LiteralType::String(s.clone()),
            LiteralType::Number(n) => LiteralType::Number(n.clone()),
            LiteralType::Boolean(b) => LiteralType::Boolean(*b),
            LiteralType::Null => LiteralType::Null,
        }
    }
}

impl PartialEq for LiteralType {
    fn eq(&self, other: &LiteralType) -> (r: bool)
        ensures
            r == (self@ == other@),
    {
        match self {
            LiteralType::String(a) => match other {
                LiteralType::String(b) => a.eq(b),
                _ => false,
            },
            LiteralType::Number(a) => match other {
                LiteralType::Number(b) => a.eq(b),
                _ => false,
            },
            LiteralType::Boolean(a) => match other {
                LiteralType::Boolean(b) => *a == *b,
                _ => false,
            },
            LiteralType::Null => match other {
                LiteralType::Null => true,
                _ => false,
            },
        }
    }
}

impl vstd::std_specs::cmp::PartialEqSpecImpl for LiteralType {
    open spec fn obeys_eq_spec() -> bool {
        true
    }

    open spec fn eq_spec(&self, other: &LiteralType) -> bool {
        self@ == other@
    }
}

/// An expression tree. Each node owns its children.
#[derive(Debug)]
pub enum Expr {
    Binary { left: Box<Expr>, operator: Token, right: Box<Expr> },
    Grouping { expression: Box<Expr> },
    Literal { value: LiteralType },
    Unary { operator: Token, right: Box<Expr> },
}

/// The shape of an `Expr`, with tokens and literals seen through their views.
pub enum ExprView {
    Binary(Box<ExprView>, TokenView, Box<ExprView>),
    Grouping(Box<ExprView>),
    Literal(LiteralValue),
    Unary(TokenView, Box<ExprView>),
}

pub open spec fn expr_view(e: Expr) -> ExprView
    decreases e,
{
    match e {
        Expr::Binary { left, operator, right } => ExprView::Binary(
            Box::new(expr_view(*left)),
            operator@,
            Box::new(expr_view(*right)),
        ),
        Expr::Grouping { expression } => ExprView::Grouping(Box::new(expr_view(*expression))),
        Expr::Literal { value } => ExprView::Literal(value@),
        Expr::Unary { operator, right } => ExprView::Unary(
            operator@,
            Box::new(expr_view(*right)),
        ),
    }
}

pub open spec fn binary_node(left: Expr, operator: Token, right: Expr) -> Expr {
    Expr::Binary { left: Box::new(left), operator, right: Box::new(right) }
}

pub open spec fn grouping_node(expression: Expr) -> Expr {
    Expr::Grouping { expression: Box::new(expression) }
}

pub open spec fn literal_node(value: LiteralType) -> Expr {
    Expr::Literal { value }
}

pub open spec fn unary_node(operator: Token, right: Expr) -> Expr {
    Expr::Unary { operator, right: Box::new(right) }
}

impl View for Expr {
    type V = ExprView;

    open spec fn view(&self) -> ExprView {
        expr_view(*self)
    }
}

impl PartialEq for Expr {
    fn eq(&self, other: &Expr) -> (r: bool)
        ensures
            r == (self@ == other@),
        decreases self,
    {
        match (self, other) {
            (
                Expr::Binary { left: l1, operator: o1, right: r1 },
                Expr::Binary { left: l2, operator: o2, right: r2 },
            ) => {
                let a = o1 == o2;
                let b = (**l1).eq(&**l2);
                let c = (**r1).eq(&**r2);
                a && b && c
            },
            (Expr::Grouping { expression: e1 }, Expr::Grouping { expression: e2 }) => {
                (**e1).eq(&**e2)
            },
            (Expr::Literal { value: v1 }, Expr::Literal { value: v2 }) => v1 == v2,
            (Expr::Unary { operator: o1, right: r1 }, Expr::Unary { operator: o2, right: r2 }) => {
                let a = o1 == o2;
                let c = (**r1).eq(&**r2);
                a && c
            },
            _ => false,
        }
    }
}

impl vstd::std_specs::cmp::PartialEqSpecImpl for Expr {
    open spec fn obeys_eq_spec() -> bool {
        true
    }

    open spec fn eq_spec(&self, other: &Expr) -> bool {
        self@ == other@
    }
}

} // verus!
