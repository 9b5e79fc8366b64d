use vstd::prelude::*;

use crate::expr::{binary_node, grouping_node, literal_node, unary_node, Expr, LiteralType};
use crate::token::Token;

verus! {

/// An operation over expression trees, with one method per kind of node.
///
/// `walk_expr` picks the method that matches a node; a new operation needs
/// only a new implementation of this trait, never a change to `Expr`.
pub trait Visitor {
    type Output;

    /// Whether `out` is what this visitor yields for the node `e`.
    spec fn yields(&self, e: Expr, out: Self::Output) -> bool;

    fn visit_binary_expr(&mut self, left: &Expr, operator: &Token, right: &Expr) -> (r: Self::Output)
        ensures
            old(self).yields(binary_node(*left, *operator, *right), r),
    ;

    fn visit_grouping_expr(&mut self, expression: &Expr) -> (r: Self::Output)
        ensures
            old(self).yields(grouping_node(*expression), r),
    ;

    fn visit_literal_expr(&mut self, value: &LiteralType) -> (r: Self::Output)
        ensures
            old(self).yields(literal_node(*value), r),
    ;

    fn visit_unary_expr(&mut self, operator: &Token, right: &Expr) -> (r: Self::Output)
        ensures
            old(self).yields(unary_node(*operator, *right), r),
    ;
}

/// Hands `expr` to the method of `visitor` that matches its variant.
pub fn walk_expr<V: Visitor>(visitor: &mut V, expr: &Expr) -> (r: V::Output)
    ensures
        old(visitor).yields(*expr, r),
{
    match expr {
        Expr::Binary { left, operator, right } => visitor.visit_binary_expr(left, operator, right),
        Expr::Grouping { expression } => visitor.visit_grouping_expr(expression),
        Expr::Literal { value } => visitor.visit_literal_expr(value),
        Expr::Unary { operator, right } => visitor.visit_unary_expr(operator, right),
    }
}

} // verus!
