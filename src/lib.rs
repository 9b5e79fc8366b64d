//! Front end of a small expression language: a scanner that turns source
//! text into tokens, a recursive-descent parser that turns tokens into an
//! expression tree, a visitor that dispatches over the tree's variants, and a
//! printer that renders a tree in parenthesized prefix form.

pub mod ast_printer;
pub mod expr;
pub mod parser;
pub mod scanner;
pub mod token;
pub mod visitor;
mod stream;
mod text;
