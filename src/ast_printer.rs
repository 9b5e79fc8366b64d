use vstd::prelude::*;

use crate::expr::{Expr, LiteralType};
use crate::text::{append_range, chars_of, string_of};
use crate::token::Token;
use crate::visitor::Visitor;

verus! {

/// Renders a tree in fully parenthesized prefix form.
pub struct AstPrinter;

/// The text of a literal: a string as it is, a number in canonical form,
/// a boolean as `true` or `false`, and nil as nothing.
pub open spec fn literal_text(v: LiteralType) -> Seq<char> {
    match v {
        LiteralType::String(s) => s@,
        LiteralType::Number(n) => n@,
        LiteralType::Boolean(b) => if b {
            seq!['t', 'r', 'u', 'e']
        } else {
            seq!['f', 'a', 'l', 's', 'e']
        },
        LiteralType::Null => seq![],
    }
}

/// `(name e1 e2 ...)`: a name and the rendered operands, each after a space.
pub open spec fn parenthesized(name: Seq<char>, parts: Seq<Seq<char>>) -> Seq<char> {
    seq!['('] + name + spaced(parts) + seq![')']
}

pub open spec fn spaced(parts: Seq<Seq<char>>) -> Seq<char>
    decreases parts.len(),
{
    if parts.len() == 0 {
        seq![]
    } else {
        spaced(parts.drop_last()) + seq![' '] + parts.last()
    }
}

/// The prefix form of `e`.
pub open spec fn render(e: Expr) -> Seq<char>
    decreases e,
{
    match e {
        Expr::Binary { left, operator, right } => parenthesized(
            operator.lexeme@,
            seq![render(*left), render(*right)],
        ),
        Expr::Grouping { expression } => parenthesized(
            seq!['g', 'r', 'o', 'u', 'p'],
            seq![render(*expression)],
        ),
        Expr::Literal { value } => literal_text(value),
        Expr::Unary { operator, right } => parenthesized(operator.lexeme@, seq![render(*right)]),
    }
}

impl AstPrinter {
    /// `(name a b ...)`: the name, then each part after a space.
    fn parenthesize(&self, name: &str, parts: &Vec<String>) -> (r: String)
        ensures
            r@ == parenthesized(name@, parts@.map_values(|p: String| p@)),
    {
        let mut output: Vec<char> = Vec::new();
        output.push('(');
        let name_chars = chars_of(name);
        append_range(&mut output, &name_chars, 0, name_chars.len());
        assert(name_chars@.subrange(0, name_chars@.len() as int) =~= name_chars@);
        let ghost texts = parts@.map_values(|p: String| p@);
        let mut i: usize = 0;
        while i < parts.len()
            invariant
                0 <= i <= parts@.len(),
                texts == parts@.map_values(|p: String| p@),
                output@ == seq!['('] + name@ + spaced(texts.subrange(0, i as int)),
            decreases parts@.len() - i,
        {
            output.push(' ');
            let part_chars = chars_of(parts[i].as_str());
            append_range(&mut output, &part_chars, 0, part_chars.len());
            assert(texts.subrange(0, i + 1).drop_last() =~= texts.subrange(0, i as int));
            assert(part_chars@.subrange(0, part_chars@.len() as int) =~= part_chars@);
            i = i + 1;
        }
        output.push(')');
        assert(texts.subrange(0, parts@.len() as int) =~= texts);
        assert(output@ =~= parenthesized(name@, texts));
        string_of(&output)
    }

    fn literal(&self, value: &LiteralType) -> (r: String)
        ensures
            r@ == literal_text(*value),
    {
        match value {
            LiteralType::String(s) => s.clone(),
            LiteralType::Number(n) => n.clone(),
            LiteralType::Boolean(b) => {
                proof {
                    reveal_strlit("true");
                    reveal_strlit("false");
                }
                if *b {
                    "true".to_owned()
                } else {
                    "false".to_owned()
                }
            },
            LiteralType::Null => String::new(),
        }
    }

    /// The prefix form of `e`.
    pub fn print(&self, e: &Expr) -> (r: String)
        ensures
            r@ == render(*e),
        decreases *e,
    {
        match e {
            Expr::Binary { left, operator, right } => {
                let left_text = self.print(left);
                let right_text = self.print(right);
                let parts = vec![left_text, right_text];
                let r = self.parenthesize(operator.lexeme.as_str(), &parts);
                assert(parts@.map_values(|p: String| p@) =~= seq![render(**left), render(**right)]);
                r
            },
            Expr::Grouping { expression } => {
                let parts = vec![self.print(expression)];
                proof {
                    reveal_strlit("group");
                }
                let r = self.parenthesize("group", &parts);
                assert(parts@.map_values(|p: String| p@) =~= seq![render(**expression)]);
                assert("group"@ =~= seq!['g', 'r', 'o', 'u', 'p']);
                r
            },
            Expr::Literal { value } => self.literal(value),
            Expr::Unary { operator, right } => {
                let parts = vec![self.print(right)];
                let r = self.parenthesize(operator.lexeme.as_str(), &parts);
                assert(parts@.map_values(|p: String| p@) =~= seq![render(**right)]);
                r
            },
        }
    }
}

impl Visitor for AstPrinter {
    type Output = String;

    open spec fn yields(&self, e: Expr, out: String) -> bool {
        out@ == render(e)
    }

    fn visit_binary_expr(&mut self, left: &Expr, operator: &Token, right: &Expr) -> (r: String) {
        let parts = vec![self.print(left), self.print(right)];
        let r = self.parenthesize(operator.lexeme.as_str(), &parts);
        assert(parts@.map_values(|p: String| p@) =~= seq![render(*left), render(*right)]);
        r
    }

    fn visit_grouping_expr(&mut self, expression: &Expr) -> (r: String) {
        let parts = vec![self.print(expression)];
        proof {
            reveal_strlit("group");
        }
        let r = self.parenthesize("group", &parts);
        assert(parts@.map_values(|p: String| p@) =~= seq![render(*expression)]);
        assert("group"@ =~= seq!['g', 'r', 'o', 'u', 'p']);
        r
    }

    fn visit_literal_expr(&mut self, value: &LiteralType) -> (r: String) {
        self.literal(value)
    }

    fn visit_unary_expr(&mut self, operator: &Token, right: &Expr) -> (r: String) {
        let parts = vec![self.print(right)];
        let r = self.parenthesize(operator.lexeme.as_str(), &parts);
        assert(parts@.map_values(|p: String| p@) =~= seq![render(*right)]);
        r
    }
}

} // verus!
