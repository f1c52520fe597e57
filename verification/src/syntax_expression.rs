//! An expression that the tokenizer found in the source text.

use crate::formatting::{debug_quoted, debug_text};
use vstd::prelude::*;

verus! {

/// The kinds of expression the tokenizer finds.
#[derive(Debug, Clone, Copy, PartialEq, Eq, Structural)]
pub enum SyntaxExpressionType {
    IntegerLiteral,
}

/// An expression: its kind, its text and the index of its first character.
#[derive(Debug)]
pub struct SyntaxExpression {
    pub expression_type: SyntaxExpressionType,
    pub string: String,
    pub start: usize,
}

impl SyntaxExpression {
    /// Renders the expression: an integer literal prints as its quoted text.
    pub fn to_string(&self) -> (r: String)
        ensures
            r@ == debug_quoted(self.string@),
    {
        match self.expression_type {
            SyntaxExpressionType::IntegerLiteral => debug_text(self.string.as_str()),
        }
    }
}

} // verus!
