//! Small syntax enums shared by the parser, the AST and the error reports.

use crate::index::{BlockIndex, FieldIndex, IdentifierIndex};
use vstd::prelude::*;

verus! {

/// Where an operator stands relative to its operands.
#[derive(Debug, Clone, Copy, PartialEq, Eq, Structural)]
pub enum Fixity {
    Term,
    Infix,
    Prefix,
    Postfix,
    Open,
    Close,
}

/// What kind of boundary surrounds a group of tokens.
#[derive(Debug, Clone, Copy, PartialEq, Eq, Structural)]
pub enum ExpressionBoundary {
    PrecedenceGroup,
    CompoundTerm,
    Parentheses,
    CurlyBraces,
    Source,
    Root,
}

/// What went wrong with a boundary.
#[derive(Debug, Clone, Copy, PartialEq, Eq, Structural)]
pub enum ExpressionBoundaryError {
    CloseWithoutOpen,
    OpenWithoutClose,
    OpenError,
    NoError,
}

/// Which operand of an operator an expression is.
#[derive(Debug, Clone, Copy, PartialEq, Eq, Structural)]
pub enum OperandPosition {
    Left,
    Right,
    PrefixOperand,
    PostfixOperand,
}

/// A declared field.
#[derive(Debug, Clone, Copy, PartialEq, Eq, Structural)]
pub struct Field {
    pub name: IdentifierIndex,
}

/// A block of the AST: its boundary, its parent and where its fields start.
#[derive(Debug, Clone, Copy, PartialEq, Eq, Structural)]
pub struct AstBlock {
    pub boundary: ExpressionBoundary,
    pub parent: BlockIndex,
    pub scope_start: FieldIndex,
}

/// Whether the operand is on the left of its operator.
pub open spec fn is_left_side(position: OperandPosition) -> bool {
    position == OperandPosition::Left || position == OperandPosition::PostfixOperand
}

/// "left side" or "right side".
pub open spec fn operand_position_text(position: OperandPosition) -> Seq<char> {
    if is_left_side(position) {
        "left side"@
    } else {
        "right side"@
    }
}

/// The text that opens a boundary: parentheses and braces have one, the
/// other boundaries are implicit.
pub open spec fn open_text(boundary: ExpressionBoundary) -> Seq<char> {
    match boundary {
        ExpressionBoundary::Parentheses => seq!['('],
        ExpressionBoundary::CurlyBraces => seq!['{'],
        _ => seq![],
    }
}

/// The text that closes a boundary.
pub open spec fn close_text(boundary: ExpressionBoundary) -> Seq<char> {
    match boundary {
        ExpressionBoundary::Parentheses => seq![')'],
        ExpressionBoundary::CurlyBraces => seq!['}'],
        _ => seq![],
    }
}

/// An open text and a close text that belong together: "(" with ")", "{"
/// with "}", or nothing with nothing.
pub open spec fn brackets_match(open: Seq<char>, close: Seq<char>) -> bool {
    ||| open == seq!['('] && close == seq![')']
    ||| open == seq!['{'] && close == seq!['}']
    ||| open.len() == 0 && close.len() == 0
}

/// Each boundary opens and closes with brackets that belong together:
/// parentheses with "(" and ")", curly braces with "{" and "}"; the other
/// boundaries have no text. Different boundaries with text open differently.
pub proof fn lemma_boundary_brackets_match(boundary: ExpressionBoundary, other: ExpressionBoundary)
    ensures
        brackets_match(open_text(boundary), close_text(boundary)),
        open_text(boundary).len() > 0 <==> (boundary == ExpressionBoundary::Parentheses || boundary
            == ExpressionBoundary::CurlyBraces),
        close_text(boundary) == seq!['}'] <==> boundary == ExpressionBoundary::CurlyBraces,
        close_text(boundary) == seq![')'] <==> boundary == ExpressionBoundary::Parentheses,
        boundary != other && open_text(boundary).len() > 0 ==> open_text(boundary) != open_text(other),
{
    assert(seq!['}'][0] != seq![')'][0]);
    assert(seq!['{'][0] != seq!['('][0]);
    assert(seq!['}'].len() != Seq::<char>::empty().len());
    assert(seq![')'].len() != Seq::<char>::empty().len());
}

impl ExpressionBoundary {
    /// The text that opens this boundary.
    pub fn open_string(self) -> (r: &'static str)
        ensures
            r@ == open_text(self),
    {
        proof {
            reveal_strlit("(");
            reveal_strlit("{");
            reveal_strlit("");
        }
        match self {
            ExpressionBoundary::Parentheses => "(",
            ExpressionBoundary::CurlyBraces => "{",
            _ => "",
        }
    }

    /// The text that closes this boundary.
    pub fn close_string(self) -> (r: &'static str)
        ensures
            r@ == close_text(self),
    {
        proof {
            reveal_strlit(")");
            reveal_strlit("}");
            reveal_strlit("");
        }
        match self {
            ExpressionBoundary::Parentheses => ")",
            ExpressionBoundary::CurlyBraces => "}",
            _ => "",
        }
    }
}

impl OperandPosition {
    /// Whether the operand is on the left of its operator.
    pub fn is_left(&self) -> (r: bool)
        ensures
            r == is_left_side(*self),
    {
        match self {
            OperandPosition::Left | OperandPosition::PostfixOperand => true,
            OperandPosition::Right | OperandPosition::PrefixOperand => false,
        }
    }

    /// Renders the position as in messages: "left side" or "right side".
    pub fn to_string(&self) -> (s: String)
        ensures
            s@ == operand_position_text(*self),
    {
        if self.is_left() {
            String::from_str("left side")
        } else {
            String::from_str("right side")
        }
    }
}

} // verus!
