//! The tokens of a parsed source: each expression token and operator token,
//! with what it refers to among the AST's literals, identifiers and fields.

use crate::ast::Ast;
use crate::error::{spec_code_name, ErrorCode};
use crate::char_data::{line_column_range_text, spec_location, LineColumnRange};
use crate::formatting::{lossy_text, utf8_lossy};
use crate::interner::interned;
use crate::source_reconstruction::token_refs_valid;
use crate::syntax::{close_text, open_text};
use crate::text::{decimal, decimal_string};
use crate::index::{AstIndex, BlockIndex, FieldIndex, IdentifierIndex, LiteralIndex, RawLiteralIndex};
use crate::syntax::{ExpressionBoundary, ExpressionBoundaryError};
use vstd::prelude::*;

verus! {

/// A term: a literal, a field or identifier, an error, or nothing at all.
#[derive(Debug, Clone, Copy, PartialEq, Eq, Structural)]
pub enum TermToken {
    IntegerLiteral(LiteralIndex),
    FieldReference(FieldIndex),
    RawIdentifier(IdentifierIndex),
    ErrorTerm(ErrorCode, LiteralIndex),
    RawErrorTerm(ErrorCode, RawLiteralIndex),
    MissingExpression,
}

/// A token that starts an expression: a term, a prefix operator, or an open
/// boundary (with any error in matching it, its kind, and the distance to
/// its close).
#[derive(Debug, Clone, Copy, PartialEq, Eq, Structural)]
pub enum ExpressionToken {
    Term(TermToken),
    PrefixOperator(IdentifierIndex),
    Open(ExpressionBoundaryError, ExpressionBoundary, AstIndex),
}

/// A token that follows an expression: an infix, assignment or postfix
/// operator, or a close boundary (with the distance back to its open, or the
/// block it closes).
#[derive(Debug, Clone, Copy, PartialEq, Eq, Structural)]
pub enum OperatorToken {
    InfixOperator(IdentifierIndex),
    InfixAssignment(IdentifierIndex),
    PostfixOperator(IdentifierIndex),
    Close(AstIndex, ExpressionBoundary),
    CloseBlock(BlockIndex, ExpressionBoundary),
}

/// A token of the AST.
#[derive(Debug, Clone, Copy, PartialEq, Eq, Structural)]
pub enum Token {
    Expression(ExpressionToken),
    Operator(OperatorToken),
}


/// The text of a token, as it is shown: its literal, identifier or field
/// name; raw bytes decoded with `String::from_utf8_lossy`; an assignment
/// operator's operator followed by "="; a boundary's open or close text.
pub open spec fn token_chars(ast: Ast<Token>, token: Token) -> Seq<char> {
    match token {
        Token::Expression(ExpressionToken::Term(term)) => match term {
            TermToken::IntegerLiteral(l) | TermToken::ErrorTerm(_, l) => interned(ast.literals)[l.0 as int],
            TermToken::RawErrorTerm(_, r) => lossy_text(ast.raw_literals@[r.0 as int]@),
            TermToken::FieldReference(f) => interned(ast.identifiers)[ast.fields@[f.0 as int].name.0 as int],
            TermToken::RawIdentifier(i) => interned(ast.identifiers)[i.0 as int],
            TermToken::MissingExpression => seq![],
        },
        Token::Expression(ExpressionToken::PrefixOperator(i)) => interned(ast.identifiers)[i.0 as int],
        Token::Expression(ExpressionToken::Open(_, boundary, _)) => open_text(boundary),
        Token::Operator(op) => match op {
            OperatorToken::InfixOperator(i) | OperatorToken::PostfixOperator(i) => interned(
                ast.identifiers,
            )[i.0 as int],
            OperatorToken::InfixAssignment(i) => interned(ast.identifiers)[i.0 as int] + seq!['='],
            OperatorToken::Close(_, boundary) | OperatorToken::CloseBlock(_, boundary) => close_text(
                boundary,
            ),
        },
    }
}

impl Ast<Token> {
    /// The text of the token at `index`.
    pub fn token_string(&self, index: AstIndex) -> (r: String)
        requires
            index.0 < self.tokens@.len(),
            token_refs_valid(*self, self.tokens@[index.0 as int]),
        ensures
            r@ == token_chars(*self, self.tokens@[index.0 as int]),
    {
        match self.tokens[index.0 as usize] {
            Token::Expression(ExpressionToken::Term(term)) => match term {
                TermToken::IntegerLiteral(literal) | TermToken::ErrorTerm(_, literal) => {
                    String::from_str(self.literal_string(literal))
                },
                TermToken::RawErrorTerm(_, raw_literal) => utf8_lossy(
                    self.raw_literal_string(raw_literal),
                ),
                TermToken::FieldReference(field) => String::from_str(self.field_name(field)),
                TermToken::RawIdentifier(identifier) => String::from_str(
                    self.identifier_string(identifier),
                ),
                TermToken::MissingExpression => String::new(),
            },
            Token::Expression(ExpressionToken::PrefixOperator(identifier)) => String::from_str(
                self.identifier_string(identifier),
            ),
            Token::Expression(ExpressionToken::Open(_, boundary, _)) => String::from_str(
                boundary.open_string(),
            ),
            Token::Operator(operator) => match operator {
                OperatorToken::InfixOperator(identifier) | OperatorToken::PostfixOperator(
                    identifier,
                ) => String::from_str(self.identifier_string(identifier)),
                OperatorToken::InfixAssignment(identifier) => {
                    proof {
                        reveal_strlit("=");
                    }
                    String::from_str(self.identifier_string(identifier)).concat("=")
                },
                OperatorToken::Close(_, boundary) | OperatorToken::CloseBlock(_, boundary) => {
                    String::from_str(boundary.close_string())
                },
            },
        }
    }

    /// The expression token at `index`.
    pub fn expression_token(&self, index: AstIndex) -> (r: ExpressionToken)
        requires
            index.0 < self.tokens@.len(),
            self.tokens@[index.0 as int] is Expression,
        ensures
            self.tokens@[index.0 as int] == Token::Expression(r),
    {
        match self.tokens[index.0 as usize] {
            Token::Expression(token) => token,
            Token::Operator(_) => {
                proof {
                    assert(false);
                }
                ExpressionToken::Term(TermToken::MissingExpression)
            },
        }
    }

    /// The operator token at `index`.
    pub fn operator_token(&self, index: AstIndex) -> (r: OperatorToken)
        requires
            index.0 < self.tokens@.len(),
            self.tokens@[index.0 as int] is Operator,
        ensures
            self.tokens@[index.0 as int] == Token::Operator(r),
    {
        match self.tokens[index.0 as usize] {
            Token::Operator(token) => token,
            Token::Expression(_) => {
                proof {
                    assert(false);
                }
                OperatorToken::InfixOperator(IdentifierIndex(0))
            },
        }
    }

    /// The block that the close token at `index` closes.
    pub fn close_block_index(&self, index: AstIndex) -> (r: BlockIndex)
        requires
            index.0 < self.tokens@.len(),
            self.tokens@[index.0 as int] matches Token::Operator(OperatorToken::CloseBlock(..)),
        ensures
            self.tokens@[index.0 as int] matches Token::Operator(OperatorToken::CloseBlock(b, _)) && b == r,
    {
        match self.tokens[index.0 as usize] {
            Token::Operator(OperatorToken::CloseBlock(block_index, _)) => block_index,
            _ => {
                proof {
                    assert(false);
                }
                BlockIndex(0)
            },
        }
    }
}


/// How a one-number index type shows in a listing: "Name(n)".
pub open spec fn index_debug_text(name: Seq<char>, n: u32) -> Seq<char> {
    name + "("@ + decimal(n as nat) + ")"@
}

/// The name of a boundary kind.
pub open spec fn boundary_name(boundary: ExpressionBoundary) -> Seq<char> {
    match boundary {
        ExpressionBoundary::PrecedenceGroup => "PrecedenceGroup"@,
        ExpressionBoundary::CompoundTerm => "CompoundTerm"@,
        ExpressionBoundary::Parentheses => "Parentheses"@,
        ExpressionBoundary::CurlyBraces => "CurlyBraces"@,
        ExpressionBoundary::Source => "Source"@,
        ExpressionBoundary::Root => "Root"@,
    }
}

/// The name of a boundary error.
pub open spec fn boundary_error_name(error: ExpressionBoundaryError) -> Seq<char> {
    match error {
        ExpressionBoundaryError::CloseWithoutOpen => "CloseWithoutOpen"@,
        ExpressionBoundaryError::OpenWithoutClose => "OpenWithoutClose"@,
        ExpressionBoundaryError::OpenError => "OpenError"@,
        ExpressionBoundaryError::NoError => "NoError"@,
    }
}

/// "name(inner)".
pub open spec fn wrap_text(name: Seq<char>, inner: Seq<char>) -> Seq<char> {
    name + "("@ + inner + ")"@
}

/// "name(first, second)".
pub open spec fn pair_text(name: Seq<char>, first: Seq<char>, second: Seq<char>) -> Seq<char> {
    name + "("@ + first + ", "@ + second + ")"@
}

/// How a term token shows in a listing.
pub open spec fn term_debug_text(term: TermToken) -> Seq<char> {
    match term {
        TermToken::IntegerLiteral(l) => wrap_text("IntegerLiteral"@, index_debug_text("LiteralIndex"@, l.0)),
        TermToken::FieldReference(f) => wrap_text("FieldReference"@, index_debug_text("FieldIndex"@, f.0)),
        TermToken::RawIdentifier(i) => wrap_text("RawIdentifier"@, index_debug_text("IdentifierIndex"@, i.0)),
        TermToken::ErrorTerm(code, l) => pair_text(
            "ErrorTerm"@,
            spec_code_name(code),
            index_debug_text("LiteralIndex"@, l.0),
        ),
        TermToken::RawErrorTerm(code, r) => pair_text(
            "RawErrorTerm"@,
            spec_code_name(code),
            index_debug_text("RawLiteralIndex"@, r.0),
        ),
        TermToken::MissingExpression => "MissingExpression"@,
    }
}

/// How an expression token shows in a listing.
pub open spec fn expression_debug_text(token: ExpressionToken) -> Seq<char> {
    match token {
        ExpressionToken::Term(term) => wrap_text("Term"@, term_debug_text(term)),
        ExpressionToken::PrefixOperator(i) => wrap_text(
            "PrefixOperator"@,
            index_debug_text("IdentifierIndex"@, i.0),
        ),
        ExpressionToken::Open(error, boundary, delta) => pair_text(
            "Open"@,
            boundary_error_name(error),
            boundary_name(boundary) + ", "@ + index_debug_text("AstIndex"@, delta.0),
        ),
    }
}

/// How an operator token shows in a listing.
pub open spec fn operator_debug_text(token: OperatorToken) -> Seq<char> {
    match token {
        OperatorToken::InfixOperator(i) => wrap_text("InfixOperator"@, index_debug_text("IdentifierIndex"@, i.0)),
        OperatorToken::InfixAssignment(i) => wrap_text(
            "InfixAssignment"@,
            index_debug_text("IdentifierIndex"@, i.0),
        ),
        OperatorToken::PostfixOperator(i) => wrap_text(
            "PostfixOperator"@,
            index_debug_text("IdentifierIndex"@, i.0),
        ),
        OperatorToken::Close(delta, boundary) => pair_text(
            "Close"@,
            index_debug_text("AstIndex"@, delta.0),
            boundary_name(boundary),
        ),
        OperatorToken::CloseBlock(block, boundary) => pair_text(
            "CloseBlock"@,
            index_debug_text("BlockIndex"@, block.0),
            boundary_name(boundary),
        ),
    }
}

/// How a token shows in a listing: its variants and fields, as `{:?}`
/// writes them.
pub open spec fn token_debug_text(token: Token) -> Seq<char> {
    match token {
        Token::Expression(e) => wrap_text("Expression"@, expression_debug_text(e)),
        Token::Operator(o) => wrap_text("Operator"@, operator_debug_text(o)),
    }
}

fn index_debug(name: &str, n: u32) -> (r: String)
    ensures
        r@ == index_debug_text(name@, n),
{
    String::from_str(name).concat("(").concat(decimal_string(n as u64).as_str()).concat(")")
}

fn wrapped(name: &str, inner: String) -> (r: String)
    ensures
        r@ == wrap_text(name@, inner@),
{
    String::from_str(name).concat("(").concat(inner.as_str()).concat(")")
}

fn pair(name: &str, first: &str, second: String) -> (r: String)
    ensures
        r@ == pair_text(name@, first@, second@),
{
    String::from_str(name).concat("(").concat(first).concat(", ").concat(second.as_str()).concat(")")
}

impl ExpressionBoundary {
    /// The name of this boundary kind.
    pub fn name(self) -> (r: &'static str)
        ensures
            r@ == boundary_name(self),
    {
        match self {
            ExpressionBoundary::PrecedenceGroup => "PrecedenceGroup",
            ExpressionBoundary::CompoundTerm => "CompoundTerm",
            ExpressionBoundary::Parentheses => "Parentheses",
            ExpressionBoundary::CurlyBraces => "CurlyBraces",
            ExpressionBoundary::Source => "Source",
            ExpressionBoundary::Root => "Root",
        }
    }
}

impl ExpressionBoundaryError {
    /// The name of this boundary error.
    pub fn name(self) -> (r: &'static str)
        ensures
            r@ == boundary_error_name(self),
    {
        match self {
            ExpressionBoundaryError::CloseWithoutOpen => "CloseWithoutOpen",
            ExpressionBoundaryError::OpenWithoutClose => "OpenWithoutClose",
            ExpressionBoundaryError::OpenError => "OpenError",
            ExpressionBoundaryError::NoError => "NoError",
        }
    }
}

fn term_debug(term: TermToken) -> (r: String)
    ensures
        r@ == term_debug_text(term),
{
    match term {
        TermToken::IntegerLiteral(l) => wrapped("IntegerLiteral", index_debug("LiteralIndex", l.0)),
        TermToken::FieldReference(f) => wrapped("FieldReference", index_debug("FieldIndex", f.0)),
        TermToken::RawIdentifier(i) => wrapped("RawIdentifier", index_debug("IdentifierIndex", i.0)),
        TermToken::ErrorTerm(code, l) => {
            let name = code.to_string();
            pair("ErrorTerm", name.as_str(), index_debug("LiteralIndex", l.0))
        },
        TermToken::RawErrorTerm(code, r) => {
            let name = code.to_string();
            pair("RawErrorTerm", name.as_str(), index_debug("RawLiteralIndex", r.0))
        },
        TermToken::MissingExpression => String::from_str("MissingExpression"),
    }
}

fn expression_debug(token: ExpressionToken) -> (r: String)
    ensures
        r@ == expression_debug_text(token),
{
    match token {
        ExpressionToken::Term(term) => wrapped("Term", term_debug(term)),
        ExpressionToken::PrefixOperator(i) => wrapped("PrefixOperator", index_debug("IdentifierIndex", i.0)),
        ExpressionToken::Open(error, boundary, delta) => {
            let index = index_debug("AstIndex", delta.0);
            let rest = String::from_str(boundary.name()).concat(", ").concat(index.as_str());
            pair("Open", error.name(), rest)
        },
    }
}

fn operator_debug(token: OperatorToken) -> (r: String)
    ensures
        r@ == operator_debug_text(token),
{
    match token {
        OperatorToken::InfixOperator(i) => wrapped("InfixOperator", index_debug("IdentifierIndex", i.0)),
        OperatorToken::InfixAssignment(i) => wrapped("InfixAssignment", index_debug("IdentifierIndex", i.0)),
        OperatorToken::PostfixOperator(i) => wrapped("PostfixOperator", index_debug("IdentifierIndex", i.0)),
        OperatorToken::Close(delta, boundary) => {
            let first = index_debug("AstIndex", delta.0);
            pair("Close", first.as_str(), String::from_str(boundary.name()))
        },
        OperatorToken::CloseBlock(block, boundary) => {
            let first = index_debug("BlockIndex", block.0);
            pair("CloseBlock", first.as_str(), String::from_str(boundary.name()))
        },
    }
}

impl Token {
    /// The token as `{:?}` writes it: its variants and their fields.
    pub fn debug_text(&self) -> (r: String)
        ensures
            r@ == token_debug_text(*self),
    {
        match *self {
            Token::Expression(e) => wrapped("Expression", expression_debug(e)),
            Token::Operator(o) => wrapped("Operator", operator_debug(o)),
        }
    }
}

/// The line that lists token `i`: "[range] text debug".
pub open spec fn token_line(ast: Ast<Token>, i: int) -> Seq<char> {
    let range = ast.token_ranges@[i];
    let positions = LineColumnRange {
        start: spec_location(ast.char_data.line_starts@, range.start as int),
        end: if range.start == range.end {
            None
        } else {
            Some(spec_location(ast.char_data.line_starts@, range.end - 1))
        },
    };
    "["@ + line_column_range_text(positions) + "] "@ + token_chars(ast, ast.tokens@[i]) + " "@
        + token_debug_text(ast.tokens@[i]) + "\n"@
}

/// The lines that list the first `n` tokens.
pub open spec fn token_lines(ast: Ast<Token>, n: int) -> Seq<char>
    decreases n,
{
    if n <= 0 {
        seq![]
    } else {
        token_lines(ast, n - 1) + token_line(ast, n - 1)
    }
}

/// Each token can be listed: what it refers to is in the AST, and its range
/// can be placed in lines and columns.
pub open spec fn listable(ast: Ast<Token>) -> bool {
    &&& ast.char_data.wf()
    &&& forall|i: int|
        0 <= i < ast.tokens@.len() ==> {
            let range = #[trigger] ast.token_ranges@[i];
            &&& token_refs_valid(ast, ast.tokens@[i])
            &&& range.start < usize::MAX
            &&& range.start == range.end || 1 <= range.end < usize::MAX
        }
}

impl Ast<Token> {
    /// The line that lists the token at `index`.
    fn token_line(&self, index: usize) -> (r: String)
        requires
            self.wf(),
            listable(*self),
            index < self.tokens@.len(),
        ensures
            r@ == token_line(*self, index as int),
    {
        let range = self.char_data.range(&self.token_ranges[index]);
        String::from_str("[").concat(range.to_string().as_str()).concat("] ").concat(
            self.token_string(AstIndex(index as u32)).as_str(),
        ).concat(" ").concat(self.tokens[index].debug_text().as_str()).concat("\n")
    }

    /// Lists the tokens, one per line: where each is, its text, and the
    /// token itself.
    pub fn token_listing(&self) -> (r: String)
        requires
            self.wf(),
            listable(*self),
        ensures
            r@ == "Tokens:\n"@ + token_lines(*self, self.tokens@.len() as int),
    {
        let mut f = String::from_str("Tokens:\n");
        let mut index: usize = 0;
        while index < self.tokens.len()
            invariant
                self.wf(),
                listable(*self),
                index <= self.tokens@.len(),
                f@ == "Tokens:\n"@ + token_lines(*self, index as int),
            decreases self.tokens@.len() - index,
        {
            let line = self.token_line(index);
            f.append(line.as_str());
            index += 1;
        }
        f
    }
}

} // verus!
