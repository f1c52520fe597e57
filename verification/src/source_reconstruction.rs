//! Reconstructs the source text from a parsed AST. The AST keeps every token
//! with its byte range, every run of whitespace and every line start, so a
//! range of the source can be read back from it: each position is printed
//! from the token that covers it, else from the whitespace that covers it,
//! else as a line ending where a line starts next, else as a space.

use crate::ast::Ast;
use crate::formatting::{lossy_text, utf8_lossy};
use crate::char_data::{ByteIndex, ByteRange};
use crate::identifiers::{APPLY, NEWLINE};
use crate::index::{IdentifierIndex, LiteralIndex};
use crate::interner::{interned, interner_resolve};
use crate::syntax::{close_text, open_text};
use crate::token::{ExpressionToken, OperatorToken, TermToken, Token};
use crate::syntax::{ExpressionBoundary, ExpressionBoundaryError};
use crate::index::{AstIndex, BlockIndex};
use vstd::prelude::*;
use vstd::slice::slice_subrange;
use vstd::string::StringSliceAdditionalSpecFns;
use vstd::utf8::encode_utf8;

verus! {

/// The bytes of an identifier.
pub open spec fn identifier_bytes(ast: Ast<Token>, id: IdentifierIndex) -> Seq<u8> {
    encode_utf8(interned(ast.identifiers)[id.0 as int])
}

/// The bytes of a literal.
pub open spec fn literal_bytes(ast: Ast<Token>, literal: LiteralIndex) -> Seq<u8> {
    encode_utf8(interned(ast.literals)[literal.0 as int])
}

/// The AST holds everything the token refers to.
pub open spec fn token_refs_valid(ast: Ast<Token>, token: Token) -> bool {
    match token {
        Token::Expression(ExpressionToken::Term(term)) => match term {
            TermToken::IntegerLiteral(l) | TermToken::ErrorTerm(_, l) => l.0 < interned(
                ast.literals,
            ).len(),
            TermToken::RawErrorTerm(_, r) => r.0 < ast.raw_literals@.len(),
            TermToken::FieldReference(f) => f.0 < ast.fields@.len() && ast.fields@[f.0 as int].name.0
                < interned(ast.identifiers).len(),
            TermToken::RawIdentifier(i) => i.0 < interned(ast.identifiers).len(),
            TermToken::MissingExpression => true,
        },
        Token::Expression(ExpressionToken::PrefixOperator(i)) => i.0 < interned(ast.identifiers).len(),
        Token::Expression(ExpressionToken::Open(..)) => true,
        Token::Operator(op) => match op {
            OperatorToken::InfixOperator(i)
            | OperatorToken::InfixAssignment(i)
            | OperatorToken::PostfixOperator(i) => i.0 < interned(ast.identifiers).len(),
            _ => true,
        },
    }
}

/// The source text of a token.
pub open spec fn token_text(ast: Ast<Token>, token: Token) -> Seq<u8> {
    match token {
        Token::Expression(ExpressionToken::Term(term)) => match term {
            TermToken::IntegerLiteral(l) | TermToken::ErrorTerm(_, l) => literal_bytes(ast, l),
            TermToken::RawErrorTerm(_, r) => ast.raw_literals@[r.0 as int]@,
            TermToken::FieldReference(f) => identifier_bytes(ast, ast.fields@[f.0 as int].name),
            TermToken::RawIdentifier(i) => identifier_bytes(ast, i),
            TermToken::MissingExpression => seq![],
        },
        Token::Expression(ExpressionToken::PrefixOperator(i)) => identifier_bytes(ast, i),
        Token::Expression(ExpressionToken::Open(_, boundary, _)) => encode_utf8(open_text(boundary)),
        Token::Operator(op) => match op {
            OperatorToken::InfixOperator(i) | OperatorToken::PostfixOperator(i) => identifier_bytes(
                ast,
                i,
            ),
            OperatorToken::InfixAssignment(i) => identifier_bytes(ast, i) + seq![61u8],
            OperatorToken::Close(_, boundary) | OperatorToken::CloseBlock(_, boundary) => encode_utf8(
                close_text(boundary),
            ),
        },
    }
}

/// Opening and closing bytes that belong together: "(" with ")", "{" with
/// "}", or nothing with nothing.
pub open spec fn bracket_bytes_match(open: Seq<u8>, close: Seq<u8>) -> bool {
    ||| open == seq!['(' as u8] && close == seq![')' as u8]
    ||| open == seq!['{' as u8] && close == seq!['}' as u8]
    ||| open.len() == 0 && close.len() == 0
}

/// The tokens of a boundary print brackets that belong together: the open
/// token of parentheses prints "(" and its close ")", that of curly braces
/// "{" and "}", and other boundaries print nothing. So a source with
/// brackets is read back with the same brackets.
pub proof fn lemma_boundary_tokens_print_brackets(
    ast: Ast<Token>,
    boundary: ExpressionBoundary,
    error: ExpressionBoundaryError,
    close_index: AstIndex,
    open_index: AstIndex,
    block: BlockIndex,
)
    ensures
        ({
            let open = token_text(ast, Token::Expression(ExpressionToken::Open(error, boundary, close_index)));
            let close = token_text(ast, Token::Operator(OperatorToken::Close(open_index, boundary)));
            let close_block = token_text(ast, Token::Operator(OperatorToken::CloseBlock(block, boundary)));
            &&& bracket_bytes_match(open, close)
            &&& close_block == close
            &&& boundary == ExpressionBoundary::Parentheses ==> open == seq!['(' as u8]
            &&& boundary == ExpressionBoundary::CurlyBraces ==> open == seq!['{' as u8]
            &&& open.len() > 0 <==> (boundary == ExpressionBoundary::Parentheses || boundary
                == ExpressionBoundary::CurlyBraces)
        }),
{
    let o = open_text(boundary);
    let c = close_text(boundary);
    if o.len() > 0 {
        vstd::utf8::is_ascii_chars_encode_utf8(o);
        vstd::utf8::is_ascii_chars_encode_utf8(c);
        assert(encode_utf8(o) =~= seq![o[0] as u8]);
        assert(encode_utf8(c) =~= seq![c[0] as u8]);
    }
}

/// A newline operator: its text comes from the whitespace and line data.
pub open spec fn is_newline(token: Token) -> bool {
    token == Token::Operator(OperatorToken::InfixOperator(IdentifierIndex(NEWLINE)))
}

/// An application operator: it has no text of its own.
pub open spec fn is_apply(token: Token) -> bool {
    token == Token::Operator(OperatorToken::InfixOperator(IdentifierIndex(APPLY)))
}

/// Token `i` covers no bytes.
pub open spec fn token_is_empty(ast: Ast<Token>, i: int) -> bool {
    ast.token_ranges@[i].start >= ast.token_ranges@[i].end
}

/// Token `i` is printed from its own text and covers bytes.
pub open spec fn prints_text(ast: Ast<Token>, i: int) -> bool {
    !is_newline(ast.tokens@[i]) && !token_is_empty(ast, i)
}

/// Token `i` is what its range says: its references are valid, its text
/// fills its range exactly (newlines excepted), and an application operator
/// covers nothing.
pub open spec fn token_fits(ast: Ast<Token>, i: int) -> bool {
    let token = ast.tokens@[i];
    let range = ast.token_ranges@[i];
    &&& token_refs_valid(ast, token)
    &&& range.start <= range.end
    &&& is_apply(token) ==> range.start == range.end
    &&& !is_newline(token) ==> range.end - range.start == token_text(ast, token).len()
}

/// The `k`th run of whitespace: where it starts.
pub open spec fn whitespace_start(ast: Ast<Token>, k: int) -> int {
    ast.char_data.whitespace_ranges@[k].1 as int
}

/// The text of the `k`th run of whitespace.
pub open spec fn whitespace_text(ast: Ast<Token>, k: int) -> Seq<u8> {
    encode_utf8(
        interned(ast.char_data.whitespace_characters)[ast.char_data.whitespace_ranges@[k].0.value()],
    )
}

/// Where the `k`th run of whitespace ends.
pub open spec fn whitespace_end(ast: Ast<Token>, k: int) -> int {
    whitespace_start(ast, k) + whitespace_text(ast, k).len()
}

/// The `k`th run of whitespace names an interned text, which is not empty.
pub open spec fn whitespace_fits(ast: Ast<Token>, k: int) -> bool {
    let w = ast.char_data.whitespace_ranges@[k].0;
    &&& w.wf()
    &&& w.value() < interned(ast.char_data.whitespace_characters).len()
    &&& whitespace_text(ast, k).len() > 0
    &&& whitespace_end(ast, k) <= usize::MAX
}

/// An AST whose tokens and whitespace describe one source: the tokens fit
/// their ranges, the runs of whitespace come in order without overlapping,
/// and no token printed from its own text overlaps a run of whitespace.
pub open spec fn reconstructible(ast: Ast<Token>) -> bool {
    let tokens = ast.tokens@.len();
    let spaces = ast.char_data.whitespace_ranges@.len();
    &&& ast.wf()
    &&& tokens > 0
    &&& forall|i: int| 0 <= i < tokens ==> #[trigger] token_fits(ast, i)
    &&& forall|k: int| 0 <= k < spaces ==> #[trigger] whitespace_fits(ast, k)
    &&& forall|k: int|
        0 <= k < spaces - 1 ==> #[trigger] whitespace_end(ast, k) <= whitespace_start(ast, k + 1)
    &&& forall|i: int, k: int|
        0 <= i < tokens && 0 <= k < spaces && #[trigger] prints_text(ast, i) ==> ast.token_ranges@[i].end
            <= #[trigger] whitespace_start(ast, k) || whitespace_end(ast, k)
            <= ast.token_ranges@[i].start
}

/// A range that can be read back: it does not run backwards, and some token
/// ends after its start (the source's closing token, at least).
pub open spec fn readable_range(ast: Ast<Token>, range: ByteRange) -> bool {
    &&& range.start <= range.end
    &&& range.start < range.end ==> ast.token_ranges@.last().end > range.start
}

/// Token `t` is printed from its own text and covers position `p`.
pub open spec fn token_covers(ast: Ast<Token>, t: int, p: int) -> bool {
    &&& prints_text(ast, t)
    &&& ast.token_ranges@[t].start <= p < ast.token_ranges@[t].end
}

/// The `k`th run of whitespace covers position `p`.
pub open spec fn whitespace_covers(ast: Ast<Token>, k: int, p: int) -> bool {
    whitespace_start(ast, k) <= p < whitespace_end(ast, k)
}

/// A line starts at position `p`.
pub open spec fn line_starts_at(ast: Ast<Token>, p: int) -> bool {
    exists|m: int| 0 <= m < ast.char_data.line_starts@.len() && #[trigger] ast.char_data.line_starts@[m] == p
}

/// The byte at position `p` of the source, as the AST records it: from the
/// token that covers it, else from the run of whitespace that covers it,
/// else a line ending where a line starts right after it, else a space.
pub open spec fn source_byte(ast: Ast<Token>, p: int) -> u8 {
    let tokens = ast.tokens@.len();
    let spaces = ast.char_data.whitespace_ranges@.len();
    if exists|t: int| 0 <= t < tokens && #[trigger] token_covers(ast, t, p) {
        let t = choose|t: int| 0 <= t < tokens && #[trigger] token_covers(ast, t, p);
        token_text(ast, ast.tokens@[t])[p - ast.token_ranges@[t].start]
    } else if exists|k: int| 0 <= k < spaces && #[trigger] whitespace_covers(ast, k, p) {
        let k = choose|k: int| 0 <= k < spaces && #[trigger] whitespace_covers(ast, k, p);
        whitespace_text(ast, k)[p - whitespace_start(ast, k)]
    } else if line_starts_at(ast, p + 1) {
        10u8
    } else {
        32u8
    }
}

/// The line starts never decrease.
pub open spec fn line_starts_sorted(ast: Ast<Token>) -> bool {
    forall|a: int, b: int|
        0 <= a <= b < ast.char_data.line_starts@.len() ==> #[trigger] ast.char_data.line_starts@[a]
            <= #[trigger] ast.char_data.line_starts@[b]
}

/// No run of whitespace starts before a newline operator and runs into it.
pub open spec fn newlines_not_straddled(ast: Ast<Token>) -> bool {
    forall|i: int, k: int|
        0 <= i < ast.tokens@.len() && 0 <= k < ast.char_data.whitespace_ranges@.len() && is_newline(
            #[trigger] ast.tokens@[i],
        ) && #[trigger] whitespace_start(ast, k) < ast.token_ranges@[i].start ==> whitespace_end(
            ast,
            k,
        ) <= ast.token_ranges@[i].start
}

/// Reading can start at `start`: it is not inside the last run of
/// whitespace past its first byte, and the first token that ends after it
/// covers bytes.
pub open spec fn clean_start(ast: Ast<Token>, start: int) -> bool {
    &&& forall|k: int|
        0 <= k < ast.char_data.whitespace_ranges@.len() && #[trigger] whitespace_start(ast, k) < start
            ==> whitespace_end(ast, k) <= start || k + 1 < ast.char_data.whitespace_ranges@.len()
    &&& forall|i: int|
        0 <= i < ast.tokens@.len() && #[trigger] ast.token_ranges@[i].end > start && (forall|j: int|
            0 <= j < i ==> #[trigger] ast.token_ranges@[j].end <= start) ==> ast.token_ranges@[i].start
            < ast.token_ranges@[i].end
}

/// The line starts are sorted, and no whitespace runs into a newline
/// operator.
pub open spec fn layout_consistent(ast: Ast<Token>) -> bool {
    &&& line_starts_sorted(ast)
    &&& newlines_not_straddled(ast)
}

/// What reading `range` back needs to give exactly the source bytes: a
/// consistent layout and a clean start.
pub open spec fn faithful(ast: Ast<Token>, range: ByteRange) -> bool {
    &&& layout_consistent(ast)
    &&& clean_start(ast, range.start as int)
}

/// The source bytes of `range`, as the AST records them.
pub open spec fn source_bytes(ast: Ast<Token>, range: ByteRange) -> Seq<u8> {
    Seq::new((range.end - range.start) as nat, |q: int| source_byte(ast, range.start + q))
}

/// The part of `bytes`, which start at `start`, from position `p` on, cut
/// at `end`.
pub open spec fn clip(bytes: Seq<u8>, start: int, p: int, end: int) -> Seq<u8> {
    bytes.subrange(
        p - start,
        if bytes.len() <= end - start {
            bytes.len() as int
        } else {
            end - start
        },
    )
}

/// The piece of the source read at position `p` of a range that ends at
/// `end`: from the token that covers `p` (what it prints there), else from
/// the run of whitespace that covers it, each from `p` on and cut at `end`;
/// else a line ending where a line starts right after `p`, else a space.
pub open spec fn piece_at(ast: Ast<Token>, p: int, end: int) -> Seq<u8> {
    let tokens = ast.tokens@.len();
    let spaces = ast.char_data.whitespace_ranges@.len();
    if exists|t: int| 0 <= t < tokens && #[trigger] token_covers(ast, t, p) {
        let t = choose|t: int| 0 <= t < tokens && #[trigger] token_covers(ast, t, p);
        match token_piece(ast, ast.tokens@[t], ast.token_ranges@[t].start as int, p) {
            Some((start, bytes)) => clip(bytes, start, p, end),
            None => seq![],
        }
    } else if exists|k: int| 0 <= k < spaces && #[trigger] whitespace_covers(ast, k, p) {
        let k = choose|k: int| 0 <= k < spaces && #[trigger] whitespace_covers(ast, k, p);
        clip(whitespace_text(ast, k), whitespace_start(ast, k), p, end)
    } else if line_starts_at(ast, p + 1) {
        seq![10u8]
    } else {
        seq![32u8]
    }
}

/// The pieces the source from position `from` to `end` is read in, one after
/// the other.
pub open spec fn pieces_of(ast: Ast<Token>, from: int, end: int) -> Seq<Seq<u8>>
    decreases end - from,
{
    if from >= end {
        seq![]
    } else {
        let piece = piece_at(ast, from, end);
        if 0 < piece.len() <= end - from {
            seq![piece] + pieces_of(ast, from + piece.len(), end)
        } else {
            seq![]
        }
    }
}

/// The pieces a range of the source is read in.
pub open spec fn source_pieces(ast: Ast<Token>, range: ByteRange) -> Seq<Seq<u8>> {
    pieces_of(ast, range.start as int, range.end as int)
}

/// A piece read from `start` on, whose part from `p` on is `bytes`: that part
/// runs to the piece's end or to `end`, whichever comes first.
proof fn lemma_clip(piece: Seq<u8>, start: int, p: int, end: int, bytes: Seq<u8>)
    requires
        start <= p,
        p + bytes.len() <= end,
        p - start + bytes.len() <= piece.len(),
        p + bytes.len() == end || p - start + bytes.len() == piece.len(),
        forall|q: int| 0 <= q < bytes.len() ==> bytes[q] == piece[p - start + q],
    ensures
        bytes == clip(piece, start, p, end),
{
    assert(bytes =~= clip(piece, start, p, end));
}

/// Tokens come in order: each ends at or before any later one starts.
pub proof fn lemma_tokens_ordered(ast: Ast<Token>, i: int, j: int)
    requires
        reconstructible(ast),
        0 <= i < j < ast.tokens@.len(),
    ensures
        ast.token_ranges@[i].end <= ast.token_ranges@[j].start,
    decreases j - i,
{
    if j > i + 1 {
        lemma_tokens_ordered(ast, i, j - 1);
        assert(token_fits(ast, j - 1));
    }
}

/// Runs of whitespace come in order: each ends at or before any later one
/// starts.
pub proof fn lemma_whitespace_ordered(ast: Ast<Token>, a: int, b: int)
    requires
        reconstructible(ast),
        0 <= a < b < ast.char_data.whitespace_ranges@.len(),
    ensures
        whitespace_end(ast, a) <= whitespace_start(ast, b),
    decreases b - a,
{
    if b > a + 1 {
        lemma_whitespace_ordered(ast, a, b - 1);
    }
    assert(whitespace_end(ast, b - 1) <= whitespace_start(ast, b));
}

/// A position covered by a token is that token's byte.
pub proof fn lemma_token_byte(ast: Ast<Token>, t: int, p: int)
    requires
        reconstructible(ast),
        0 <= t < ast.tokens@.len(),
        token_covers(ast, t, p),
    ensures
        source_byte(ast, p) == token_text(ast, ast.tokens@[t])[p - ast.token_ranges@[t].start],
{
    let c = choose|c: int| 0 <= c < ast.tokens@.len() && #[trigger] token_covers(ast, c, p);
    if c < t {
        lemma_tokens_ordered(ast, c, t);
    } else if t < c {
        lemma_tokens_ordered(ast, t, c);
    }
}

/// A position covered by a run of whitespace is that run's byte.
pub proof fn lemma_whitespace_byte(ast: Ast<Token>, k: int, p: int)
    requires
        reconstructible(ast),
        0 <= k < ast.char_data.whitespace_ranges@.len(),
        whitespace_covers(ast, k, p),
    ensures
        source_byte(ast, p) == whitespace_text(ast, k)[p - whitespace_start(ast, k)],
{
    assert forall|t: int| 0 <= t < ast.tokens@.len() implies !token_covers(ast, t, p) by {
        if token_covers(ast, t, p) {
            assert(prints_text(ast, t));
            assert(ast.token_ranges@[t].end <= whitespace_start(ast, k) || whitespace_end(ast, k)
                <= ast.token_ranges@[t].start);
        }
    }
    let c = choose|c: int|
        0 <= c < ast.char_data.whitespace_ranges@.len() && #[trigger] whitespace_covers(ast, c, p);
    if c < k {
        lemma_whitespace_ordered(ast, c, k);
    } else if k < c {
        lemma_whitespace_ordered(ast, k, c);
    }
}

/// Iterates through the AST, yielding byte strings that reconstruct the
/// source, in order. It walks the tokens, the runs of whitespace and the line
/// starts in parallel, and picks whichever covers the current position.
struct SourceReconstructionIterator<'p> {
    /// The AST being read.
    ast: &'p Ast<Token>,
    /// The current byte index (in the original source).
    index: ByteIndex,
    /// The end of the range being read (exclusive).
    end: ByteIndex,
    /// The next token to print.
    ast_index: usize,
    /// The next run of whitespace to print.
    whitespace_index: usize,
    /// The next line start.
    line_start_index: usize,
}

/// The first token that ends after `index`, or the number of tokens.
fn find_ast_index(ast: &Ast<Token>, index: ByteIndex) -> (r: usize)
    ensures
        r <= ast.token_ranges@.len(),
        r < ast.token_ranges@.len() ==> ast.token_ranges@[r as int].end > index,
        forall|i: int| 0 <= i < r ==> #[trigger] ast.token_ranges@[i].end <= index,
{
    let mut i: usize = 0;
    while i < ast.token_ranges.len()
        invariant
            i <= ast.token_ranges@.len(),
            forall|j: int| 0 <= j < i ==> #[trigger] ast.token_ranges@[j].end <= index,
        decreases ast.token_ranges@.len() - i,
    {
        if ast.token_ranges[i].end > index {
            return i;
        }
        i += 1;
    }
    i
}

/// The length of the text of the `k`th run of whitespace.
fn whitespace_length(ast: &Ast<Token>, k: usize) -> (r: usize)
    requires
        k < ast.char_data.whitespace_ranges@.len(),
        whitespace_fits(*ast, k as int),
    ensures
        r == whitespace_text(*ast, k as int).len(),
{
    let w = ast.char_data.whitespace_ranges[k].0;
    interner_resolve(&ast.char_data.whitespace_characters, w.to_usize()).unwrap().len()
}

/// The run of whitespace to print at `index`: the first that starts at or
/// after it, or the one before that when it covers `index`; when none starts
/// at or after `index`, past the last run.
fn find_whitespace_index(ast: &Ast<Token>, index: ByteIndex) -> (r: usize)
    requires
        reconstructible(*ast),
    ensures
        r <= ast.char_data.whitespace_ranges@.len(),
        r < ast.char_data.whitespace_ranges@.len() ==> whitespace_start(*ast, r as int) >= index
            || index < whitespace_end(*ast, r as int),
        clean_start(*ast, index as int) ==> forall|k: int|
            0 <= k < r ==> #[trigger] whitespace_end(*ast, k) <= index,
{
    let ranges = &ast.char_data.whitespace_ranges;
    let mut next: usize = 0;
    while next < ranges.len() && ranges[next].1 < index
        invariant
            next <= ranges@.len(),
            ranges@ == ast.char_data.whitespace_ranges@,
            forall|k: int| 0 <= k < next ==> #[trigger] whitespace_start(*ast, k) < index,
        decreases ranges@.len() - next,
    {
        next += 1;
    }
    if next < ranges.len() {
        if next > 0 {
            let start = ranges[next - 1].1;
            assert(whitespace_fits(*ast, next - 1));
            if start + whitespace_length(ast, next - 1) > index {
                proof {
                    assert forall|k: int| 0 <= k < next - 1 implies #[trigger] whitespace_end(*ast, k)
                        <= index by {
                        lemma_whitespace_ordered(*ast, k, next - 1);
                    }
                }
                return next - 1;
            }
        }
        proof {
            assert forall|k: int| 0 <= k < next implies #[trigger] whitespace_end(*ast, k) <= index by {
                if k < next - 1 {
                    lemma_whitespace_ordered(*ast, k, next - 1);
                }
            }
        }
        return next;
    }
    proof {
        if clean_start(*ast, index as int) {
            assert forall|k: int| 0 <= k < next implies #[trigger] whitespace_end(*ast, k) <= index by {
                if k < next - 1 {
                    lemma_whitespace_ordered(*ast, k, next - 1);
                }
                assert(whitespace_start(*ast, k) < index);
            }
        }
    }
    ranges.len()
}

/// The bytes "=" (an assignment operator's last byte).
fn equals_bytes() -> (r: &'static [u8])
    ensures
        r@ == seq![61u8],
{
    let s = "=";
    proof {
        reveal_strlit("=");
        vstd::string::is_ascii_spec_bytes(s);
    }
    let b = s.as_bytes();
    assert(b@ =~= seq![61u8]);
    b
}

/// The bytes "\n".
fn newline_bytes() -> (r: &'static [u8])
    ensures
        r@ == seq![10u8],
{
    let s = "\n";
    proof {
        reveal_strlit("\n");
        vstd::string::is_ascii_spec_bytes(s);
    }
    let b = s.as_bytes();
    assert(b@ =~= seq![10u8]);
    b
}

/// The bytes " ".
fn space_bytes() -> (r: &'static [u8])
    ensures
        r@ == seq![32u8],
{
    let s = " ";
    proof {
        reveal_strlit(" ");
        vstd::string::is_ascii_spec_bytes(s);
    }
    let b = s.as_bytes();
    assert(b@ =~= seq![32u8]);
    b
}

/// What a token prints when the current position is `index`: nothing for a
/// newline operator; for an assignment operator, its operator's text, then
/// "=" once the position reaches it; otherwise its text, from its start.
pub open spec fn token_piece(ast: Ast<Token>, token: Token, token_start: int, index: int) -> Option<
    (int, Seq<u8>),
> {
    if is_newline(token) {
        None
    } else {
        match token {
            Token::Operator(OperatorToken::InfixAssignment(i)) => {
                let operator = identifier_bytes(ast, i);
                if index == token_start + operator.len() {
                    Some((index, seq![61u8]))
                } else {
                    Some((token_start, operator))
                }
            },
            _ => Some((token_start, token_text(ast, token))),
        }
    }
}

/// The tokens before token `ai` that print are behind position `index`.
pub open spec fn tokens_behind(ast: Ast<Token>, ai: int, index: int) -> bool {
    forall|j: int| 0 <= j < ai && prints_text(ast, j) ==> #[trigger] ast.token_ranges@[j].end <= index
}

/// Token `ai` covers bytes and ends after position `index`; or no later
/// token that prints ends after it.
pub open spec fn token_ahead(ast: Ast<Token>, ai: int, index: int) -> bool {
    ||| (ast.token_ranges@[ai].start < ast.token_ranges@[ai].end && ast.token_ranges@[ai].end > index)
    ||| forall|j: int|
        ai < j < ast.tokens@.len() && prints_text(ast, j) ==> #[trigger] ast.token_ranges@[j].end <= index
}

/// The runs of whitespace before run `wi` are behind position `index`.
pub open spec fn whitespace_behind(ast: Ast<Token>, wi: int, index: int) -> bool {
    forall|k: int| 0 <= k < wi ==> #[trigger] whitespace_end(ast, k) <= index
}

/// The line starts before line start `lsi` are at or before position
/// `index`.
pub open spec fn lines_behind(ast: Ast<Token>, lsi: int, index: int) -> bool {
    forall|m: int| 0 <= m < lsi ==> #[trigger] ast.char_data.line_starts@[m] <= index
}

/// With the tokens and runs of whitespace behind and ahead as the iterator
/// keeps them, and the current token not printing at `index`, no token
/// prints at `index`.
proof fn lemma_no_token_covers(ast: Ast<Token>, ai: int, index: int)
    requires
        reconstructible(ast),
        0 <= ai < ast.tokens@.len(),
        tokens_behind(ast, ai, index),
        token_ahead(ast, ai, index),
        !token_covers(ast, ai, index),
    ensures
        forall|t: int| 0 <= t < ast.tokens@.len() ==> !#[trigger] token_covers(ast, t, index),
{
    assert forall|t: int| 0 <= t < ast.tokens@.len() implies !#[trigger] token_covers(ast, t, index) by {
        if token_covers(ast, t, index) && t > ai {
            lemma_tokens_ordered(ast, ai, t);
        }
    }
}

/// When the current run of whitespace starts after `index` (or there is
/// none), no run of whitespace covers `index`.
proof fn lemma_no_whitespace_covers(ast: Ast<Token>, wi: int, index: int)
    requires
        reconstructible(ast),
        0 <= wi <= ast.char_data.whitespace_ranges@.len(),
        whitespace_behind(ast, wi, index),
        wi < ast.char_data.whitespace_ranges@.len() ==> whitespace_start(ast, wi) > index,
    ensures
        forall|k: int|
            0 <= k < ast.char_data.whitespace_ranges@.len() ==> !#[trigger] whitespace_covers(ast, k, index),
{
    assert forall|k: int| 0 <= k < ast.char_data.whitespace_ranges@.len() implies !#[trigger] whitespace_covers(
        ast,
        k,
        index,
    ) by {
        if k > wi {
            lemma_whitespace_ordered(ast, wi, k);
            assert(whitespace_fits(ast, wi));
        }
    }
}

/// A position no token and no run of whitespace covers is a line ending
/// where a line starts right after it, else a space.
proof fn lemma_gap_byte(ast: Ast<Token>, p: int)
    requires
        forall|t: int| 0 <= t < ast.tokens@.len() ==> !#[trigger] token_covers(ast, t, p),
        forall|k: int|
            0 <= k < ast.char_data.whitespace_ranges@.len() ==> !#[trigger] whitespace_covers(ast, k, p),
    ensures
        source_byte(ast, p) == if line_starts_at(ast, p + 1) {
            10u8
        } else {
            32u8
        },
{
}

/// A run of whitespace that covers `index` ends at or before the start of
/// every token that covers bytes and starts after `index`.
proof fn lemma_whitespace_before_tokens(ast: Ast<Token>, k: int, index: int)
    requires
        reconstructible(ast),
        newlines_not_straddled(ast),
        0 <= k < ast.char_data.whitespace_ranges@.len(),
        whitespace_start(ast, k) <= index,
    ensures
        forall|t: int|
            0 <= t < ast.tokens@.len() && !token_is_empty(ast, t) && #[trigger] ast.token_ranges@[t].start
                > index ==> whitespace_end(ast, k) <= ast.token_ranges@[t].start,
{
    assert forall|t: int|
        0 <= t < ast.tokens@.len() && !token_is_empty(ast, t) && #[trigger] ast.token_ranges@[t].start
            > index implies whitespace_end(ast, k) <= ast.token_ranges@[t].start by {
        if is_newline(ast.tokens@[t]) {
        } else {
            assert(prints_text(ast, t));
            assert(token_fits(ast, t));
        }
    }
}

/// After a piece printed from whitespace, a line ending or a space (ending
/// at `index2`, before any token that covers bytes and starts after
/// `index`), the tokens are still behind and ahead as the iterator keeps
/// them.
proof fn lemma_tokens_after_gap(ast: Ast<Token>, ai: int, new_ai: int, index: int, index2: int)
    requires
        reconstructible(ast),
        0 <= ai < ast.tokens@.len(),
        index < index2,
        tokens_behind(ast, ai, index),
        token_ahead(ast, ai, index),
        !token_covers(ast, ai, index),
        if ast.token_ranges@[ai].start <= index < ast.token_ranges@[ai].end {
            skipped(ast, ai, new_ai)
        } else {
            new_ai == ai
        },
        forall|t: int|
            0 <= t < ast.tokens@.len() && !token_is_empty(ast, t) && #[trigger] ast.token_ranges@[t].start
                > index ==> index2 <= ast.token_ranges@[t].start,
    ensures
        tokens_behind(ast, new_ai, index2),
        token_ahead(ast, new_ai, index2),
{
    let covers = ast.token_ranges@[ai].start <= index < ast.token_ranges@[ai].end;
    if covers {
        if new_ai > ai && !token_is_empty(ast, new_ai) {
            lemma_tokens_ordered(ast, ai, new_ai);
        }
    }
}

/// The first token that ends after a clean start covers bytes.
proof fn lemma_first_token_covers_bytes(ast: Ast<Token>, start: int, first: int)
    requires
        clean_start(ast, start),
        0 <= first < ast.tokens@.len(),
        ast.token_ranges@[first].end > start,
        forall|j: int| 0 <= j < first ==> #[trigger] ast.token_ranges@[j].end <= start,
    ensures
        ast.token_ranges@[first].start < ast.token_ranges@[first].end,
{
}

/// A token's piece ends before the token's range does (the operator part of
/// an assignment operator).
pub open spec fn stops_short(piece: Option<(int, Seq<u8>)>, end: int) -> bool {
    match piece {
        Some((start, bytes)) => start + bytes.len() < end,
        None => false,
    }
}

/// Moving on from token `from` gave token `to`: the next token that covers
/// bytes, with only empty tokens in between, or the last token.
pub open spec fn skipped(ast: Ast<Token>, from: int, to: int) -> bool {
    &&& from <= to < ast.tokens@.len()
    &&& from < ast.tokens@.len() - 1 ==> from < to
    &&& forall|j: int| from < j < to ==> #[trigger] token_is_empty(ast, j)
    &&& !token_is_empty(ast, to) || to == ast.tokens@.len() - 1
}

impl<'p> SourceReconstructionIterator<'p> {
    /// The iterator is within its range and in step with the AST: while there
    /// is something left to read it points at a token, and the run of
    /// whitespace it points at starts at or after the current position or
    /// covers it.
    spec fn inv(&self) -> bool {
        let ast = *self.ast;
        &&& reconstructible(ast)
        &&& self.index <= self.end
        &&& self.index < self.end ==> self.ast_index < ast.tokens@.len()
        &&& self.whitespace_index <= ast.char_data.whitespace_ranges@.len()
        &&& self.whitespace_index < ast.char_data.whitespace_ranges@.len() ==> whitespace_start(
            ast,
            self.whitespace_index as int,
        ) >= self.index || self.index < whitespace_end(ast, self.whitespace_index as int)
        &&& self.line_start_index <= ast.char_data.line_starts@.len()
    }

    /// While there is something left to read, everything behind the iterator
    /// is behind the position: the tokens before the current one, the runs of
    /// whitespace before the current one, and the line starts passed. The
    /// current token covers bytes and ends after the position, or no token
    /// after it is left to print.
    spec fn content_inv(&self) -> bool {
        let ast = *self.ast;
        let index = self.index as int;
        self.index < self.end ==> {
            &&& tokens_behind(ast, self.ast_index as int, index)
            &&& token_ahead(ast, self.ast_index as int, index)
            &&& whitespace_behind(ast, self.whitespace_index as int, index)
            &&& lines_behind(ast, self.line_start_index as int, index)
        }
    }

    fn new(ast: &'p Ast<Token>, range: ByteRange) -> (r: Self)
        requires
            reconstructible(*ast),
            readable_range(*ast, range),
        ensures
            r.inv(),
            r.ast == ast,
            r.index == range.start,
            r.end == range.end,
            faithful(*ast, range) ==> r.content_inv(),
    {
        let index = range.start;
        let ast_index = find_ast_index(ast, index);
        let whitespace_index = find_whitespace_index(ast, index);
        let r = SourceReconstructionIterator {
            ast,
            index,
            end: range.end,
            ast_index,
            whitespace_index,
            line_start_index: 0,
        };
        proof {
            if faithful(*ast, range) && index < range.end {
                let last = ast.tokens@.len() - 1;
                assert(ast.token_ranges@[last].end > index);
                lemma_first_token_covers_bytes(*ast, index as int, ast_index as int);
                assert(r.content_inv());
            }
        }
        r
    }

    /// The text of `token`, which starts at `token_start`, as it prints at the
    /// current position.
    fn token_bytes(&self, token_start: ByteIndex, token: Token) -> (r: Option<(ByteIndex, &'p [u8])>)
        requires
            token_refs_valid(*self.ast, token),
            !is_apply(token),
            token != Token::Expression(ExpressionToken::Term(TermToken::MissingExpression)),
            !is_newline(token) ==> token_start + token_text(*self.ast, token).len() <= usize::MAX,
        ensures
            match token_piece(*self.ast, token, token_start as int, self.index as int) {
                Some((start, bytes)) => r matches Some((s, b)) && s == start && b@ == bytes,
                None => r is None,
            },
    {
        let ast = self.ast;
        let bytes: &'p [u8] = match token {
            Token::Expression(ExpressionToken::Term(term)) => match term {
                TermToken::IntegerLiteral(literal) | TermToken::ErrorTerm(_, literal) => {
                    ast.literal_string(literal).as_bytes()
                },
                TermToken::RawErrorTerm(_, raw_literal) => ast.raw_literals[raw_literal.0 as usize].as_slice(),
                TermToken::FieldReference(field) => ast.identifier_string(
                    ast.fields[field.0 as usize].name,
                ).as_bytes(),
                TermToken::RawIdentifier(identifier) => ast.identifier_string(identifier).as_bytes(),
                TermToken::MissingExpression => {
                    return None;
                },
            },
            Token::Expression(ExpressionToken::PrefixOperator(identifier)) => ast.identifier_string(
                identifier,
            ).as_bytes(),
            Token::Expression(ExpressionToken::Open(_, boundary, _)) => boundary.open_string().as_bytes(),
            Token::Operator(operator) => match operator {
                OperatorToken::InfixOperator(identifier) => {
                    if identifier.0 == NEWLINE {
                        return None;
                    }
                    ast.identifier_string(identifier).as_bytes()
                },
                OperatorToken::PostfixOperator(identifier) => ast.identifier_string(
                    identifier,
                ).as_bytes(),
                OperatorToken::InfixAssignment(identifier) => {
                    // The operator's text is stored; the "=" is implied.
                    let bytes = ast.identifier_string(identifier).as_bytes();
                    if self.index == token_start + bytes.len() {
                        return Some((token_start + bytes.len(), equals_bytes()));
                    } else {
                        bytes
                    }
                },
                OperatorToken::Close(_, boundary) | OperatorToken::CloseBlock(_, boundary) => {
                    boundary.close_string().as_bytes()
                },
            },
        };
        Some((token_start, bytes))
    }

    /// The token at the current position, if one covers it and prints its own
    /// text. Once the position has passed that token, moves on to the next
    /// token that covers bytes (or the last token).
    fn next_token(&mut self) -> (r: Option<(ByteIndex, &'p [u8])>)
        requires
            old(self).inv(),
            old(self).index < old(self).end,
        ensures
            final(self).ast == old(self).ast,
            final(self).index == old(self).index,
            final(self).end == old(self).end,
            final(self).whitespace_index == old(self).whitespace_index,
            final(self).line_start_index == old(self).line_start_index,
            final(self).ast_index < old(self).ast.tokens@.len(),
            ({
                let ast = *old(self).ast;
                let ai = old(self).ast_index as int;
                let new_ai = final(self).ast_index as int;
                let range = ast.token_ranges@[ai];
                let index = old(self).index as int;
                let piece = token_piece(ast, ast.tokens@[ai], range.start as int, index);
                if range.start <= index < range.end {
                    &&& match piece {
                        Some((start, bytes)) => r matches Some((s, b)) && s == start && b@ == bytes,
                        None => r is None,
                    }
                    &&& if stops_short(piece, range.end as int) {
                        new_ai == ai
                    } else {
                        skipped(ast, ai, new_ai)
                    }
                } else {
                    r is None && new_ai == ai
                }
            }),
            match r {
                Some((start, bytes)) => {
                    let i = old(self).ast_index as int;
                    let range = old(self).ast.token_ranges@[i];
                    &&& range.start <= old(self).index < range.end
                    &&& prints_text(*old(self).ast, i)
                    &&& start <= old(self).index < start + bytes@.len()
                    &&& start + bytes@.len() <= range.end
                },
                None => true,
            },
    {
        let ast = self.ast;
        let i = self.ast_index;
        let token_range = ast.token_ranges[i];
        if self.index >= token_range.start && self.index < token_range.end {
            let token = ast.tokens[i];
            proof {
                assert(token_fits(*ast, i as int));
            }
            let result = self.token_bytes(token_range.start, token);
            let end = match result {
                Some((start, bytes)) => start + bytes.len(),
                None => token_range.end,
            };
            // Once past this token, skip to the next token that covers bytes.
            if end >= token_range.end {
                let mut moving = true;
                while moving && self.ast_index + 1 < ast.token_ranges.len()
                    invariant
                        self.ast == ast,
                        self.index == old(self).index,
                        self.end == old(self).end,
                        self.whitespace_index == old(self).whitespace_index,
                        self.line_start_index == old(self).line_start_index,
                        i <= self.ast_index < ast.token_ranges@.len(),
                        ast.token_ranges@.len() <= u32::MAX,
                        forall|j: int| i < j < self.ast_index ==> #[trigger] token_is_empty(*ast, j),
                        moving ==> self.ast_index == i || token_is_empty(*ast, self.ast_index as int),
                        !moving ==> i < self.ast_index && !token_is_empty(*ast, self.ast_index as int),
                    decreases ast.token_ranges@.len() - self.ast_index,
                {
                    self.ast_index += 1;
                    if ast.token_ranges[self.ast_index].start < ast.token_ranges[self.ast_index].end {
                        moving = false;
                    }
                }
            }
            result
        } else {
            None
        }
    }

    /// The run of whitespace at the current position, if it starts there (or
    /// before).
    fn next_whitespace_range(&mut self) -> (r: Option<(ByteIndex, &'p [u8])>)
        requires
            old(self).inv(),
        ensures
            final(self).ast == old(self).ast,
            final(self).index == old(self).index,
            final(self).end == old(self).end,
            final(self).ast_index == old(self).ast_index,
            final(self).line_start_index == old(self).line_start_index,
            match r {
                Some((start, bytes)) => {
                    let k = old(self).whitespace_index as int;
                    &&& k < old(self).ast.char_data.whitespace_ranges@.len()
                    &&& final(self).whitespace_index == k + 1
                    &&& start == whitespace_start(*old(self).ast, k)
                    &&& bytes@ == whitespace_text(*old(self).ast, k)
                    &&& start <= old(self).index < start + bytes@.len()
                },
                None => {
                    &&& final(self).whitespace_index == old(self).whitespace_index
                    &&& (old(self).whitespace_index < old(self).ast.char_data.whitespace_ranges@.len()
                        ==> whitespace_start(*old(self).ast, old(self).whitespace_index as int)
                        > old(self).index)
                },
            },
    {
        let ast = self.ast;
        let k = self.whitespace_index;
        if k < ast.char_data.whitespace_ranges.len() {
            let (whitespace, whitespace_start) = ast.char_data.whitespace_ranges[k];
            if whitespace_start <= self.index {
                self.whitespace_index += 1;
                proof {
                    assert(whitespace_fits(*ast, k as int));
                }
                let text = interner_resolve(&ast.char_data.whitespace_characters, whitespace.to_usize()).unwrap();
                return Some((whitespace_start, text.as_bytes()));
            }
        }
        None
    }

    /// A line ending, when a line starts right after the current position
    /// (line starts already passed are skipped).
    fn next_newline(&mut self) -> (r: Option<(ByteIndex, &'p [u8])>)
        requires
            old(self).index < usize::MAX,
            old(self).line_start_index <= old(self).ast.char_data.line_starts@.len(),
        ensures
            final(self).ast == old(self).ast,
            final(self).index == old(self).index,
            final(self).end == old(self).end,
            final(self).ast_index == old(self).ast_index,
            final(self).whitespace_index == old(self).whitespace_index,
            final(self).line_start_index <= final(self).ast.char_data.line_starts@.len(),
            match r {
                Some((start, bytes)) => start == old(self).index && bytes@ == seq![10u8],
                None => true,
            },
            ({
                let ast = *old(self).ast;
                let index = old(self).index as int;
                (line_starts_sorted(ast) && forall|m: int|
                    0 <= m < old(self).line_start_index ==> #[trigger] ast.char_data.line_starts@[m]
                        <= index) ==> {
                    &&& (r is Some <==> line_starts_at(ast, index + 1))
                    &&& forall|m: int|
                        0 <= m < final(self).line_start_index ==> #[trigger] ast.char_data.line_starts@[m]
                            <= index + 1
                    &&& r is None ==> forall|m: int|
                        0 <= m < final(self).line_start_index ==> #[trigger] ast.char_data.line_starts@[m]
                            <= index
                }
            }),
    {
        let ghost ast = *self.ast;
        let ghost first = self.line_start_index;
        let ghost index = self.index as int;
        let ghost n = ast.char_data.line_starts@.len();
        while self.line_start_index < self.ast.char_data.line_starts.len()
            invariant
                self.ast == old(self).ast,
                ast == *self.ast,
                n == ast.char_data.line_starts@.len(),
                first == old(self).line_start_index,
                self.index == old(self).index,
                index == self.index,
                self.end == old(self).end,
                self.ast_index == old(self).ast_index,
                self.whitespace_index == old(self).whitespace_index,
                self.index < usize::MAX,
                first <= self.line_start_index <= n,
                forall|m: int|
                    first <= m < self.line_start_index ==> #[trigger] ast.char_data.line_starts@[m]
                        <= index,
            decreases n - self.line_start_index,
        {
            let line_start = self.ast.char_data.line_starts[self.line_start_index];
            // The line ending is not reached yet.
            if line_start > self.index + 1 {
                proof {
                    let at = self.line_start_index as int;
                    if line_starts_sorted(ast) && forall|m: int|
                        0 <= m < first ==> #[trigger] ast.char_data.line_starts@[m] <= index {
                        assert forall|m: int| 0 <= m < n implies ast.char_data.line_starts@[m]
                            != index + 1 by {
                            if m >= at {
                                assert(ast.char_data.line_starts@[at] <= ast.char_data.line_starts@[m]);
                            } else if m >= first {
                            } else {
                            }
                        }
                    }
                }
                return None;
            }
            // Line starts whose endings were printed as whitespace (such as
            // "\r\n") are skipped.
            self.line_start_index += 1;
            if line_start == self.index + 1 {
                proof {
                    assert(ast.char_data.line_starts@[self.line_start_index - 1] == index + 1);
                }
                return Some((self.index, newline_bytes()));
            }
        }
        proof {
            if forall|m: int| 0 <= m < first ==> #[trigger] ast.char_data.line_starts@[m] <= index {
                assert forall|m: int| 0 <= m < n implies ast.char_data.line_starts@[m] != index + 1 by {
                    if m >= first {
                    } else {
                    }
                }
            }
        }
        None
    }

    /// The next piece of the source, if the range is not done. When the AST's
    /// layout is consistent and the iterator in step, the piece is the
    /// source's bytes from the current position on.
    fn next(&mut self) -> (r: Option<&'p [u8]>)
        requires
            old(self).inv(),
        ensures
            final(self).inv(),
            final(self).ast == old(self).ast,
            final(self).end == old(self).end,
            old(self).index >= old(self).end ==> r is None && final(self).index == old(self).index,
            old(self).index < old(self).end ==> (r matches Some(bytes) && bytes@.len() > 0
                && final(self).index == old(self).index + bytes@.len()),
            layout_consistent(*old(self).ast) && old(self).content_inv() ==> {
                &&& final(self).content_inv()
                &&& (r matches Some(bytes) ==> bytes@ == Seq::new(
                    bytes@.len(),
                    |q: int| source_byte(*old(self).ast, old(self).index + q),
                ))
                &&& (r matches Some(bytes) ==> bytes@ == piece_at(
                    *old(self).ast,
                    old(self).index as int,
                    old(self).end as int,
                ))
            },
    {
        if self.index >= self.end {
            return None;
        }
        let ghost before = *self;
        let ghost ast = *self.ast;
        let ghost index = self.index as int;
        let ghost mut kind: int = 0;
        let (start, bytes) = match self.next_token() {
            Some(piece) => piece,
            None => match self.next_whitespace_range() {
                Some(piece) => {
                    proof {
                        kind = 1;
                    }
                    piece
                },
                None => match self.next_newline() {
                    Some(piece) => {
                        proof {
                            kind = 2;
                        }
                        piece
                    },
                    None => {
                        proof {
                            kind = 3;
                        }
                        (self.index, space_bytes())
                    },
                },
            },
        };
        let ghost piece = bytes@;
        // Clip the start of the piece if it starts before the position.
        let mut bytes = bytes;
        if start < self.index {
            bytes = slice_subrange(bytes, self.index - start, bytes.len());
        }
        // Clip the end of the piece if it goes past the end of the range.
        if bytes.len() > self.end - self.index {
            bytes = slice_subrange(bytes, 0, self.end - self.index);
        }
        let ghost index2 = index + bytes@.len();
        assert(forall|q: int| 0 <= q < bytes@.len() ==> bytes@[q] == piece[index - start + q]);
        proof {
            let k = self.whitespace_index as int;
            if k < ast.char_data.whitespace_ranges@.len() {
                assert(whitespace_fits(ast, k));
                let i = before.ast_index as int;
                if self.whitespace_index == before.whitespace_index && prints_text(ast, i)
                    && ast.token_ranges@[i].start <= before.index < ast.token_ranges@[i].end {
                    // A token was printed: the run of whitespace lies past it.
                    assert(ast.token_ranges@[i].end <= whitespace_start(ast, k) || whitespace_end(
                        ast,
                        k,
                    ) <= ast.token_ranges@[i].start);
                } else if self.whitespace_index == before.whitespace_index + 1 {
                    // A run of whitespace was printed: the next one starts past it.
                    assert(whitespace_end(ast, k - 1) <= whitespace_start(ast, k));
                }
            }
            if layout_consistent(ast) && before.content_inv() {
                self.lemma_piece_is_source(before, kind, start as int, piece, bytes@, index2);
            }
        }
        self.index = self.index + bytes.len();
        Some(bytes)
    }

    /// The piece `next` gave (from the token, the run of whitespace, a line
    /// ending or a space, by `kind`) is the source's bytes, and the iterator
    /// stays in step.
    proof fn lemma_piece_is_source(
        &self,
        before: Self,
        kind: int,
        start: int,
        piece: Seq<u8>,
        bytes: Seq<u8>,
        index2: int,
    )
        requires
            layout_consistent(*before.ast),
            before.inv(),
            before.content_inv(),
            before.index < before.end,
            self.ast == before.ast,
            self.end == before.end,
            self.index == before.index,
            index2 == before.index + bytes.len(),
            bytes.len() > 0,
            index2 <= before.end,
            start <= before.index,
            forall|q: int| 0 <= q < bytes.len() ==> bytes[q] == piece[before.index - start + q],
            before.index - start + bytes.len() <= piece.len(),
            index2 == before.end || before.index - start + bytes.len() == piece.len(),
            self.whitespace_index <= self.ast.char_data.whitespace_ranges@.len(),
            self.ast_index < self.ast.tokens@.len(),
            ({
                let ast = *before.ast;
                let ai = before.ast_index as int;
                let range = ast.token_ranges@[ai];
                let index = before.index as int;
                let tpiece = token_piece(ast, ast.tokens@[ai], range.start as int, index);
                let covers = range.start <= index < range.end;
                &&& kind == 0 ==> {
                    &&& covers
                    &&& prints_text(ast, ai)
                    &&& tpiece == Some((start, piece))
                    &&& start + piece.len() <= range.end
                    &&& self.whitespace_index == before.whitespace_index
                    &&& self.line_start_index == before.line_start_index
                    &&& if stops_short(tpiece, range.end as int) {
                        self.ast_index == ai
                    } else {
                        skipped(ast, ai, self.ast_index as int)
                    }
                }
                &&& kind != 0 ==> {
                    &&& !token_covers(ast, ai, index)
                    &&& if covers {
                        skipped(ast, ai, self.ast_index as int)
                    } else {
                        self.ast_index == ai
                    }
                }
                &&& kind == 1 ==> {
                    let k = before.whitespace_index as int;
                    &&& k < ast.char_data.whitespace_ranges@.len()
                    &&& self.whitespace_index == k + 1
                    &&& start == whitespace_start(ast, k)
                    &&& piece == whitespace_text(ast, k)
                    &&& index < start + piece.len()
                    &&& self.line_start_index == before.line_start_index
                }
                &&& kind >= 2 ==> {
                    &&& self.whitespace_index == before.whitespace_index
                    &&& (before.whitespace_index < ast.char_data.whitespace_ranges@.len()
                        ==> whitespace_start(ast, before.whitespace_index as int) > index)
                    &&& start == index
                    &&& piece == (if kind == 2 { seq![10u8] } else { seq![32u8] })
                    &&& (kind == 2 <==> line_starts_at(ast, index + 1))
                    &&& lines_behind(ast, self.line_start_index as int, index + 1)
                }
                &&& 0 <= kind <= 3
            }),
        ensures
            bytes == Seq::new(bytes.len(), |q: int| source_byte(*before.ast, before.index + q)),
            bytes == piece_at(*before.ast, before.index as int, before.end as int),
            ({
                let after = SourceReconstructionIterator { index: index2 as usize, ..*self };
                after.content_inv()
            }),
    {
        let ast = *before.ast;
        let ai = before.ast_index as int;
        let index = before.index as int;
        let range = ast.token_ranges@[ai];
        if kind == 0 {
            assert forall|q: int| 0 <= q < bytes.len() implies bytes[q] == source_byte(ast, index + q) by {
                lemma_token_byte(ast, ai, index + q);
                match ast.tokens@[ai] {
                    Token::Operator(OperatorToken::InfixAssignment(id)) => {
                        assert(token_text(ast, ast.tokens@[ai]) == identifier_bytes(ast, id) + seq![61u8]);
                    },
                    _ => {},
                }
            }
            if !stops_short(token_piece(ast, ast.tokens@[ai], range.start as int, index), range.end as int)
                && index2 < before.end {
                let new_ai = self.ast_index as int;
                if new_ai > ai && !token_is_empty(ast, new_ai) {
                    lemma_tokens_ordered(ast, ai, new_ai);
                }
            }
        } else {
            let t_ahead = forall|t: int|
                0 <= t < ast.tokens@.len() && !token_is_empty(ast, t) && #[trigger] ast.token_ranges@[t].start
                    > index ==> index2 <= ast.token_ranges@[t].start;
            if kind == 1 {
                let k = before.whitespace_index as int;
                assert forall|q: int| 0 <= q < bytes.len() implies bytes[q] == source_byte(
                    ast,
                    index + q,
                ) by {
                    lemma_whitespace_byte(ast, k, index + q);
                }
                lemma_whitespace_before_tokens(ast, k, index);
                assert(t_ahead);
            } else {
                lemma_no_token_covers(ast, ai, index);
                lemma_no_whitespace_covers(ast, before.whitespace_index as int, index);
                lemma_gap_byte(ast, index);
                assert(t_ahead);
            }
            if index2 < before.end {
                lemma_tokens_after_gap(ast, ai, self.ast_index as int, index, index2);
            }
        }
        assert(bytes =~= Seq::new(bytes.len(), |q: int| source_byte(ast, index + q)));
        let end = before.end as int;
        if kind == 0 {
            assert(token_covers(ast, ai, index));
            let t = choose|t: int| 0 <= t < ast.tokens@.len() && #[trigger] token_covers(ast, t, index);
            if t < ai {
                lemma_tokens_ordered(ast, t, ai);
            } else if ai < t {
                lemma_tokens_ordered(ast, ai, t);
            }
            lemma_clip(piece, start, index, end, bytes);
        } else {
            lemma_no_token_covers(ast, ai, index);
            if kind == 1 {
                let k = before.whitespace_index as int;
                assert(whitespace_covers(ast, k, index));
                let c = choose|c: int|
                    0 <= c < ast.char_data.whitespace_ranges@.len() && #[trigger] whitespace_covers(
                        ast,
                        c,
                        index,
                    );
                if c < k {
                    lemma_whitespace_ordered(ast, c, k);
                } else if k < c {
                    lemma_whitespace_ordered(ast, k, c);
                }
                lemma_clip(piece, start, index, end, bytes);
            } else {
                lemma_no_whitespace_covers(ast, before.whitespace_index as int, index);
                assert(bytes =~= piece);
            }
        }
    }
}

/// A reconstruction of a range of the source from its AST.
pub struct SourceReconstruction<'p> {
    pub ast: &'p Ast<Token>,
    pub range: ByteRange,
}

impl<'p> SourceReconstruction<'p> {
    /// A reconstructor for `range` of the source of `ast`.
    pub fn new(ast: &'p Ast<Token>, range: ByteRange) -> (r: Self)
        ensures
            r.ast == ast,
            r.range == range,
    {
        SourceReconstruction { ast, range }
    }

    /// The bytes of the range, one for each byte of the source range: when
    /// the AST is faithful to its source there, exactly the source's bytes.
    pub fn to_bytes(&self) -> (r: Vec<u8>)
        requires
            reconstructible(*self.ast),
            readable_range(*self.ast, self.range),
        ensures
            r@.len() == self.range.end - self.range.start,
            faithful(*self.ast, self.range) ==> r@ == source_bytes(*self.ast, self.range),
    {
        let mut iterator = SourceReconstructionIterator::new(self.ast, self.range);
        let mut buffer: Vec<u8> = Vec::new();
        let ghost ast = *self.ast;
        let ghost start = self.range.start as int;
        while iterator.index < iterator.end
            invariant
                iterator.inv(),
                iterator.ast == self.ast,
                ast == *self.ast,
                start == self.range.start,
                iterator.end == self.range.end,
                self.range.start <= iterator.index,
                buffer@.len() == iterator.index - self.range.start,
                faithful(ast, self.range) ==> iterator.content_inv() && buffer@ == Seq::new(
                    buffer@.len(),
                    |q: int| source_byte(ast, start + q),
                ),
            decreases iterator.end - iterator.index,
        {
            let ghost at = iterator.index as int;
            let bytes = iterator.next().unwrap();
            let mut j: usize = 0;
            let ghost len = buffer@.len();
            let ghost prefix = buffer@;
            while j < bytes.len()
                invariant
                    j <= bytes@.len(),
                    buffer@.len() == len + j,
                    buffer@ == prefix + bytes@.take(j as int),
                decreases bytes@.len() - j,
            {
                buffer.push(bytes[j]);
                j += 1;
                assert(buffer@ =~= prefix + bytes@.take(j as int));
            }
            proof {
                assert(bytes@.take(bytes@.len() as int) =~= bytes@);
                if faithful(ast, self.range) {
                    assert(buffer@ =~= Seq::new(buffer@.len(), |q: int| source_byte(ast, start + q))) by {
                        assert forall|q: int| 0 <= q < buffer@.len() implies buffer@[q] == source_byte(
                            ast,
                            start + q,
                        ) by {
                            if q >= len {
                                assert(buffer@[q] == bytes@[q - len]);
                                assert(at == start + len);
                            }
                        }
                    }
                }
            }
        }
        proof {
            if faithful(ast, self.range) {
                assert(buffer@ =~= source_bytes(ast, self.range));
            }
        }
        buffer
    }

    /// The range as text: each piece of the source, decoded with
    /// `String::from_utf8_lossy`, one after the other. The pieces hold one
    /// byte for each byte of the range: when the AST is faithful to its
    /// source there, they are the pieces `source_pieces` names, and their
    /// bytes exactly the source's.
    pub fn to_string(&self) -> (r: String)
        requires
            reconstructible(*self.ast),
            readable_range(*self.ast, self.range),
        ensures
            exists|pieces: Seq<Seq<u8>>|
                #![trigger lossy_concat(pieces)]
                {
                    &&& r@ == lossy_concat(pieces)
                    &&& pieces_bytes(pieces).len() == self.range.end - self.range.start
                    &&& faithful(*self.ast, self.range) ==> pieces_bytes(pieces) == source_bytes(
                        *self.ast,
                        self.range,
                    )
                },
            faithful(*self.ast, self.range) ==> {
                &&& r@ == lossy_concat(source_pieces(*self.ast, self.range))
                &&& pieces_bytes(source_pieces(*self.ast, self.range)) == source_bytes(
                    *self.ast,
                    self.range,
                )
            },
    {
        let mut iterator = SourceReconstructionIterator::new(self.ast, self.range);
        let mut text = String::new();
        let ghost mut pieces: Seq<Seq<u8>> = seq![];
        let ghost ast = *self.ast;
        let ghost start = self.range.start as int;
        while iterator.index < iterator.end
            invariant
                iterator.inv(),
                iterator.ast == self.ast,
                ast == *self.ast,
                start == self.range.start,
                iterator.end == self.range.end,
                self.range.start <= iterator.index,
                text@ == lossy_concat(pieces),
                pieces_bytes(pieces).len() == iterator.index - self.range.start,
                faithful(ast, self.range) ==> iterator.content_inv() && pieces_bytes(pieces) == Seq::new(
                    pieces_bytes(pieces).len(),
                    |q: int| source_byte(ast, start + q),
                ),
                faithful(ast, self.range) ==> pieces + pieces_of(
                    ast,
                    iterator.index as int,
                    iterator.end as int,
                ) == source_pieces(ast, self.range),
            decreases iterator.end - iterator.index,
        {
            let ghost at = iterator.index as int;
            let bytes = iterator.next().unwrap();
            let piece = utf8_lossy(bytes);
            text.append(piece.as_str());
            proof {
                let before = pieces;
                if faithful(ast, self.range) {
                    let end = self.range.end as int;
                    assert(pieces_of(ast, at, end) == seq![bytes@] + pieces_of(ast, at + bytes@.len(), end));
                    assert(before.push(bytes@) + pieces_of(ast, at + bytes@.len(), end) =~= before + (seq![
                        bytes@,
                    ] + pieces_of(ast, at + bytes@.len(), end)));
                }
                assert(before.push(bytes@).drop_last() =~= before);
                pieces = before.push(bytes@);
                assert(pieces_bytes(pieces) == pieces_bytes(before) + bytes@);
                if faithful(ast, self.range) {
                    let len = pieces_bytes(before).len();
                    assert(pieces_bytes(pieces) =~= Seq::new(
                        pieces_bytes(pieces).len(),
                        |q: int| source_byte(ast, start + q),
                    )) by {
                        assert forall|q: int| 0 <= q < pieces_bytes(pieces).len() implies pieces_bytes(
                            pieces,
                        )[q] == source_byte(ast, start + q) by {
                            if q >= len {
                                assert(pieces_bytes(pieces)[q] == bytes@[q - len]);
                                assert(at == start + len);
                            }
                        }
                    }
                }
            }
        }
        proof {
            if faithful(ast, self.range) {
                assert(pieces_bytes(pieces) =~= source_bytes(ast, self.range));
                assert(pieces + pieces_of(ast, iterator.index as int, iterator.end as int) =~= pieces);
            }
        }
        text
    }
}

/// The pieces, each decoded with `String::from_utf8_lossy`, one after the
/// other.
pub open spec fn lossy_concat(pieces: Seq<Seq<u8>>) -> Seq<char>
    decreases pieces.len(),
{
    if pieces.len() == 0 {
        seq![]
    } else {
        lossy_concat(pieces.drop_last()) + lossy_text(pieces.last())
    }
}

/// The bytes of all the pieces, one after the other.
pub open spec fn pieces_bytes(pieces: Seq<Seq<u8>>) -> Seq<u8>
    decreases pieces.len(),
{
    if pieces.len() == 0 {
        seq![]
    } else {
        pieces_bytes(pieces.drop_last()) + pieces.last()
    }
}

/// A reader over an AST that yields the same bytes as the original source.
pub struct SourceReconstructionReader<'p> {
    iterator: SourceReconstructionIterator<'p>,
    buffered: Option<&'p [u8]>,
}

impl<'p> SourceReconstructionReader<'p> {
    /// The reader is in step with its AST, and a piece it holds back is not
    /// empty.
    pub closed spec fn wf(&self) -> bool {
        &&& self.iterator.inv()
        &&& self.buffered matches Some(bytes) ==> 0 < bytes@.len() <= self.iterator.index
    }

    /// How many bytes are left to read.
    pub closed spec fn remaining(&self) -> int {
        (match self.buffered {
            Some(bytes) => bytes@.len() as int,
            None => 0,
        }) + (self.iterator.end - self.iterator.index)
    }

    /// The position in the source of the next byte to read.
    pub closed spec fn position(&self) -> int {
        self.iterator.index - match self.buffered {
            Some(bytes) => bytes@.len() as int,
            None => 0,
        }
    }

    /// The AST being read.
    pub closed spec fn source(&self) -> Ast<Token> {
        *self.iterator.ast
    }

    /// What the reader gives is the source's bytes: the AST's layout is
    /// consistent, the iterator is in step with it, and the piece held back
    /// is the source's bytes.
    pub closed spec fn gives_source(&self) -> bool {
        &&& layout_consistent(*self.iterator.ast)
        &&& self.iterator.content_inv()
        &&& self.buffered matches Some(bytes) ==> bytes@ == Seq::new(
            bytes@.len(),
            |q: int| source_byte(*self.iterator.ast, self.position() + q),
        )
    }

    /// A reader of `range` of the source of `ast`.
    pub fn new(ast: &'p Ast<Token>, range: ByteRange) -> (r: Self)
        requires
            reconstructible(*ast),
            readable_range(*ast, range),
        ensures
            r.wf(),
            r.remaining() == range.end - range.start,
            r.position() == range.start,
            r.source() == *ast,
            faithful(*ast, range) ==> r.gives_source(),
    {
        SourceReconstructionReader {
            iterator: SourceReconstructionIterator::new(ast, range),
            buffered: None,
        }
    }

    /// The piece held back by the last read, else the next piece.
    fn next(&mut self) -> (r: Option<&'p [u8]>)
        requires
            old(self).wf(),
        ensures
            final(self).wf(),
            final(self).buffered is None,
            final(self).source() == old(self).source(),
            match r {
                Some(bytes) => {
                    &&& bytes@.len() > 0
                    &&& final(self).remaining() == old(self).remaining() - bytes@.len()
                    &&& final(self).position() == old(self).position() + bytes@.len()
                    &&& old(self).gives_source() ==> bytes@ == Seq::new(
                        bytes@.len(),
                        |q: int| source_byte(old(self).source(), old(self).position() + q),
                    )
                },
                None => old(self).remaining() == 0 && final(self).remaining() == 0
                    && final(self).position() == old(self).position(),
            },
            old(self).gives_source() ==> final(self).gives_source(),
    {
        match self.buffered {
            Some(bytes) => {
                self.buffered = None;
                Some(bytes)
            },
            None => self.iterator.next(),
        }
    }

    /// Reads into `buffer` as many bytes as fit, or as are left; returns how
    /// many it read. Bytes of `buffer` past those are left as they were. When
    /// the reader gives the source's bytes, the bytes read are the source's
    /// bytes from the reader's position on.
    pub fn read(&mut self, buffer: &mut [u8]) -> (r: Result<usize, std::io::Error>)
        requires
            old(self).wf(),
        ensures
            final(self).wf(),
            final(self).source() == old(self).source(),
            r matches Ok(n) && {
                &&& n == if old(buffer)@.len() < old(self).remaining() {
                    old(buffer)@.len() as int
                } else {
                    old(self).remaining()
                }
                &&& final(self).remaining() == old(self).remaining() - n
                &&& final(self).position() == old(self).position() + n
                &&& final(buffer)@.len() == old(buffer)@.len()
                &&& forall|k: int| n <= k < old(buffer)@.len() ==> final(buffer)@[k] == old(buffer)@[k]
                &&& old(self).gives_source() ==> {
                    &&& final(self).gives_source()
                    &&& forall|k: int|
                        0 <= k < n ==> final(buffer)@[k] == source_byte(
                            old(self).source(),
                            old(self).position() + k,
                        )
                }
            },
    {
        let ghost total = self.remaining();
        let ghost from = self.position();
        let ghost faithful_reader = self.gives_source();
        let ghost ast = self.source();
        let mut read: usize = 0;
        loop
            invariant
                self.wf(),
                self.source() == ast,
                read <= buffer@.len(),
                buffer@.len() == old(buffer)@.len(),
                read <= total,
                self.remaining() == total - read,
                self.position() == from + read,
                forall|k: int| read <= k < buffer@.len() ==> buffer@[k] == old(buffer)@[k],
                faithful_reader ==> self.gives_source(),
                faithful_reader ==> forall|k: int|
                    0 <= k < read ==> buffer@[k] == source_byte(ast, from + k),
            ensures
                read == buffer@.len() || self.remaining() == 0,
            decreases self.remaining(),
        {
            let ghost at = self.position();
            match self.next() {
                None => {
                    break;
                },
                Some(bytes) => {
                    let size = buffer.len();
                    let room = size - read;
                    let n = if bytes.len() < room {
                        bytes.len()
                    } else {
                        room
                    };
                    let mut j: usize = 0;
                    while j < n
                        invariant
                            j <= n,
                            n <= bytes@.len(),
                            read + n <= size,
                            size == buffer@.len(),
                            buffer@.len() == old(buffer)@.len(),
                            forall|k: int| read + n <= k < buffer@.len() ==> buffer@[k] == old(
                                buffer,
                            )@[k],
                            faithful_reader ==> forall|k: int|
                                0 <= k < read ==> buffer@[k] == source_byte(ast, from + k),
                            forall|k: int| read <= k < read + j ==> buffer@[k] == bytes@[k - read],
                        decreases n - j,
                    {
                        buffer[read + j] = bytes[j];
                        j += 1;
                    }
                    proof {
                        if faithful_reader {
                            assert forall|k: int| 0 <= k < read + n implies buffer@[k] == source_byte(
                                ast,
                                from + k,
                            ) by {
                                if k >= read {
                                    assert(buffer@[k] == bytes@[k - read]);
                                    assert(at == from + read);
                                }
                            }
                        }
                    }
                    read = read + n;
                    if n < bytes.len() {
                        // The buffer is full: hold the rest back for the next read.
                        let rest = slice_subrange(bytes, n, bytes.len());
                        self.buffered = Some(rest);
                        proof {
                            if faithful_reader {
                                assert(rest@ =~= Seq::new(
                                    rest@.len(),
                                    |q: int| source_byte(ast, self.position() + q),
                                ));
                            }
                        }
                        break;
                    }
                },
            }
        }
        Ok(read)
    }
}

impl Ast<Token> {
    /// The source's bytes, read back from the AST.
    pub fn to_bytes(&self) -> (r: Vec<u8>)
        requires
            reconstructible(*self),
            readable_range(*self, ByteRange { start: 0, end: self.char_data.byte_length }),
        ensures
            r@.len() == self.char_data.byte_length,
            faithful(*self, ByteRange { start: 0, end: self.char_data.byte_length }) ==> r@
                == source_bytes(*self, ByteRange { start: 0, end: self.char_data.byte_length }),
    {
        SourceReconstruction::new(self, ByteRange { start: 0, end: self.char_data.byte_length }).to_bytes()
    }

    /// The source's text, read back from the AST.
    pub fn to_string(&self) -> (r: String)
        requires
            reconstructible(*self),
            readable_range(*self, ByteRange { start: 0, end: self.char_data.byte_length }),
        ensures
            exists|pieces: Seq<Seq<u8>>|
                #![trigger lossy_concat(pieces)]
                {
                    &&& r@ == lossy_concat(pieces)
                    &&& pieces_bytes(pieces).len() == self.char_data.byte_length
                    &&& faithful(*self, ByteRange { start: 0, end: self.char_data.byte_length })
                        ==> pieces_bytes(pieces) == source_bytes(
                        *self,
                        ByteRange { start: 0, end: self.char_data.byte_length },
                    )
                },
            faithful(*self, ByteRange { start: 0, end: self.char_data.byte_length }) ==> r@
                == lossy_concat(
                source_pieces(*self, ByteRange { start: 0, end: self.char_data.byte_length }),
            ),
    {
        SourceReconstruction::new(self, ByteRange { start: 0, end: self.char_data.byte_length }).to_string()
    }

    /// A reader of the source's bytes, read back from the AST.
    pub fn read_bytes(&self) -> (r: SourceReconstructionReader<'_>)
        requires
            reconstructible(*self),
            readable_range(*self, ByteRange { start: 0, end: self.char_data.byte_length }),
        ensures
            r.wf(),
            r.remaining() == self.char_data.byte_length,
            r.position() == 0,
            r.source() == *self,
            faithful(*self, ByteRange { start: 0, end: self.char_data.byte_length }) ==> r.gives_source(),
    {
        SourceReconstructionReader::new(self, ByteRange { start: 0, end: self.char_data.byte_length })
    }
}

} // verus!
