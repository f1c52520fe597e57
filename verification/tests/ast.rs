use berg_compiler::ast::{Ast, WhitespaceIndex};
use berg_compiler::char_data::ByteRange;
use berg_compiler::expect::{expect, expect_bytes, ExpectedErrorRange};
use berg_compiler::identifiers::{
    known_identifiers, AND_AND, COLON, DASH, DASH_DASH, EMPTY_STRING, EQUAL_TO, FALSE, GREATER_EQUAL, GREATER_THAN,
    LESS_EQUAL, LESS_THAN, NEWLINE, NOT, NOT_EQUAL_TO, OR_OR, PLUS, PLUS_PLUS, SEMICOLON, SLASH, STAR, TRUE, APPLY,
};
use berg_compiler::index::{AstIndex, FieldIndex, IdentifierIndex, LiteralIndex, RawLiteralIndex};
use berg_compiler::text::decimal_string;

fn empty() -> Ast<char> {
    Ast::new(known_identifiers(), &vec![IdentifierIndex(TRUE), IdentifierIndex(PLUS)])
}

#[test]
fn known_identifiers_are_at_their_indices() {
    let ast = empty();
    let expected = [
        (EMPTY_STRING, ""),
        (PLUS, "+"),
        (DASH, "-"),
        (STAR, "*"),
        (SLASH, "/"),
        (EQUAL_TO, "=="),
        (NOT_EQUAL_TO, "!="),
        (GREATER_THAN, ">"),
        (LESS_THAN, "<"),
        (GREATER_EQUAL, ">="),
        (LESS_EQUAL, "<="),
        (AND_AND, "&&"),
        (OR_OR, "||"),
        (SEMICOLON, ";"),
        (COLON, ":"),
        (NOT, "!"),
        (PLUS_PLUS, "++"),
        (DASH_DASH, "--"),
        (TRUE, "true"),
        (FALSE, "false"),
        (NEWLINE, "\n"),
        (APPLY, " "),
    ];
    for (index, text) in expected.iter() {
        assert_eq!(ast.identifier_string(IdentifierIndex(*index)), *text);
    }
}

#[test]
fn new_ast_has_root_fields_and_no_tokens() {
    let ast = empty();
    assert!(ast.tokens.is_empty());
    assert!(ast.token_ranges.is_empty());
    assert!(ast.blocks.is_empty());
    assert_eq!(ast.fields.len(), 2);
    assert_eq!(ast.field_name(FieldIndex(0)), "true");
    assert_eq!(ast.field_name(FieldIndex(1)), "+");
    assert_eq!(ast.char_data.line_starts, vec![0]);
    assert_eq!(ast.next_index(), AstIndex(0));
}

#[test]
fn interning_gives_each_text_one_index() {
    let mut ast = empty();
    let foo = ast.intern_identifier("foo");
    assert_eq!(foo, IdentifierIndex(22));
    assert_eq!(ast.intern_identifier("foo"), foo);
    assert_eq!(ast.intern_identifier("+"), IdentifierIndex(PLUS));
    assert_eq!(ast.intern_identifier("bar"), IdentifierIndex(23));
    assert_eq!(ast.identifier_string(foo), "foo");
    let one = ast.intern_literal("1");
    let two = ast.intern_literal("22");
    assert_eq!(one, LiteralIndex(0));
    assert_eq!(two, LiteralIndex(1));
    assert_eq!(ast.intern_literal("1"), one);
    assert_eq!(ast.literal_string(two), "22");
}

#[test]
fn tokens_and_ranges() {
    let mut ast = empty();
    assert_eq!(ast.push_token('a', ByteRange { start: 0, end: 1 }), AstIndex(0));
    assert_eq!(ast.push_token('c', ByteRange { start: 4, end: 5 }), AstIndex(1));
    ast.insert_token(AstIndex(1), 'b', ByteRange { start: 2, end: 3 });
    assert_eq!(ast.tokens, vec!['a', 'b', 'c']);
    assert_eq!(ast.token(AstIndex(1)), 'b');
    assert_eq!(ast.token_range(AstIndex(2)), ByteRange { start: 4, end: 5 });
    assert_eq!(ast.next_index(), AstIndex(3));
    ast.insert_token(AstIndex(3), 'd', ByteRange { start: 5, end: 5 });
    assert_eq!(ast.token(AstIndex(3)), 'd');
}

#[test]
fn raw_literals() {
    let mut ast = empty();
    ast.raw_literals.push(vec![0xFF, 0x00]);
    assert_eq!(ast.raw_literal_string(RawLiteralIndex(0)), &[0xFF, 0x00]);
}

#[test]
fn whitespace_indices_round_trip() {
    for val in [0usize, 1, 7, 1000] {
        assert_eq!(WhitespaceIndex::from_usize(val).to_usize(), val);
    }
    assert_ne!(WhitespaceIndex::from_usize(0), WhitespaceIndex::from_usize(1));
}

#[test]
fn test_names() {
    assert_eq!(expect("1+2").to_string(), "test '1+2'");
    assert_eq!(expect("1+2").0, b"1+2");
    assert_eq!(expect_bytes(&[b'a', 0xFF]).to_string(), "test 'a\u{FFFD}'");
    assert_eq!(expect_bytes(b"xy").0, b"xy");
}

#[test]
fn decimal_text() {
    assert_eq!(decimal_string(0), "0");
    assert_eq!(decimal_string(9), "9");
    assert_eq!(decimal_string(10), "10");
    assert_eq!(decimal_string(4294967296), "4294967296");
    assert_eq!(decimal_string(u64::MAX), "18446744073709551615");
}

#[test]
fn expected_error_ranges() {
    assert_eq!(3usize.into_error_range(10), ByteRange { start: 3, end: 4 });
    assert_eq!(ByteRange { start: 0, end: 2 }.into_error_range(10), ByteRange { start: 0, end: 2 });
}
