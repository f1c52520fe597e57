use berg_compiler::ast::Ast;
use berg_compiler::char_data::ByteRange;
use berg_compiler::error::ErrorCode;
use berg_compiler::identifiers::{known_identifiers, EMPTY_STRING, NEWLINE, PLUS};
use berg_compiler::index::{AstIndex, BlockIndex, IdentifierIndex, RawLiteralIndex};
use berg_compiler::source_reconstruction::SourceReconstruction;
use berg_compiler::syntax::{ExpressionBoundary, ExpressionBoundaryError};
use berg_compiler::token::{ExpressionToken, OperatorToken, TermToken, Token};

fn new_ast() -> Ast<Token> {
    Ast::new(known_identifiers(), &Vec::new())
}

fn literal(ast: &mut Ast<Token>, text: &str, start: usize) {
    let l = ast.intern_literal(text);
    ast.push_token(
        Token::Expression(ExpressionToken::Term(TermToken::IntegerLiteral(l))),
        ByteRange { start, end: start + text.len() },
    );
}

fn operator(ast: &mut Ast<Token>, token: OperatorToken, start: usize, end: usize) {
    ast.push_token(Token::Operator(token), ByteRange { start, end });
}

/// "1 + 2\n": two literals and an operator, spaces between, and a line
/// ending after.
fn one_plus_two() -> Ast<Token> {
    let mut ast = new_ast();
    literal(&mut ast, "1", 0);
    operator(&mut ast, OperatorToken::InfixOperator(IdentifierIndex(PLUS)), 2, 3);
    literal(&mut ast, "2", 4);
    ast.char_data.append_whitespace(" ", 1);
    ast.char_data.append_whitespace(" ", 3);
    ast.char_data.append_line(6);
    ast.char_data.byte_length = 6;
    ast
}

#[test]
fn whole_source_round_trips() {
    let ast = one_plus_two();
    assert_eq!(ast.to_bytes(), b"1 + 2\n".to_vec());
    assert_eq!(ast.to_string(), "1 + 2\n");
}

#[test]
fn part_of_the_source() {
    let ast = one_plus_two();
    let part = SourceReconstruction::new(&ast, ByteRange { start: 2, end: 5 });
    assert_eq!(part.to_bytes(), b"+ 2".to_vec());
    assert_eq!(part.to_string(), "+ 2");
    let middle = SourceReconstruction::new(&ast, ByteRange { start: 1, end: 2 });
    assert_eq!(middle.to_bytes(), b" ".to_vec());
    let empty = SourceReconstruction::new(&ast, ByteRange { start: 3, end: 3 });
    assert!(empty.to_bytes().is_empty());
}

#[test]
fn reader_fills_buffers_in_turn() {
    let ast = one_plus_two();
    let mut reader = ast.read_bytes();
    let mut buffer = [0u8; 4];
    assert_eq!(reader.read(&mut buffer).unwrap(), 4);
    assert_eq!(&buffer, b"1 + ");
    let mut buffer = [b'x'; 4];
    assert_eq!(reader.read(&mut buffer).unwrap(), 2);
    assert_eq!(&buffer, b"2\nxx");
    assert_eq!(reader.read(&mut buffer).unwrap(), 0);
}

#[test]
fn reader_holds_back_what_does_not_fit() {
    let mut ast = new_ast();
    literal(&mut ast, "12345", 0);
    ast.char_data.byte_length = 5;
    let mut reader = ast.read_bytes();
    let mut buffer = [0u8; 2];
    assert_eq!(reader.read(&mut buffer).unwrap(), 2);
    assert_eq!(&buffer, b"12");
    assert_eq!(reader.read(&mut buffer).unwrap(), 2);
    assert_eq!(&buffer, b"34");
    assert_eq!(reader.read(&mut buffer).unwrap(), 1);
    assert_eq!(&buffer, b"54");
    let mut none: [u8; 0] = [];
    assert_eq!(reader.read(&mut none).unwrap(), 0);
}

#[test]
fn assignment_operators_print_their_equals_sign() {
    let mut ast = new_ast();
    let a = ast.intern_identifier("a");
    ast.push_token(Token::Expression(ExpressionToken::Term(TermToken::RawIdentifier(a))), ByteRange { start: 0, end: 1 });
    operator(&mut ast, OperatorToken::InfixAssignment(IdentifierIndex(PLUS)), 1, 3);
    literal(&mut ast, "1", 3);
    ast.char_data.byte_length = 4;
    assert_eq!(ast.to_bytes(), b"a+=1".to_vec());

    let mut ast = new_ast();
    let a = ast.intern_identifier("a");
    ast.push_token(Token::Expression(ExpressionToken::Term(TermToken::RawIdentifier(a))), ByteRange { start: 0, end: 1 });
    operator(&mut ast, OperatorToken::InfixAssignment(IdentifierIndex(EMPTY_STRING)), 2, 3);
    literal(&mut ast, "1", 4);
    ast.char_data.append_whitespace(" ", 1);
    ast.char_data.append_whitespace(" ", 3);
    ast.char_data.byte_length = 5;
    assert_eq!(ast.to_string(), "a = 1");
}

#[test]
fn boundaries_print_their_open_and_close() {
    let mut ast = new_ast();
    ast.push_token(
        Token::Expression(ExpressionToken::Open(ExpressionBoundaryError::NoError, ExpressionBoundary::Source, AstIndex(4))),
        ByteRange { start: 0, end: 0 },
    );
    ast.push_token(
        Token::Expression(ExpressionToken::Open(ExpressionBoundaryError::NoError, ExpressionBoundary::Parentheses, AstIndex(2))),
        ByteRange { start: 0, end: 1 },
    );
    literal(&mut ast, "7", 1);
    operator(&mut ast, OperatorToken::Close(AstIndex(2), ExpressionBoundary::Parentheses), 2, 3);
    operator(&mut ast, OperatorToken::Close(AstIndex(4), ExpressionBoundary::Source), 3, 3);
    ast.char_data.byte_length = 3;
    assert_eq!(ast.to_string(), "(7)");
}

#[test]
fn newlines_come_from_line_starts() {
    let mut ast = new_ast();
    literal(&mut ast, "1", 0);
    operator(&mut ast, OperatorToken::InfixOperator(IdentifierIndex(NEWLINE)), 1, 2);
    literal(&mut ast, "2", 2);
    ast.char_data.append_line(2);
    ast.char_data.byte_length = 3;
    assert_eq!(ast.to_bytes(), b"1\n2".to_vec());
}

#[test]
fn crlf_whitespace_is_printed_as_recorded() {
    let mut ast = new_ast();
    literal(&mut ast, "1", 0);
    operator(&mut ast, OperatorToken::InfixOperator(IdentifierIndex(NEWLINE)), 1, 3);
    literal(&mut ast, "2", 3);
    ast.char_data.append_whitespace("\r\n", 1);
    ast.char_data.append_line(3);
    ast.char_data.byte_length = 4;
    assert_eq!(ast.to_bytes(), b"1\r\n2".to_vec());
}

#[test]
fn unknown_gaps_are_spaces() {
    let mut ast = new_ast();
    literal(&mut ast, "1", 0);
    literal(&mut ast, "2", 3);
    ast.char_data.byte_length = 4;
    assert_eq!(ast.to_bytes(), b"1  2".to_vec());
}

#[test]
fn raw_bytes_are_kept() {
    let mut ast = new_ast();
    ast.raw_literals.push(vec![0xFF, b'a']);
    ast.push_token(
        Token::Expression(ExpressionToken::Term(TermToken::RawErrorTerm(ErrorCode::InvalidUtf8, RawLiteralIndex(0)))),
        ByteRange { start: 0, end: 2 },
    );
    ast.char_data.byte_length = 2;
    assert_eq!(ast.to_bytes(), vec![0xFF, b'a']);
    assert_eq!(ast.to_string(), "\u{FFFD}a");
}

#[test]
fn starting_inside_the_last_run_of_whitespace_prints_spaces() {
    let mut ast = new_ast();
    literal(&mut ast, "1", 0);
    literal(&mut ast, "2", 3);
    ast.char_data.append_whitespace("\t\t", 1);
    ast.char_data.byte_length = 4;
    assert_eq!(ast.to_bytes(), b"1\t\t2".to_vec());
    let part = SourceReconstruction::new(&ast, ByteRange { start: 2, end: 4 });
    assert_eq!(part.to_bytes(), b" 2".to_vec());
}

#[test]
fn starting_inside_an_earlier_run_of_whitespace_prints_the_rest_of_it() {
    let mut ast = new_ast();
    literal(&mut ast, "1", 0);
    literal(&mut ast, "2", 3);
    ast.char_data.append_whitespace("\t\t", 1);
    ast.char_data.append_whitespace(" ", 4);
    literal(&mut ast, "3", 5);
    ast.char_data.byte_length = 6;
    assert_eq!(ast.to_bytes(), b"1\t\t2 3".to_vec());
    let part = SourceReconstruction::new(&ast, ByteRange { start: 2, end: 6 });
    assert_eq!(part.to_bytes(), b"\t2 3".to_vec());
    assert_eq!(part.to_string(), "\t2 3");
}

#[test]
fn multibyte_characters_in_a_token_print_whole() {
    let mut ast = new_ast();
    let e = ast.intern_identifier("é");
    ast.push_token(Token::Expression(ExpressionToken::Term(TermToken::RawIdentifier(e))), ByteRange { start: 0, end: 2 });
    ast.char_data.byte_length = 2;
    assert_eq!(ast.to_string(), "é");
    let part = SourceReconstruction::new(&ast, ByteRange { start: 1, end: 2 });
    assert_eq!(part.to_string(), "\u{FFFD}");
}

#[test]
fn token_kinds() {
    let mut ast = one_plus_two();
    ast.push_token(
        Token::Operator(OperatorToken::CloseBlock(BlockIndex(3), ExpressionBoundary::CurlyBraces)),
        ByteRange { start: 6, end: 6 },
    );
    assert!(matches!(ast.expression_token(AstIndex(0)), ExpressionToken::Term(TermToken::IntegerLiteral(_))));
    assert_eq!(ast.operator_token(AstIndex(1)), OperatorToken::InfixOperator(IdentifierIndex(PLUS)));
    assert_eq!(ast.close_block_index(AstIndex(3)), BlockIndex(3));
    let first = ast.char_data.whitespace_ranges[0].0;
    assert_eq!(ast.whitespace_string(first), " ");
}

#[test]
fn token_texts() {
    let mut ast = new_ast();
    let a = ast.intern_identifier("a");
    ast.push_token(Token::Expression(ExpressionToken::Term(TermToken::RawIdentifier(a))), ByteRange { start: 0, end: 1 });
    operator(&mut ast, OperatorToken::InfixAssignment(IdentifierIndex(PLUS)), 1, 3);
    literal(&mut ast, "12", 3);
    ast.raw_literals.push(vec![b'x', 0xC0]);
    ast.push_token(
        Token::Expression(ExpressionToken::Term(TermToken::RawErrorTerm(ErrorCode::InvalidUtf8, RawLiteralIndex(0)))),
        ByteRange { start: 5, end: 7 },
    );
    operator(&mut ast, OperatorToken::Close(AstIndex(0), ExpressionBoundary::CurlyBraces), 7, 8);
    assert_eq!(ast.token_string(AstIndex(0)), "a");
    assert_eq!(ast.token_string(AstIndex(1)), "+=");
    assert_eq!(ast.token_string(AstIndex(2)), "12");
    assert_eq!(ast.token_string(AstIndex(3)), "x\u{FFFD}");
    assert_eq!(ast.token_string(AstIndex(4)), "}");
}

#[test]
fn tokens_are_listed_with_their_places() {
    let ast = one_plus_two();
    assert_eq!(
        ast.token_listing(),
        "Tokens:\n\
         [1:1] 1 Expression(Term(IntegerLiteral(LiteralIndex(0))))\n\
         [1:3] + Operator(InfixOperator(IdentifierIndex(1)))\n\
         [1:5] 2 Expression(Term(IntegerLiteral(LiteralIndex(1))))\n"
    );
}

#[test]
fn token_debug_texts() {
    let open = Token::Expression(ExpressionToken::Open(ExpressionBoundaryError::NoError, ExpressionBoundary::Parentheses, AstIndex(2)));
    assert_eq!(open.debug_text(), format!("{:?}", open));
    let error = Token::Expression(ExpressionToken::Term(TermToken::RawErrorTerm(ErrorCode::InvalidUtf8, RawLiteralIndex(7))));
    assert_eq!(error.debug_text(), format!("{:?}", error));
    let close = Token::Operator(OperatorToken::CloseBlock(BlockIndex(3), ExpressionBoundary::CurlyBraces));
    assert_eq!(close.debug_text(), "Operator(CloseBlock(BlockIndex(3), CurlyBraces))");
    let assign = Token::Operator(OperatorToken::InfixAssignment(IdentifierIndex(PLUS)));
    assert_eq!(assign.debug_text(), format!("{:?}", assign));
}
