use berg_compiler::ast::Ast;
use berg_compiler::block::BlockRef;
use berg_compiler::char_data::{ByteRange, CharData, LineColumn, LineColumnRange};
use berg_compiler::error::{
    BergError, Error, ErrorCode, ErrorLocation, ErrorVal, ExpressionErrorPosition, ExpressionNeighbors,
    ExpressionRef,
};
use berg_compiler::identifiers::{known_identifiers, PLUS, TRUE};
use berg_compiler::index::{AstIndex, FieldIndex, IdentifierIndex, LiteralIndex, RawLiteralIndex};
use berg_compiler::message::{hex_byte_string, MessageContext};
use berg_compiler::syntax::{Fixity, OperandPosition};

const ALL_CODES: [(ErrorCode, u32, &str); 22] = [
    (ErrorCode::SourceNotFound, 101, "SourceNotFound"),
    (ErrorCode::IoOpenError, 102, "IoOpenError"),
    (ErrorCode::IoReadError, 103, "IoReadError"),
    (ErrorCode::CurrentDirectoryError, 104, "CurrentDirectoryError"),
    (ErrorCode::SourceTooLarge, 105, "SourceTooLarge"),
    (ErrorCode::InvalidUtf8, 201, "InvalidUtf8"),
    (ErrorCode::UnsupportedCharacters, 202, "UnsupportedCharacters"),
    (ErrorCode::IdentifierStartsWithNumber, 203, "IdentifierStartsWithNumber"),
    (ErrorCode::MissingOperand, 301, "MissingOperand"),
    (ErrorCode::AssignmentTargetMustBeIdentifier, 302, "AssignmentTargetMustBeIdentifier"),
    (ErrorCode::RightSideOfDotMustBeIdentifier, 303, "RightSideOfDotMustBeIdentifier"),
    (ErrorCode::OpenWithoutClose, 304, "OpenWithoutClose"),
    (ErrorCode::CloseWithoutOpen, 305, "CloseWithoutOpen"),
    (ErrorCode::UnsupportedOperator, 1001, "UnsupportedOperator"),
    (ErrorCode::DivideByZero, 1002, "DivideByZero"),
    (ErrorCode::BadType, 1003, "BadType"),
    (ErrorCode::NoSuchField, 1004, "NoSuchField"),
    (ErrorCode::NoSuchPublicField, 1005, "NoSuchPublicField"),
    (ErrorCode::FieldNotSet, 1006, "FieldNotSet"),
    (ErrorCode::CircularDependency, 1007, "CircularDependency"),
    (ErrorCode::PrivateField, 1008, "PrivateField"),
    (ErrorCode::ImmutableField, 1009, "ImmutableField"),
];

#[test]
fn code_numbers_and_names() {
    for (code, number, name) in ALL_CODES.iter() {
        assert_eq!(code.code_number(), *number);
        assert_eq!(code.to_string(), *name);
        assert!(*number > 100 && number % 1000 != 0);
    }
}

#[test]
fn code_numbers_are_distinct() {
    for (a, na, _) in ALL_CODES.iter() {
        for (b, nb, _) in ALL_CODES.iter() {
            assert_eq!(na == nb, a == b);
        }
    }
}

#[test]
fn error_codes_of_errors() {
    let cases: Vec<(BergError<u32>, ErrorCode)> = vec![
        (BergError::SourceTooLarge(7), ErrorCode::SourceTooLarge),
        (BergError::InvalidUtf8(RawLiteralIndex(0)), ErrorCode::InvalidUtf8),
        (BergError::UnsupportedOperator(1, Fixity::Infix, IdentifierIndex(PLUS)), ErrorCode::UnsupportedOperator),
        (BergError::NoSuchPublicField(BlockRef(0), IdentifierIndex(TRUE)), ErrorCode::NoSuchPublicField),
        (BergError::NoSuchPublicFieldOnValue(3, IdentifierIndex(TRUE)), ErrorCode::NoSuchPublicField),
        (BergError::NoSuchPublicFieldOnRoot(IdentifierIndex(TRUE)), ErrorCode::NoSuchPublicField),
        (BergError::ImmutableFieldOnRoot(FieldIndex(0)), ErrorCode::ImmutableField),
        (BergError::BadOperandType(OperandPosition::Left, 1, "number"), ErrorCode::BadType),
        (BergError::BadType(1, "number"), ErrorCode::BadType),
        (BergError::CircularDependency, ErrorCode::CircularDependency),
        (BergError::PrivateField(BlockRef(2), IdentifierIndex(TRUE)), ErrorCode::PrivateField),
    ];
    for (error, code) in cases {
        assert_eq!(error.code(), code);
        let located = error.at_location(ExpressionRef { root: AstIndex(4) });
        assert_eq!(located.code(), code);
        assert_eq!(located.expression(), ExpressionRef { root: AstIndex(4) });
    }
}

#[test]
fn errors_placed_at_the_expression_or_an_operand() {
    let r: Result<u8, ErrorVal<u32>> = BergError::DivideByZero.err();
    assert!(matches!(
        r,
        Err(ErrorVal::ExpressionError(BergError::DivideByZero, ExpressionErrorPosition::Expression))
    ));
    let r: Result<u8, ErrorVal<u32>> = BergError::MissingOperand.operand_err(ExpressionErrorPosition::RightOperand);
    assert!(matches!(
        r,
        Err(ErrorVal::ExpressionError(BergError::MissingOperand, ExpressionErrorPosition::RightOperand))
    ));
}

fn neighbors() -> ExpressionNeighbors {
    ExpressionNeighbors {
        root: AstIndex(1),
        parent_root: AstIndex(3),
        left_root: AstIndex(0),
        right_root: AstIndex(2),
        open_operator: AstIndex(4),
        close_operator: AstIndex(5),
    }
}

fn ranges() -> Vec<ByteRange> {
    (0..6).map(|i| ByteRange { start: 10 * i, end: 10 * i + 1 + i }).collect()
}

fn location(error: BergError<u32>) -> ErrorLocation {
    Error::new(error, ExpressionRef { root: AstIndex(1) }).location(&neighbors(), &ranges())
}

#[test]
fn where_errors_are_shown() {
    assert_eq!(location(BergError::CurrentDirectoryError), ErrorLocation::Generic);
    assert_eq!(location(BergError::SourceNotFound), ErrorLocation::SourceOnly);
    assert_eq!(location(BergError::SourceTooLarge(9)), ErrorLocation::SourceOnly);
    assert_eq!(location(BergError::MissingOperand), ErrorLocation::SourceRange(ranges()[3]));
    assert_eq!(
        location(BergError::UnsupportedOperator(0, Fixity::Prefix, IdentifierIndex(PLUS))),
        ErrorLocation::SourceRange(ranges()[1])
    );
    assert_eq!(
        location(BergError::BadOperandType(OperandPosition::Left, 0, "number")),
        ErrorLocation::SourceExpression(AstIndex(0))
    );
    assert_eq!(
        location(BergError::BadOperandType(OperandPosition::PostfixOperand, 0, "number")),
        ErrorLocation::SourceExpression(AstIndex(0))
    );
    assert_eq!(
        location(BergError::BadOperandType(OperandPosition::PrefixOperand, 0, "number")),
        ErrorLocation::SourceExpression(AstIndex(2))
    );
    assert_eq!(location(BergError::DivideByZero), ErrorLocation::SourceExpression(AstIndex(2)));
    assert_eq!(location(BergError::RightSideOfDotMustBeIdentifier), ErrorLocation::SourceExpression(AstIndex(2)));
    assert_eq!(location(BergError::OpenWithoutClose), ErrorLocation::SourceRange(ranges()[4]));
    assert_eq!(location(BergError::CloseWithoutOpen), ErrorLocation::SourceRange(ranges()[5]));
    assert_eq!(location(BergError::NoSuchField(FieldIndex(0))), ErrorLocation::SourceExpression(AstIndex(1)));
    assert_eq!(location(BergError::CircularDependency), ErrorLocation::SourceExpression(AstIndex(1)));
}

#[test]
fn byte_ranges_of_locations() {
    let expression = ByteRange { start: 3, end: 9 };
    let range = ByteRange { start: 5, end: 6 };
    assert_eq!(ErrorLocation::SourceRange(range).byte_range(expression), range);
    assert_eq!(ErrorLocation::SourceExpression(AstIndex(0)).byte_range(expression), expression);
    let mut data = CharData::new();
    data.append_line(4);
    assert_eq!(
        ErrorLocation::SourceRange(range).range(expression, &data),
        LineColumnRange::new(LineColumn::new(2, 2), LineColumn::new(2, 2))
    );
    assert_eq!(
        ErrorLocation::SourceExpression(AstIndex(0)).range(expression, &data),
        LineColumnRange::new(LineColumn::new(1, 4), LineColumn::new(2, 5))
    );
    let empty = ByteRange { start: 6, end: 6 };
    assert_eq!(
        ErrorLocation::SourceRange(empty).range(expression, &data),
        LineColumnRange::zero_width(LineColumn::new(2, 3))
    );
}

#[test]
fn operand_positions() {
    assert!(OperandPosition::Left.is_left());
    assert!(OperandPosition::PostfixOperand.is_left());
    assert!(!OperandPosition::Right.is_left());
    assert!(!OperandPosition::PrefixOperand.is_left());
    assert_eq!(OperandPosition::Left.to_string(), "left side");
    assert_eq!(OperandPosition::PrefixOperand.to_string(), "right side");
}

fn context() -> MessageContext {
    MessageContext {
        source_name: String::from("main.berg"),
        absolute_path: String::from("\"/src/main.berg\""),
        io_error: String::from("permission denied"),
        root_path_error: String::from("no cwd"),
        expression: String::from("a + 1"),
        token: String::from("/"),
        parent_token: String::from("+"),
        open_token: String::from("("),
        close_token: String::from(")"),
        boundary_open: String::from("("),
        boundary_close: String::from(")"),
        left_expression: String::from("x"),
        right_expression: String::from("3"),
        operand_position: OperandPosition::Right,
        value: String::from("true"),
        fixity: String::from("infix"),
    }
}

fn ast() -> Ast<u8> {
    let mut ast = Ast::new(known_identifiers(), &vec![IdentifierIndex(TRUE)]);
    ast.raw_literals.push(vec![0x80, 0x0F, 0xF8]);
    ast.raw_literals.push((0u8..20).collect());
    ast.intern_literal("`");
    ast.intern_literal("1abc");
    ast
}

fn message(error: BergError<u32>) -> String {
    Error::new(error, ExpressionRef { root: AstIndex(0) }).message(&context(), &ast())
}

#[test]
fn source_messages() {
    assert_eq!(
        message(BergError::IoOpenError),
        "I/O error opening \"/src/main.berg\" (main.berg): permission denied"
    );
    assert_eq!(
        message(BergError::SourceNotFound),
        "I/O error getting current directory path \"/src/main.berg\" (main.berg): permission denied"
    );
    assert_eq!(
        message(BergError::IoReadError),
        "I/O error reading \"/src/main.berg\" (main.berg): permission denied"
    );
    assert_eq!(
        message(BergError::CurrentDirectoryError),
        "I/O error getting current directory to determine path of \"main.berg\": no cwd"
    );
    assert_eq!(
        message(BergError::SourceTooLarge(5000000000)),
        "SourceRef file main.berg too large (5000000000 bytes): source files greater than 4GB are unsupported."
    );
}

#[test]
fn invalid_bytes_are_shown_in_hex() {
    assert_eq!(
        message(BergError::InvalidUtf8(RawLiteralIndex(0))),
        "Invalid UTF-8 bytes! Perhaps this isn't a Berg UTF-8 source file? Invalid bytes: '80 FF8'"
    );
    assert_eq!(
        message(BergError::InvalidUtf8(RawLiteralIndex(1))),
        "Invalid UTF-8 bytes! Perhaps this isn't a Berg UTF-8 source file? Invalid bytes: ' 0 1 2 3 4 5 6 7 8 9 A B'"
    );
    assert_eq!(hex_byte_string(0x0A), " A");
    assert_eq!(hex_byte_string(0xFF), "FF");
    assert_eq!(hex_byte_string(0x10), "10");
}

#[test]
fn expression_messages() {
    assert_eq!(
        message(BergError::UnsupportedCharacters(LiteralIndex(0))),
        "Unsupported Unicode characters! Perhaps this isn't a Berg source file? Unsupported characters: '`'"
    );
    assert_eq!(
        message(BergError::IdentifierStartsWithNumber(LiteralIndex(1))),
        "Field names must start with letters or '_', but '1abc' starts with a number! You may have mistyped the field name, or missed an operator?"
    );
    assert_eq!(message(BergError::OpenWithoutClose), "Open '(' found without a matching close ')'.");
    assert_eq!(message(BergError::CloseWithoutOpen), "Close ')' found without a matching open '('.");
    assert_eq!(
        message(BergError::UnsupportedOperator(0, Fixity::Infix, IdentifierIndex(PLUS))),
        "Unsupported infix operator + on value true"
    );
    assert_eq!(
        message(BergError::DivideByZero),
        "Division by zero is illegal. Perhaps you meant a different number on the right hand side of the '/'?"
    );
    assert_eq!(message(BergError::NoSuchField(FieldIndex(0))), "No such field: 'true'");
    assert_eq!(
        message(BergError::FieldNotSet(FieldIndex(0))),
        "Field 'true' was declared, but never set to a value!"
    );
    assert_eq!(
        message(BergError::NoSuchPublicField(BlockRef(0), IdentifierIndex(PLUS))),
        "No field '+' exists on 'true'! Perhaps it's a misspelling?"
    );
    assert_eq!(
        message(BergError::NoSuchPublicFieldOnRoot(IdentifierIndex(PLUS))),
        "No field '+' exists on the root! Also, how did you manage to do '.' on the root?"
    );
    assert_eq!(
        message(BergError::PrivateField(BlockRef(0), IdentifierIndex(TRUE))),
        "Field 'true' on 'true' is private and cannot be accessed with '.'! Perhaps you meant to declare the field with ':true' instead of 'true'?"
    );
    assert_eq!(message(BergError::ImmutableFieldOnRoot(FieldIndex(0))), "'true' cannot be modified!");
    assert_eq!(message(BergError::CircularDependency), "Circular dependency at 'a + 1'!");
    assert_eq!(message(BergError::MissingOperand), "Operator + has no value on right side to operate on!");
    assert_eq!(
        message(BergError::AssignmentTargetMustBeIdentifier),
        "The assignment operator '+' must have a field declaration or name on right side (like \":foo + ...\" or \"foo + ...\": right side is currently a + 1."
    );
    assert_eq!(
        message(BergError::RightSideOfDotMustBeIdentifier),
        "The field access operator '/' must have an identifier on the right side (like \"x.FieldName\"): currently it is '3'."
    );
    assert_eq!(
        message(BergError::BadOperandType(OperandPosition::Left, 0, "number")),
        "The value of 'x' is true, but left side '/' must be an number!"
    );
    assert_eq!(
        message(BergError::BadType(0, "boolean")),
        "The value of 'a + 1' is true, but we expected boolean!"
    );
}
