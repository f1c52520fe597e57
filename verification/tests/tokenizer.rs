use berg_compiler::char_data::{ByteRange, CharData};
use berg_compiler::compile_errors::CompileError;
use berg_compiler::syntax_expression::{SyntaxExpression, SyntaxExpressionType};
use berg_compiler::tokenizer::{CharClass, CharReader, Tokenizer};

fn tokenizer(source: &str) -> Tokenizer {
    Tokenizer::new(CharReader::new(source.chars().collect()))
}

fn unsupported_range(error: &CompileError) -> ByteRange {
    match error {
        CompileError::UnsupportedCharacters(range) => *range,
        other => panic!("unexpected error {:?}", other),
    }
}

#[test]
fn digits_become_an_integer_literal() {
    let mut t = tokenizer("123");
    assert_eq!(t.next(), Some(0));
    assert_eq!(t.next(), None);
    assert!(t.reader.errors.is_empty());
    let expressions = t.close();
    assert_eq!(expressions.len(), 1);
    assert_eq!(expressions[0].expression_type, SyntaxExpressionType::IntegerLiteral);
    assert_eq!(expressions[0].string, "123");
    assert_eq!(expressions[0].start, 0);
}

#[test]
fn empty_source_has_no_expressions() {
    let mut t = tokenizer("");
    assert_eq!(t.next(), None);
    assert!(t.reader.errors.is_empty());
    assert!(t.close().is_empty());
}

#[test]
fn tokenizer_reports_unsupported_characters() {
    let mut t = tokenizer("`");
    assert_eq!(t.next(), None);
    assert_eq!(t.reader.errors.len(), 1);
    assert_eq!(unsupported_range(&t.reader.errors[0]), ByteRange { start: 0, end: 1 });
    assert_eq!(t.reader.index(), 1);
}

#[test]
fn tokenizer_reports_unsupported_run_then_reads_on() {
    let mut t = tokenizer("``1");
    assert_eq!(t.next(), None);
    assert_eq!(t.reader.errors.len(), 1);
    let range = unsupported_range(&t.reader.errors[0]);
    assert_eq!(range, ByteRange { start: 0, end: 2 });
    let shown = t.reader.errors[0].range(&CharData::new()).unwrap();
    assert_eq!(shown.to_string(), "1:1-2");
    assert_eq!(t.next(), Some(0));
    assert_eq!(t.close()[0].string, "1");
}

#[test]
fn literal_then_unsupported() {
    let mut t = tokenizer("12 ab");
    assert_eq!(t.next(), Some(0));
    assert_eq!(t.next(), None);
    assert_eq!(unsupported_range(&t.reader.errors[0]), ByteRange { start: 2, end: 5 });
    assert_eq!(t.start, 5);
    assert!(t.buffer.is_empty());
}

#[test]
fn literals_are_numbered_in_order() {
    let mut t = tokenizer("7x42");
    assert_eq!(t.next(), Some(0));
    assert_eq!(t.next(), None);
    assert_eq!(t.next(), Some(1));
    let expressions = t.close();
    assert_eq!(expressions[1].string, "42");
    assert_eq!(expressions[1].start, 2);
}

#[test]
fn character_classes() {
    assert!(Tokenizer::is_digit('0'));
    assert!(Tokenizer::is_digit('9'));
    assert!(!Tokenizer::is_digit('a'));
    assert!(Tokenizer::is_significant('5'));
    assert!(!Tokenizer::is_significant(' '));
    assert!(Tokenizer::is_unsupported('`'));
    assert!(!Tokenizer::is_unsupported('3'));
}

#[test]
fn reader_reads_by_class() {
    let mut reader = CharReader::new("12a".chars().collect());
    assert_eq!(reader.peek(), Some('1'));
    assert_eq!(reader.read_if(CharClass::Unsupported), None);
    assert_eq!(reader.read_if(CharClass::Digit), Some('1'));
    let mut buffer = String::from("x");
    assert!(reader.read_while(CharClass::Digit, &mut buffer));
    assert_eq!(buffer, "x2");
    assert!(!reader.read_while(CharClass::Digit, &mut buffer));
    assert_eq!(reader.index(), 2);
    assert_eq!(reader.peek(), Some('a'));
    reader.report(CompileError::InvalidUtf8(ByteRange { start: 0, end: 1 }));
    assert_eq!(reader.errors.len(), 1);
}

#[test]
fn expressions_print_quoted() {
    let e = SyntaxExpression {
        expression_type: SyntaxExpressionType::IntegerLiteral,
        string: String::from("123"),
        start: 4,
    };
    assert_eq!(e.to_string(), "\"123\"");
}

#[test]
fn tokenize_reads_a_literal_then_reports_what_follows() {
    let mut t = tokenizer("42ab7");
    t.tokenize();
    assert_eq!(t.reader.index(), 4);
    assert_eq!(t.reader.errors.len(), 1);
    assert_eq!(unsupported_range(&t.reader.errors[0]), ByteRange { start: 2, end: 4 });
    let expressions = t.close();
    assert_eq!(expressions.len(), 1);
    assert_eq!(expressions[0].string, "42");
    assert_eq!(expressions[0].start, 0);
}

#[test]
fn tokenize_stops_at_the_end() {
    let mut t = tokenizer("907");
    t.tokenize();
    assert_eq!(t.reader.index(), 3);
    assert!(t.reader.errors.is_empty());
    assert_eq!(t.close().len(), 1);

    let mut t = tokenizer("");
    t.tokenize();
    assert!(t.reader.errors.is_empty());
    assert!(t.close().is_empty());
}

#[test]
fn tokenize_reports_unsupported_characters_first() {
    let mut t = tokenizer("x1");
    t.tokenize();
    assert_eq!(t.reader.index(), 1);
    assert_eq!(unsupported_range(&t.reader.errors[0]), ByteRange { start: 0, end: 1 });
    assert!(t.close().is_empty());
}
