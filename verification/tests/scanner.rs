use berg_compiler::scanner::{next, next_has_left_operand, ByteType, CharType, Symbol};

fn symbols(source: &[u8]) -> Vec<(Symbol, usize, usize)> {
    let mut result = Vec::new();
    let mut index = 0;
    while let Some((symbol, end)) = next(source, index) {
        assert!(end > index);
        result.push((symbol, index, end));
        index = end;
    }
    result
}

#[test]
fn scans_integer_and_operators() {
    assert_eq!(
        symbols(b"12+345"),
        vec![(Symbol::Integer, 0, 2), (Symbol::Operator, 2, 3), (Symbol::Integer, 3, 6)]
    );
}

#[test]
fn operator_runs_are_one_symbol() {
    assert_eq!(
        symbols(b"1+-2"),
        vec![(Symbol::Integer, 0, 1), (Symbol::Operator, 1, 3), (Symbol::Integer, 3, 4)]
    );
}

#[test]
fn parentheses_are_single_symbols() {
    assert_eq!(
        symbols(b"((1))"),
        vec![
            (Symbol::Open, 0, 1),
            (Symbol::Open, 1, 2),
            (Symbol::Integer, 2, 3),
            (Symbol::Close, 3, 4),
            (Symbol::Close, 4, 5),
        ]
    );
}

#[test]
fn empty_source_has_no_symbols() {
    assert_eq!(next(b"", 0), None);
    assert_eq!(next(b"12", 2), None);
    assert_eq!(next(b"12", 7), None);
}

#[test]
fn unsupported_characters() {
    assert_eq!(symbols(b"`"), vec![(Symbol::UnsupportedCharacters, 0, 1)]);
}

#[test]
fn unsupported_characters_multiple() {
    assert_eq!(symbols(b"``"), vec![(Symbol::UnsupportedCharacters, 0, 2)]);
}

#[test]
fn unsupported_characters_then_ok() {
    assert_eq!(
        symbols(b"`1"),
        vec![(Symbol::UnsupportedCharacters, 0, 1), (Symbol::Integer, 1, 2)]
    );
}

#[test]
fn unsupported_characters_multiple_then_ok() {
    assert_eq!(
        symbols(b"``1"),
        vec![(Symbol::UnsupportedCharacters, 0, 2), (Symbol::Integer, 2, 3)]
    );
}

#[test]
fn invalid_utf8_no_leading_byte() {
    assert_eq!(symbols(&[0b1000_0000]), vec![(Symbol::InvalidUtf8Bytes, 0, 1)]);
}

#[test]
fn invalid_utf8_invalid_byte() {
    assert_eq!(symbols(&[0b1111_1000]), vec![(Symbol::InvalidUtf8Bytes, 0, 1)]);
}

#[test]
fn invalid_utf8_multiple() {
    assert_eq!(
        symbols(&[0b1000_0000, 0b1111_1000, 0b1000_0000]),
        vec![(Symbol::InvalidUtf8Bytes, 0, 3)]
    );
}

#[test]
fn invalid_utf8_multiple_then_ok() {
    assert_eq!(
        symbols(&[0b1000_0000, 0b1111_1000, 0b1000_0000, b'1']),
        vec![(Symbol::InvalidUtf8Bytes, 0, 3), (Symbol::Integer, 3, 4)]
    );
}

#[test]
fn invalid_utf8_too_small_2() {
    assert_eq!(
        symbols(&[0b1100_0000, b'1']),
        vec![(Symbol::InvalidUtf8Bytes, 0, 1), (Symbol::Integer, 1, 2)]
    );
}

#[test]
fn invalid_utf8_too_small_eof_2() {
    assert_eq!(symbols(&[0b1100_0000]), vec![(Symbol::InvalidUtf8Bytes, 0, 1)]);
}

#[test]
fn invalid_utf8_too_small_3() {
    assert_eq!(
        symbols(&[0b1110_0000, 0b1000_0000, b'1']),
        vec![(Symbol::InvalidUtf8Bytes, 0, 2), (Symbol::Integer, 2, 3)]
    );
}

#[test]
fn invalid_utf8_too_small_eof_3() {
    assert_eq!(symbols(&[0b1110_0000, 0b1000_0000]), vec![(Symbol::InvalidUtf8Bytes, 0, 2)]);
}

#[test]
fn invalid_utf8_too_small_eof_4() {
    assert_eq!(
        symbols(&[0b1111_0000, 0b1000_0000, 0b1000_0000]),
        vec![(Symbol::InvalidUtf8Bytes, 0, 3)]
    );
}

#[test]
fn unsupported_and_invalid() {
    assert_eq!(
        symbols(&[b'`', 0b1000_0000]),
        vec![(Symbol::UnsupportedCharacters, 0, 1), (Symbol::InvalidUtf8Bytes, 1, 2)]
    );
}

#[test]
fn unsupported_and_invalid_multiple() {
    assert_eq!(
        symbols(&[b'`', b'`', 0b1000_0000, 0b1000_0000]),
        vec![(Symbol::UnsupportedCharacters, 0, 2), (Symbol::InvalidUtf8Bytes, 2, 4)]
    );
}

#[test]
fn invalid_and_unsupported() {
    assert_eq!(
        symbols(&[0b1000_0000, b'`']),
        vec![(Symbol::InvalidUtf8Bytes, 0, 1), (Symbol::UnsupportedCharacters, 1, 2)]
    );
}

#[test]
fn invalid_and_unsupported_multiple() {
    assert_eq!(
        symbols(&[0b1000_0000, 0b1000_0000, b'`', b'`']),
        vec![(Symbol::InvalidUtf8Bytes, 0, 2), (Symbol::UnsupportedCharacters, 2, 4)]
    );
}

#[test]
fn valid_multibyte_character_inside_unsupported_run() {
    // "`é1": the two-byte character after the backquote is read whole.
    assert_eq!(
        symbols(&[b'`', 0xC3, 0xA9, b'1']),
        vec![(Symbol::UnsupportedCharacters, 0, 3), (Symbol::Integer, 3, 4)]
    );
}

#[test]
fn leading_byte_checked_from_the_next_byte() {
    // A multi-byte leading byte has its length checked from the byte after it,
    // so a two-byte character at the very end counts as invalid bytes.
    assert_eq!(symbols(&[0xC3, 0xA9]), vec![(Symbol::InvalidUtf8Bytes, 0, 2)]);
    // With one more byte after it, the character is read as unsupported.
    assert_eq!(
        symbols(&[0xC3, 0xA9, 0x80, b'1']),
        vec![(Symbol::UnsupportedCharacters, 0, 2), (Symbol::InvalidUtf8Bytes, 2, 3), (Symbol::Integer, 3, 4)]
    );
}

#[test]
fn left_operand_detection() {
    let source = b"1+(2)";
    assert!(!next_has_left_operand(source, 0));
    assert!(next_has_left_operand(source, 1));
    assert!(!next_has_left_operand(source, 2));
    assert!(next_has_left_operand(source, 4));
    assert!(next_has_left_operand(source, 5));
}

#[test]
fn byte_classes() {
    assert_eq!(ByteType::from(b'7'), ByteType::Char(CharType::Digit));
    assert_eq!(ByteType::from(b'/'), ByteType::Char(CharType::Operator));
    assert_eq!(ByteType::from(b'('), ByteType::Char(CharType::Open));
    assert_eq!(ByteType::from(b')'), ByteType::Char(CharType::Close));
    assert_eq!(ByteType::from(b'a'), ByteType::Char(CharType::Unsupported));
    assert_eq!(ByteType::from_generic(0xC5), ByteType::Utf8LeadingByte(2));
    assert_eq!(ByteType::from_generic(0xE1), ByteType::Utf8LeadingByte(3));
    assert_eq!(ByteType::from_generic(0xF3), ByteType::Utf8LeadingByte(4));
    assert_eq!(ByteType::from_generic(0xF8), ByteType::InvalidUtf8);
    assert_eq!(ByteType::from_generic(0x90), ByteType::InvalidUtf8);
    assert!(ByteType::is_utf8_cont(0x80));
    assert!(ByteType::is_utf8_cont(0xBE));
    assert!(!ByteType::is_utf8_cont(0xBF));
    assert!(!ByteType::is_utf8_cont(0x7F));
}
