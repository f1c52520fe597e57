use berg_compiler::char_data::{ByteRange, CharData, LineColumn, LineColumnRange};
use berg_compiler::compile_errors::CompileError;
use std::io;

fn io_error() -> io::Error {
    io::Error::new(io::ErrorKind::Other, "disk on fire")
}

#[test]
fn codes() {
    assert_eq!(CompileError::SourceNotFound(io_error()).code(), 101);
    assert_eq!(CompileError::InvalidUtf8(ByteRange { start: 0, end: 1 }).code(), 102);
    assert_eq!(CompileError::UnsupportedCharacters(ByteRange { start: 0, end: 1 }).code(), 103);
    assert_eq!(CompileError::IoOpenError(io_error()).code(), 9001);
    assert_eq!(CompileError::IoReadError(3, io_error()).code(), 9002);
}

#[test]
fn ranges() {
    let mut data = CharData::new();
    data.append_line(4);
    assert_eq!(CompileError::SourceNotFound(io_error()).range(&data), None);
    assert_eq!(CompileError::IoOpenError(io_error()).range(&data), None);
    assert_eq!(
        CompileError::InvalidUtf8(ByteRange { start: 1, end: 3 }).range(&data),
        Some(LineColumnRange::new(LineColumn::new(1, 2), LineColumn::new(1, 3)))
    );
    assert_eq!(
        CompileError::UnsupportedCharacters(ByteRange { start: 5, end: 6 }).range(&data),
        Some(LineColumnRange::new(LineColumn::new(2, 2), LineColumn::new(2, 2)))
    );
    assert_eq!(
        CompileError::IoReadError(6, io_error()).range(&data),
        Some(LineColumnRange::zero_width(LineColumn::new(2, 3)))
    );
}

#[test]
fn messages() {
    assert_eq!(
        CompileError::SourceNotFound(io_error()).message("main.berg"),
        "File not found: \"main.berg\" (error: disk on fire)"
    );
    assert_eq!(
        CompileError::UnsupportedCharacters(ByteRange { start: 0, end: 1 }).message("main.berg"),
        "Unsupported characters"
    );
    assert_eq!(CompileError::InvalidUtf8(ByteRange { start: 0, end: 1 }).message("x"), "Invalid UTF-8");
    assert_eq!(
        CompileError::IoOpenError(io_error()).message("a\"b"),
        "I/O error opening \"a\\\"b\": disk on fire"
    );
    assert_eq!(
        CompileError::IoReadError(2, io_error()).message("main.berg"),
        "I/O error while reading \"main.berg\": disk on fire"
    );
}

#[test]
fn formatted_reports() {
    let mut data = CharData::new();
    data.append_line(4);
    assert_eq!(
        CompileError::UnsupportedCharacters(ByteRange { start: 5, end: 7 }).format("main.berg", &data),
        "\"main.berg\" LineColumn { line: 2, column: 2 }..LineColumn { line: 2, column: 3 } - BRGR-103 Unsupported characters"
    );
    assert_eq!(
        CompileError::IoOpenError(io_error()).format("x", &data),
        "\"x\" LineColumn { line: 0, column: 0 }..LineColumn { line: 0, column: 0 } - BRGR-9001 I/O error opening \"x\": disk on fire"
    );
    assert_eq!(
        CompileError::IoReadError(0, io_error()).format("x", &data),
        "\"x\" LineColumn { line: 1, column: 1 }..LineColumn { line: 1, column: 1 } - BRGR-9002 I/O error while reading \"x\": disk on fire"
    );
}

#[test]
fn messages_with_given_io_text() {
    let error = CompileError::IoOpenError(io_error());
    assert_eq!(error.message_with("m", "denied"), "I/O error opening \"m\": denied");
    assert_eq!(
        CompileError::SourceNotFound(io_error()).message_with("m", "gone"),
        "File not found: \"m\" (error: gone)"
    );
    assert_eq!(
        CompileError::InvalidUtf8(ByteRange { start: 0, end: 1 }).message_with("m", "ignored"),
        "Invalid UTF-8"
    );
    let data = CharData::new();
    assert_eq!(
        CompileError::IoReadError(0, io_error()).format_with("m", &data, "eof"),
        "\"m\" LineColumn { line: 1, column: 1 }..LineColumn { line: 1, column: 1 } - BRGR-9002 I/O error while reading \"m\": eof"
    );
}

#[test]
fn character_data_of_a_text() {
    let chars: Vec<char> = "ab\ncd\n\ne".chars().collect();
    let data = CharData::from_chars(&chars);
    assert_eq!(data.line_starts, vec![0, 3, 6, 7]);
    assert_eq!(data.byte_length, 8);
    assert_eq!(data.location(7), LineColumn::new(4, 1));
}
