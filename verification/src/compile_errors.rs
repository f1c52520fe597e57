//! Errors that the tokenizer and the source reader report.

use crate::char_data::{
    placeable,
    span_debug, span_debug_text, spec_range, ByteIndex, ByteRange, CharData,
    LineColumnRange,
};
use crate::text::{decimal, decimal_string};
use crate::formatting::{debug_quoted, debug_text, io_error_text};
use vstd::prelude::*;

verus! {

/// An error found while reading or tokenizing a source. Ranges are of
/// character indices, `start..end`.
#[derive(Debug)]
pub enum CompileError {
    SourceNotFound(std::io::Error),
    InvalidUtf8(ByteRange),
    UnsupportedCharacters(ByteRange),
    IoOpenError(std::io::Error),
    IoReadError(usize, std::io::Error),
}

/// The code of each error: 101-999 syntax errors, 9001-9999 system errors.
pub open spec fn spec_compile_error_code(error: &CompileError) -> u16 {
    match error {
        CompileError::SourceNotFound(..) => 101,
        CompileError::InvalidUtf8(..) => 102,
        CompileError::UnsupportedCharacters(..) => 103,
        CompileError::IoOpenError(..) => 9001,
        CompileError::IoReadError(..) => 9002,
    }
}

/// The message of each error, where `io` stands for the text of the I/O
/// error it carries (if any) and `name` is the source's name.
pub open spec fn spec_compile_error_message(
    error: &CompileError,
    name: Seq<char>,
    io: Seq<char>,
) -> Seq<char> {
    match error {
        CompileError::SourceNotFound(..) => "File not found: "@ + debug_quoted(name) + " (error: "@
            + io + ")"@,
        CompileError::UnsupportedCharacters(..) => "Unsupported characters"@,
        CompileError::InvalidUtf8(..) => "Invalid UTF-8"@,
        CompileError::IoOpenError(..) => "I/O error opening "@ + debug_quoted(name) + ": "@ + io,
        CompileError::IoReadError(..) => "I/O error while reading "@ + debug_quoted(name) + ": "@
            + io,
    }
}

/// Compile error numbers are easy to search for: none is 100 or below, and
/// none is a multiple of 1000; syntax errors are 101-999 and system errors
/// 9001-9999.
pub proof fn lemma_compile_error_codes_searchable(error: &CompileError)
    ensures
        spec_compile_error_code(error) > 100,
        spec_compile_error_code(error) % 1000 != 0,
        error is IoOpenError || error is IoReadError <==> 9001 <= spec_compile_error_code(error) <= 9999,
{
}

/// Where each error is shown: nowhere in particular for errors opening the
/// source, the bad characters for format errors, and the place reading
/// stopped for read errors.
pub open spec fn spec_compile_error_range(error: &CompileError, line_starts: Seq<ByteIndex>) -> Option<
    LineColumnRange,
> {
    match error {
        CompileError::SourceNotFound(..) | CompileError::IoOpenError(..) => None,
        CompileError::InvalidUtf8(range) | CompileError::UnsupportedCharacters(range) => Some(
            spec_range(line_starts, *range),
        ),
        CompileError::IoReadError(location, _) => Some(
            spec_range(line_starts, ByteRange { start: *location, end: *location }),
        ),
    }
}

/// Whether the place of an error can be computed: its indices leave room
/// for the one past them.
pub open spec fn placeable_error(error: &CompileError) -> bool {
    match error {
        CompileError::InvalidUtf8(range) | CompileError::UnsupportedCharacters(range) => placeable(
            *range,
        ),
        CompileError::IoReadError(location, _) => *location < usize::MAX,
        _ => true,
    }
}

/// The report of an error: the source's name (quoted), where the error is,
/// its number and its message.
pub open spec fn spec_compile_error_report(
    error: &CompileError,
    name: Seq<char>,
    line_starts: Seq<ByteIndex>,
    io: Seq<char>,
) -> Seq<char> {
    debug_quoted(name) + " "@ + span_debug_text(spec_compile_error_range(error, line_starts))
        + " - BRGR-"@ + decimal(spec_compile_error_code(error) as nat) + " "@
        + spec_compile_error_message(error, name, io)
}

impl CompileError {
    /// The number of the error: 101-999 for syntax errors, 9001-9999 for
    /// system errors.
    pub fn code(&self) -> (r: u16)
        ensures
            r == spec_compile_error_code(self),
    {
        match self {
            CompileError::SourceNotFound(..) => 101,
            CompileError::InvalidUtf8(..) => 102,
            CompileError::UnsupportedCharacters(..) => 103,
            CompileError::IoOpenError(..) => 9001,
            CompileError::IoReadError(..) => 9002,
        }
    }

    /// Where the error is shown: nowhere in particular for errors opening the
    /// source, the bad characters for format errors, and the place reading
    /// stopped for read errors.
    pub fn range(&self, char_data: &CharData) -> (r: Option<LineColumnRange>)
        requires
            char_data.wf(),
            placeable_error(self),
        ensures
            r == spec_compile_error_range(self, char_data.line_starts@),
    {
        match self {
            CompileError::SourceNotFound(..) | CompileError::IoOpenError(..) => None,
            CompileError::InvalidUtf8(range) | CompileError::UnsupportedCharacters(range) => {
                Some(char_data.range(range))
            },
            CompileError::IoReadError(location, _) => {
                let range = ByteRange { start: *location, end: *location };
                Some(char_data.range(&range))
            },
        }
    }

    /// The text of the I/O error the error carries, or nothing where it
    /// carries none.
    fn io_text(&self) -> (r: String)
        ensures
            !(self is SourceNotFound || self is IoOpenError || self is IoReadError) ==> r@ == Seq::<
                char,
            >::empty(),
    {
        match self {
            CompileError::SourceNotFound(error) | CompileError::IoOpenError(error) => io_error_text(
                error,
            ),
            CompileError::IoReadError(_, error) => io_error_text(error),
            _ => String::new(),
        }
    }

    /// The message of the error, naming the source `source_name`; the text of
    /// the I/O error is the system's.
    pub fn message(&self, source_name: &str) -> (r: String)
        ensures
            exists|io: Seq<char>| r@ == spec_compile_error_message(self, source_name@, io),
    {
        let io = self.io_text();
        self.message_with(source_name, io.as_str())
    }

    /// The message of the error, naming the source `source_name`, where `io`
    /// is the text of the I/O error it carries.
    pub fn message_with(&self, source_name: &str, io: &str) -> (r: String)
        ensures
            r@ == spec_compile_error_message(self, source_name@, io@),
    {
        match self {
            CompileError::SourceNotFound(_) => String::from_str("File not found: ").concat(
                debug_text(source_name).as_str(),
            ).concat(" (error: ").concat(io).concat(")"),
            CompileError::UnsupportedCharacters(_) => String::from_str("Unsupported characters"),
            CompileError::InvalidUtf8(_) => String::from_str("Invalid UTF-8"),
            CompileError::IoOpenError(_) => String::from_str("I/O error opening ").concat(
                debug_text(source_name).as_str(),
            ).concat(": ").concat(io),
            CompileError::IoReadError(..) => String::from_str("I/O error while reading ").concat(
                debug_text(source_name).as_str(),
            ).concat(": ").concat(io),
        }
    }

    /// The error as the compiler reports it: the source's name (quoted), where
    /// the error is, its number and its message; the text of the I/O error is
    /// the system's.
    pub fn format(&self, source_name: &str, char_data: &CharData) -> (r: String)
        requires
            char_data.wf(),
            placeable_error(self),
        ensures
            exists|io: Seq<char>| r@ == spec_compile_error_report(self, source_name@, char_data.line_starts@, io),
    {
        let io = self.io_text();
        self.format_with(source_name, char_data, io.as_str())
    }

    /// The error as the compiler reports it, where `io` is the text of the
    /// I/O error it carries.
    pub fn format_with(&self, source_name: &str, char_data: &CharData, io: &str) -> (r: String)
        requires
            char_data.wf(),
            placeable_error(self),
        ensures
            r@ == spec_compile_error_report(self, source_name@, char_data.line_starts@, io@),
    {
        let message = self.message_with(source_name, io);
        debug_text(source_name).concat(" ").concat(span_debug(self.range(char_data)).as_str()).concat(
            " - BRGR-",
        ).concat(decimal_string(self.code() as u64).as_str()).concat(" ").concat(message.as_str())
    }
}

} // verus!
