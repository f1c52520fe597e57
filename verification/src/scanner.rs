//! Splits a byte buffer into symbols: integers, operators, parentheses, runs
//! of unsupported characters and runs of invalid UTF-8 bytes.

use vstd::prelude::*;

verus! {

/// The kind of symbol that `next` found.
#[derive(Debug, Clone, Copy, PartialEq, Eq, Structural)]
pub enum Symbol {
    Integer,
    Operator,
    Open,
    Close,
    UnsupportedCharacters,
    InvalidUtf8Bytes,
}

/// The class of a single character.
#[derive(Debug, Clone, Copy, PartialEq, Eq, Structural)]
pub enum CharType {
    Digit,
    Operator,
    Open,
    Close,
    Unsupported,
}

/// The class of a single byte: a whole one-byte character, the leading byte
/// of a multi-byte UTF-8 character (with the character's length), or a byte
/// that cannot start a character.
#[derive(Debug, Clone, Copy, PartialEq, Eq, Structural)]
pub enum ByteType {
    Char(CharType),
    InvalidUtf8,
    Utf8LeadingByte(usize),
}

/// Class of a byte that is not one of the significant ASCII characters.
pub open spec fn spec_generic_byte_type(byte: u8) -> ByteType {
    if byte <= 0x7f {
        ByteType::Char(CharType::Unsupported)
    } else if 0xc0 <= byte <= 0xdf {
        ByteType::Utf8LeadingByte(2)
    } else if 0xe0 <= byte <= 0xef {
        ByteType::Utf8LeadingByte(3)
    } else if 0xf0 <= byte <= 0xf7 {
        ByteType::Utf8LeadingByte(4)
    } else {
        ByteType::InvalidUtf8
    }
}

/// Class of a byte.
pub open spec fn spec_byte_type(byte: u8) -> ByteType {
    if byte == 43 || byte == 45 || byte == 42 || byte == 47 {
        ByteType::Char(CharType::Operator)
    } else if 48 <= byte <= 57 {
        ByteType::Char(CharType::Digit)
    } else if byte == 40 {
        ByteType::Char(CharType::Open)
    } else if byte == 41 {
        ByteType::Char(CharType::Close)
    } else {
        spec_generic_byte_type(byte)
    }
}

/// Whether a byte counts as a UTF-8 continuation byte (0x80 up to, but not
/// including, 0xBF).
pub open spec fn spec_is_utf8_cont(byte: u8) -> bool {
    0x80 <= byte < 0xbf
}

/// The `char_length - 1` bytes after `index` all exist and are continuation
/// bytes, and `index + char_length` is within the buffer.
pub open spec fn spec_valid_utf8_char(buffer: Seq<u8>, index: int, char_length: int) -> bool {
    &&& index + char_length <= buffer.len()
    &&& forall|k: int| 1 <= k < char_length ==> #[trigger] spec_is_utf8_cont(buffer[index + k])
}

/// The character at `index` with its length in bytes, or `None` where the
/// bytes there do not form a character.
pub open spec fn spec_peek_char(buffer: Seq<u8>, index: int) -> Option<(CharType, int)> {
    match spec_byte_type(buffer[index]) {
        ByteType::Char(char_type) => Some((char_type, 1)),
        ByteType::InvalidUtf8 => None,
        ByteType::Utf8LeadingByte(n) => if spec_valid_utf8_char(buffer, index, n as int) {
            Some((CharType::Unsupported, n as int))
        } else {
            None
        },
    }
}

/// End of the run of bytes of class `byte_type` that starts at `index`.
pub open spec fn same_type_run_end(buffer: Seq<u8>, index: int, byte_type: ByteType) -> int
    decreases buffer.len() - index,
{
    if 0 <= index < buffer.len() && spec_byte_type(buffer[index]) == byte_type {
        same_type_run_end(buffer, index + 1, byte_type)
    } else {
        index
    }
}

/// End of the run of unsupported characters (one or more bytes each) that
/// starts at `index`.
pub open spec fn unsupported_run_end(buffer: Seq<u8>, index: int) -> int
    decreases buffer.len() - index,
{
    if 0 <= index < buffer.len() {
        match spec_peek_char(buffer, index) {
            Some((CharType::Unsupported, n)) => if n > 0 {
                unsupported_run_end(buffer, index + n)
            } else {
                index
            },
            _ => index,
        }
    } else {
        index
    }
}

/// End of the run of bytes that do not start a character, from `index`.
pub open spec fn invalid_run_end(buffer: Seq<u8>, index: int) -> int
    decreases buffer.len() - index,
{
    if 0 <= index < buffer.len() && spec_peek_char(buffer, index) is None {
        invalid_run_end(buffer, index + 1)
    } else {
        index
    }
}

/// The symbol that starts at `index` and the index just past it; `None` at the
/// end of the buffer.
///
/// The length check of a multi-byte leading byte is made from the byte after
/// it, as the scanner does it.
pub open spec fn spec_next(buffer: Seq<u8>, index: int) -> Option<(Symbol, int)> {
    if index >= buffer.len() {
        None
    } else {
        let byte_type = spec_byte_type(buffer[index]);
        let after = index + 1;
        Some(
            match byte_type {
                ByteType::Char(CharType::Digit) => (
                    Symbol::Integer,
                    same_type_run_end(buffer, after, byte_type),
                ),
                ByteType::Char(CharType::Operator) => (
                    Symbol::Operator,
                    same_type_run_end(buffer, after, byte_type),
                ),
                ByteType::Char(CharType::Open) => (Symbol::Open, after),
                ByteType::Char(CharType::Close) => (Symbol::Close, after),
                ByteType::Char(CharType::Unsupported) => (
                    Symbol::UnsupportedCharacters,
                    unsupported_run_end(buffer, after),
                ),
                ByteType::InvalidUtf8 => (Symbol::InvalidUtf8Bytes, invalid_run_end(buffer, after)),
                ByteType::Utf8LeadingByte(n) => if spec_valid_utf8_char(buffer, after, n as int) {
                    (Symbol::UnsupportedCharacters, unsupported_run_end(buffer, after + n - 1))
                } else {
                    (Symbol::InvalidUtf8Bytes, invalid_run_end(buffer, after))
                },
            },
        )
    }
}

/// Whether whatever comes at `index` has an operand on its left: true at the
/// end of the buffer and everywhere but before a digit or an open parenthesis.
pub open spec fn spec_next_has_left_operand(buffer: Seq<u8>, index: int) -> bool {
    if index < buffer.len() {
        match spec_peek_char(buffer, index) {
            Some((CharType::Digit, _)) | Some((CharType::Open, _)) => false,
            _ => true,
        }
    } else {
        true
    }
}

/// The significant ASCII characters: '+', '-', '*' and '/' are operators,
/// '0' to '9' digits, '(' opens and ')' closes; every other ASCII byte is an
/// unsupported character.
pub proof fn lemma_ascii_byte_classes(byte: u8)
    ensures
        spec_byte_type(byte) == ByteType::Char(CharType::Operator) <==> (byte == '+' as u8 || byte
            == '-' as u8 || byte == '*' as u8 || byte == '/' as u8),
        spec_byte_type(byte) == ByteType::Char(CharType::Digit) <==> '0' as u8 <= byte <= '9' as u8,
        spec_byte_type(byte) == ByteType::Char(CharType::Open) <==> byte == '(' as u8,
        spec_byte_type(byte) == ByteType::Char(CharType::Close) <==> byte == ')' as u8,
        byte <= 0x7f ==> spec_byte_type(byte) is Char,
{
}

/// An operator character starts an `Operator` symbol, which runs over the
/// operator characters that follow it.
pub proof fn lemma_operator_characters_scan_as_operators(buffer: Seq<u8>, index: int)
    requires
        0 <= index < buffer.len(),
        buffer[index] == '+' as u8 || buffer[index] == '-' as u8 || buffer[index] == '*' as u8
            || buffer[index] == '/' as u8,
    ensures
        spec_next(buffer, index) matches Some((symbol, end)) && symbol == Symbol::Operator && index
            < end,
        forall|k: int|
            index <= k < spec_next(buffer, index).unwrap().1 ==> (#[trigger] buffer[k] == '+' as u8
                || buffer[k] == '-' as u8 || buffer[k] == '*' as u8 || buffer[k] == '/' as u8),
{
    lemma_ascii_byte_classes(buffer[index]);
    lemma_same_type_run_bounds(buffer, index + 1, ByteType::Char(CharType::Operator));
    lemma_same_type_run_is_maximal(buffer, index + 1, ByteType::Char(CharType::Operator));
    assert forall|k: int|
        index <= k < spec_next(buffer, index).unwrap().1 implies (#[trigger] buffer[k] == '+' as u8
        || buffer[k] == '-' as u8 || buffer[k] == '*' as u8 || buffer[k] == '/' as u8) by {
        lemma_ascii_byte_classes(buffer[k]);
    }
}

/// A leading byte announces a character of two to four bytes.
pub proof fn lemma_leading_length(byte: u8)
    ensures
        spec_byte_type(byte) matches ByteType::Utf8LeadingByte(n) ==> 2 <= n <= 4,
        spec_generic_byte_type(byte) matches ByteType::Utf8LeadingByte(n) ==> 2 <= n <= 4,
{
}

/// A character that `spec_peek_char` finds is at least one byte long and
/// lies within the buffer.
pub proof fn lemma_peek_char_length(buffer: Seq<u8>, index: int)
    requires
        0 <= index < buffer.len(),
    ensures
        spec_peek_char(buffer, index) matches Some((_, n)) ==> 1 <= n && index + n <= buffer.len(),
{
    lemma_leading_length(buffer[index]);
}

/// A run of one byte class stays within `[index, len]`.
pub proof fn lemma_same_type_run_bounds(buffer: Seq<u8>, index: int, byte_type: ByteType)
    requires
        0 <= index <= buffer.len(),
    ensures
        index <= same_type_run_end(buffer, index, byte_type) <= buffer.len(),
    decreases buffer.len() - index,
{
    if index < buffer.len() && spec_byte_type(buffer[index]) == byte_type {
        lemma_same_type_run_bounds(buffer, index + 1, byte_type);
    }
}

/// A run of unsupported characters stays within `[index, len]`.
pub proof fn lemma_unsupported_run_bounds(buffer: Seq<u8>, index: int)
    requires
        0 <= index <= buffer.len(),
    ensures
        index <= unsupported_run_end(buffer, index) <= buffer.len(),
    decreases buffer.len() - index,
{
    if index < buffer.len() {
        lemma_peek_char_length(buffer, index);
        if let Some((CharType::Unsupported, n)) = spec_peek_char(buffer, index) {
            lemma_unsupported_run_bounds(buffer, index + n);
        }
    }
}

/// A run of invalid bytes stays within `[index, len]`.
pub proof fn lemma_invalid_run_bounds(buffer: Seq<u8>, index: int)
    requires
        0 <= index <= buffer.len(),
    ensures
        index <= invalid_run_end(buffer, index) <= buffer.len(),
    decreases buffer.len() - index,
{
    if index < buffer.len() && spec_peek_char(buffer, index) is None {
        lemma_invalid_run_bounds(buffer, index + 1);
    }
}

/// Every symbol that `spec_next` finds is at least one byte long and ends
/// within the buffer, so scanning from 0 reaches the end.
pub proof fn lemma_next_progress(buffer: Seq<u8>, index: int)
    requires
        0 <= index,
    ensures
        spec_next(buffer, index) is None <==> index >= buffer.len(),
        spec_next(buffer, index) matches Some((_, end)) ==> index < end <= buffer.len(),
{
    if index < buffer.len() {
        let after = index + 1;
        lemma_leading_length(buffer[index]);
        lemma_same_type_run_bounds(buffer, after, spec_byte_type(buffer[index]));
        lemma_unsupported_run_bounds(buffer, after);
        lemma_invalid_run_bounds(buffer, after);
        if let ByteType::Utf8LeadingByte(n) = spec_byte_type(buffer[index]) {
            if spec_valid_utf8_char(buffer, after, n as int) {
                lemma_unsupported_run_bounds(buffer, after + n - 1);
            }
        }
    }
}

/// A run of one byte class holds only bytes of that class, and the byte
/// after it (if any) is of another class.
pub proof fn lemma_same_type_run_is_maximal(buffer: Seq<u8>, index: int, byte_type: ByteType)
    requires
        0 <= index <= buffer.len(),
    ensures
        forall|k: int|
            index <= k < same_type_run_end(buffer, index, byte_type) ==> spec_byte_type(
                #[trigger] buffer[k],
            ) == byte_type,
        same_type_run_end(buffer, index, byte_type) < buffer.len() ==> spec_byte_type(
            buffer[same_type_run_end(buffer, index, byte_type)],
        ) != byte_type,
    decreases buffer.len() - index,
{
    if index < buffer.len() && spec_byte_type(buffer[index]) == byte_type {
        lemma_same_type_run_is_maximal(buffer, index + 1, byte_type);
    }
}

/// An integer is a longest run of digits, and an operator a longest run of
/// operator characters: every byte of the symbol is of its class, and the
/// byte after it is not.
pub proof fn lemma_runs_are_maximal(buffer: Seq<u8>, index: int)
    requires
        0 <= index < buffer.len(),
    ensures
        spec_next(buffer, index) matches Some((symbol, end)) ==> (symbol == Symbol::Integer
            || symbol == Symbol::Operator) ==> {
            let class = if symbol == Symbol::Integer {
                CharType::Digit
            } else {
                CharType::Operator
            };
            &&& forall|k: int|
                index <= k < end ==> spec_byte_type(#[trigger] buffer[k]) == ByteType::Char(class)
            &&& end < buffer.len() ==> spec_byte_type(buffer[end]) != ByteType::Char(class)
        },
{
    lemma_same_type_run_is_maximal(buffer, index + 1, spec_byte_type(buffer[index]));
}

impl From<u8> for ByteType {
    fn from(byte: u8) -> (r: Self) {
        if byte == 43u8 || byte == 45u8 || byte == 42u8 || byte == 47u8 {
            ByteType::Char(CharType::Operator)
        } else if 48u8 <= byte && byte <= 57u8 {
            ByteType::Char(CharType::Digit)
        } else if byte == 40u8 {
            ByteType::Char(CharType::Open)
        } else if byte == 41u8 {
            ByteType::Char(CharType::Close)
        } else {
            ByteType::from_generic(byte)
        }
    }
}

impl vstd::std_specs::convert::FromSpecImpl<u8> for ByteType {
    open spec fn obeys_from_spec() -> bool {
        true
    }

    open spec fn from_spec(byte: u8) -> Self {
        spec_byte_type(byte)
    }
}

impl ByteType {
    /// Class of a byte that is not one of the significant ASCII characters.
    pub fn from_generic(byte: u8) -> (r: Self)
        ensures
            r == spec_generic_byte_type(byte),
    {
        if byte <= 0b0111_1111 {
            ByteType::Char(CharType::Unsupported)
        } else if 0b1100_0000 <= byte && byte <= 0b1101_1111 {
            ByteType::Utf8LeadingByte(2)
        } else if 0b1110_0000 <= byte && byte <= 0b1110_1111 {
            ByteType::Utf8LeadingByte(3)
        } else if 0b1111_0000 <= byte && byte <= 0b1111_0111 {
            ByteType::Utf8LeadingByte(4)
        } else {
            ByteType::InvalidUtf8
        }
    }

    /// Whether a byte is taken for a UTF-8 continuation byte.
    pub fn is_utf8_cont(byte: u8) -> (r: bool)
        ensures
            r == spec_is_utf8_cont(byte),
    {
        byte >= 0b1000_0000 && byte < 0b1011_1111
    }
}

fn byte_type_at(buffer: &[u8], index: usize) -> (r: ByteType)
    requires
        index < buffer@.len(),
    ensures
        r == spec_byte_type(buffer@[index as int]),
{
    ByteType::from(buffer[index])
}

/// Finds the symbol that starts at `index`, and the index just past it.
/// Returns `None` at (or past) the end of the buffer.
pub fn next(buffer: &[u8], index: usize) -> (r: Option<(Symbol, usize)>)
    ensures
        r is None <==> index >= buffer@.len(),
        r matches Some((symbol, end)) ==> {
            &&& spec_next(buffer@, index as int) == Some((symbol, end as int))
            &&& index < end <= buffer@.len()
        },
{
    if index >= buffer.len() {
        return None;
    }
    proof {
        lemma_next_progress(buffer@, index as int);
    }
    let byte_type = byte_type_at(buffer, index);
    let mut index = index + 1;
    let symbol = match byte_type {
        ByteType::Char(CharType::Digit) => {
            read_bytes_while(buffer, &mut index, byte_type);
            Symbol::Integer
        },
        ByteType::Char(CharType::Operator) => {
            read_bytes_while(buffer, &mut index, byte_type);
            Symbol::Operator
        },
        ByteType::Char(CharType::Open) => Symbol::Open,
        ByteType::Char(CharType::Close) => Symbol::Close,
        _ => unsupported_or_invalid_utf8(buffer, &mut index, byte_type),
    };
    Some((symbol, index))
}

/// Whether the symbol at `index` has a left operand: it does unless it is a
/// digit or an open parenthesis.
pub fn next_has_left_operand(buffer: &[u8], index: usize) -> (r: bool)
    ensures
        r == spec_next_has_left_operand(buffer@, index as int),
{
    if index < buffer.len() {
        match peek_char(buffer, index) {
            Some((CharType::Digit, _)) | Some((CharType::Open, _)) => false,
            _ => true,
        }
    } else {
        true
    }
}

fn unsupported_or_invalid_utf8(buffer: &[u8], index: &mut usize, byte_type: ByteType) -> (r:
    Symbol)
    requires
        1 <= *old(index) <= buffer@.len(),
        byte_type == spec_byte_type(buffer@[*old(index) - 1]),
        byte_type matches ByteType::Char(c) ==> c == CharType::Unsupported,
    ensures
        spec_next(buffer@, *old(index) - 1) == Some((r, *final(index) as int)),
{
    let ghost start = *index - 1;
    proof {
        lemma_leading_length(buffer@[start]);
    }
    match byte_type {
        ByteType::Char(_) => {
            read_many_unsupported(buffer, index);
            Symbol::UnsupportedCharacters
        },
        ByteType::InvalidUtf8 => {
            read_many_invalid_utf8(buffer, index);
            Symbol::InvalidUtf8Bytes
        },
        ByteType::Utf8LeadingByte(char_length) => {
            if is_valid_utf8_char(buffer, *index, char_length) {
                let len = buffer.len();
                assert(*index + char_length <= len);
                *index += char_length;
                *index -= 1;
                read_many_unsupported(buffer, index);
                Symbol::UnsupportedCharacters
            } else {
                read_many_invalid_utf8(buffer, index);
                Symbol::InvalidUtf8Bytes
            }
        },
    }
}

fn read_bytes_while(buffer: &[u8], index: &mut usize, byte_type: ByteType)
    requires
        *old(index) <= buffer@.len(),
    ensures
        *final(index) == same_type_run_end(buffer@, *old(index) as int, byte_type),
{
    while *index < buffer.len() && byte_type_at(buffer, *index) == byte_type
        invariant
            *index <= buffer@.len(),
            same_type_run_end(buffer@, *index as int, byte_type) == same_type_run_end(
                buffer@,
                *old(index) as int,
                byte_type,
            ),
        decreases buffer@.len() - *index,
    {
        *index += 1;
    }
}

fn read_many_unsupported(buffer: &[u8], index: &mut usize)
    requires
        *old(index) <= buffer@.len(),
    ensures
        *final(index) == unsupported_run_end(buffer@, *old(index) as int),
{
    let ghost start = *index as int;
    while *index < buffer.len()
        invariant
            *index <= buffer@.len(),
            unsupported_run_end(buffer@, *index as int) == unsupported_run_end(buffer@, start),
        ensures
            *index == unsupported_run_end(buffer@, start),
        decreases buffer@.len() - *index,
    {
        proof {
            lemma_peek_char_length(buffer@, *index as int);
        }
        if let Some((CharType::Unsupported, char_length)) = peek_char(buffer, *index) {
            *index += char_length;
        } else {
            break;
        }
    }
}

fn read_many_invalid_utf8(buffer: &[u8], index: &mut usize)
    requires
        *old(index) <= buffer@.len(),
    ensures
        *final(index) == invalid_run_end(buffer@, *old(index) as int),
{
    while *index < buffer.len() && peek_char(buffer, *index).is_none()
        invariant
            *index <= buffer@.len(),
            invalid_run_end(buffer@, *index as int) == invalid_run_end(buffer@, *old(index) as int),
        decreases buffer@.len() - *index,
    {
        *index += 1;
    }
}

fn peek_char(buffer: &[u8], index: usize) -> (r: Option<(CharType, usize)>)
    requires
        index < buffer@.len(),
    ensures
        match r {
            None => spec_peek_char(buffer@, index as int) is None,
            Some((c, n)) => spec_peek_char(buffer@, index as int) == Some((c, n as int)),
        },
{
    match byte_type_at(buffer, index) {
        ByteType::Char(char_type) => Some((char_type, 1)),
        ByteType::InvalidUtf8 => None,
        ByteType::Utf8LeadingByte(n) => {
            proof {
                lemma_leading_length(buffer@[index as int]);
            }
            peek_char_utf8_leading(buffer, index, n)
        },
    }
}

fn peek_char_utf8_leading(buffer: &[u8], index: usize, char_length: usize) -> (r: Option<
    (CharType, usize),
>)
    requires
        2 <= char_length <= 4,
    ensures
        r == (if spec_valid_utf8_char(buffer@, index as int, char_length as int) {
            Some((CharType::Unsupported, char_length))
        } else {
            None
        }),
{
    if is_valid_utf8_char(buffer, index, char_length) {
        Some((CharType::Unsupported, char_length))
    } else {
        None
    }
}

fn is_valid_utf8_char(buffer: &[u8], index: usize, char_length: usize) -> (r: bool)
    requires
        2 <= char_length <= 4,
    ensures
        r == spec_valid_utf8_char(buffer@, index as int, char_length as int),
{
    if index >= buffer.len() || char_length > buffer.len() - index {
        return false;
    }
    if char_length == 2 {
        let r = ByteType::is_utf8_cont(buffer[index + 1]);
        r
    } else if char_length == 3 {
        let r = ByteType::is_utf8_cont(buffer[index + 1]) && ByteType::is_utf8_cont(
            buffer[index + 2],
        );
        r
    } else {
        let r = ByteType::is_utf8_cont(buffer[index + 1]) && ByteType::is_utf8_cont(
            buffer[index + 2],
        ) && ByteType::is_utf8_cont(buffer[index + 3]);
        r
    }
}

} // verus!
