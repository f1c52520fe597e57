//! Where each line of a source starts, and the translation of byte indices
//! into one-based line and column numbers.

use crate::ast::WhitespaceIndex;
use crate::interner::{interned, interner_get_or_intern, interner_new, Interner};
use crate::text::{decimal, decimal_string};
use vstd::prelude::*;

verus! {

/// A byte index into a source.
pub type ByteIndex = usize;

/// A half-open range of byte indices, `start..end`.
#[derive(Debug, Clone, Copy, PartialEq, Eq, Structural)]
pub struct ByteRange {
    pub start: ByteIndex,
    pub end: ByteIndex,
}

/// What is known of a source's characters: its length in bytes, the byte
/// index at which each line starts, and each run of whitespace (its text,
/// interned, and where it starts).
#[derive(Debug)]
pub struct CharData {
    pub byte_length: ByteIndex,
    pub line_starts: Vec<ByteIndex>,
    pub whitespace_characters: Interner,
    pub whitespace_ranges: Vec<(WhitespaceIndex, ByteIndex)>,
}

/// A one-based line and a one-based column (in bytes).
#[derive(Clone, Copy, Debug, PartialEq, Eq, Structural)]
pub struct LineColumn {
    pub line: u32,
    pub column: usize,
}

/// An inclusive range of positions; `end` is `None` for a zero-width range.
#[derive(Clone, Copy, Debug, PartialEq, Eq, Structural)]
pub struct LineColumnRange {
    pub start: LineColumn,
    pub end: Option<LineColumn>,
}

/// The line (one-based) that holds byte `index`: the last line whose start is
/// at or before `index`.
pub open spec fn is_line_of(line_starts: Seq<ByteIndex>, index: int, line: int) -> bool {
    &&& 1 <= line <= line_starts.len()
    &&& line_starts[line - 1] <= index
    &&& forall|k: int| line <= k < line_starts.len() ==> #[trigger] line_starts[k] > index
}

/// The line that holds byte `index`.
pub open spec fn line_of(line_starts: Seq<ByteIndex>, index: int) -> int {
    choose|line: int| is_line_of(line_starts, index, line)
}

/// The line and column of byte `index`.
pub open spec fn spec_location(line_starts: Seq<ByteIndex>, index: int) -> LineColumn {
    let line = line_of(line_starts, index);
    LineColumn { line: line as u32, column: (index + 1 - line_starts[line - 1]) as usize }
}

/// The positions of the first and last byte of `range`; zero-width when the
/// range is empty.
pub open spec fn spec_range(line_starts: Seq<ByteIndex>, range: ByteRange) -> LineColumnRange {
    LineColumnRange {
        start: spec_location(line_starts, range.start as int),
        end: if range.start == range.end {
            None
        } else {
            Some(spec_location(line_starts, range.end - 1))
        },
    }
}

/// A range that `CharData::range` can place: its start and last byte have
/// a following index.
pub open spec fn placeable(range: ByteRange) -> bool {
    &&& range.start < usize::MAX
    &&& range.start == range.end || 1 <= range.end < usize::MAX
}

/// Only one line holds a given byte.
pub proof fn lemma_line_unique(line_starts: Seq<ByteIndex>, index: int, a: int, b: int)
    requires
        is_line_of(line_starts, index, a),
        is_line_of(line_starts, index, b),
    ensures
        a == b,
{
    if a < b {
        assert(line_starts[b - 1] > index);
    } else if b < a {
        assert(line_starts[a - 1] > index);
    }
}

/// When lines start in increasing order, the byte at which line `k + 1`
/// starts is at that line, in column 1.
pub proof fn lemma_line_start_location(line_starts: Seq<ByteIndex>, k: int)
    requires
        0 <= k < line_starts.len() <= u32::MAX,
        forall|a: int, b: int| 0 <= a < b < line_starts.len() ==> line_starts[a] < line_starts[b],
    ensures
        spec_location(line_starts, line_starts[k] as int) == (LineColumn { line: (k + 1) as u32, column: 1 }),
{
    let index = line_starts[k] as int;
    assert(is_line_of(line_starts, index, k + 1));
    lemma_line_unique(line_starts, index, k + 1, line_of(line_starts, index));
}

impl CharData {
    /// The first line starts at byte 0.
    pub open spec fn wf(&self) -> bool {
        &&& self.line_starts@.len() >= 1
        &&& self.line_starts@[0] == 0
    }

    /// Character data of an empty source: one line, starting at 0, and no
    /// whitespace.
    pub fn new() -> (r: Self)
        ensures
            r.wf(),
            r.byte_length == 0,
            r.line_starts@ == seq![0usize],
            interned(r.whitespace_characters).len() == 0,
            r.whitespace_ranges@.len() == 0,
    {
        let mut line_starts = Vec::new();
        line_starts.push(0);
        CharData {
            byte_length: 0,
            line_starts,
            whitespace_characters: interner_new(),
            whitespace_ranges: Vec::new(),
        }
    }

    /// Records that the whitespace `whitespace` starts at `start`.
    pub fn append_whitespace(&mut self, whitespace: &str, start: ByteIndex)
        requires
            interned(old(self).whitespace_characters).len() < u32::MAX - 1,
        ensures
            ({
                let w = final(self).whitespace_ranges@.last().0;
                &&& w.wf()
                &&& w.value() < interned(final(self).whitespace_characters).len()
                &&& interned(final(self).whitespace_characters)[w.value()] == whitespace@
            }),
            final(self).whitespace_ranges@.len() == old(self).whitespace_ranges@.len() + 1,
            final(self).whitespace_ranges@.drop_last() == old(self).whitespace_ranges@,
            final(self).whitespace_ranges@.last().1 == start,
            interned(old(self).whitespace_characters).is_prefix_of(
                interned(final(self).whitespace_characters),
            ),
            final(self).line_starts@ == old(self).line_starts@,
            final(self).byte_length == old(self).byte_length,
    {
        let symbol = interner_get_or_intern(&mut self.whitespace_characters, whitespace);
        let index = WhitespaceIndex::from_usize(symbol);
        self.whitespace_ranges.push((index, start));
        assert(final(self).whitespace_ranges@.drop_last() =~= old(self).whitespace_ranges@);
    }

    /// Records that a new line starts at `line_start`.
    pub fn append_line(&mut self, line_start: ByteIndex)
        ensures
            final(self).line_starts@ == old(self).line_starts@.push(line_start),
            final(self).byte_length == old(self).byte_length,
            final(self).whitespace_ranges@ == old(self).whitespace_ranges@,
            interned(final(self).whitespace_characters) == interned(old(self).whitespace_characters),
            old(self).wf() ==> final(self).wf(),
    {
        self.line_starts.push(line_start);
    }

    /// The line and column of byte `index`.
    pub fn location(&self, index: ByteIndex) -> (r: LineColumn)
        requires
            self.wf(),
            index < usize::MAX,
        ensures
            is_line_of(self.line_starts@, index as int, line_of(self.line_starts@, index as int)),
            r == spec_location(self.line_starts@, index as int),
    {
        let mut line = self.line_starts.len();
        while self.line_starts[line - 1] > index
            invariant
                1 <= line <= self.line_starts@.len(),
                self.wf(),
                forall|k: int|
                    line <= k < self.line_starts@.len() ==> #[trigger] self.line_starts@[k] > index,
            decreases line,
        {
            line -= 1;
        }
        let column = index - self.line_starts[line - 1] + 1;
        proof {
            assert(is_line_of(self.line_starts@, index as int, line as int));
            lemma_line_unique(
                self.line_starts@,
                index as int,
                line as int,
                line_of(self.line_starts@, index as int),
            );
        }
        LineColumn { line: line as u32, column }
    }

    /// The positions of the first and last byte of `range`; zero-width when the
    /// range is empty.
    pub fn range(&self, range: &ByteRange) -> (r: LineColumnRange)
        requires
            self.wf(),
            placeable(*range),
        ensures
            r == spec_range(self.line_starts@, *range),
    {
        let start = self.location(range.start);
        if range.start == range.end {
            LineColumnRange { start, end: None }
        } else {
            let end = Some(self.location(range.end - 1));
            LineColumnRange { start, end }
        }
    }
}

impl Default for CharData {
    fn default() -> (r: Self)
        ensures
            r.wf(),
            r.byte_length == 0,
            r.line_starts@ == seq![0usize],
            interned(r.whitespace_characters).len() == 0,
            r.whitespace_ranges@.len() == 0,
    {
        CharData::new()
    }
}

/// "line:column".
pub open spec fn line_column_text(position: LineColumn) -> Seq<char> {
    decimal(position.line as nat) + seq![':'] + decimal(position.column as nat)
}

/// How a range is printed: "l:c" for a one-character range, "l:c-c2" within
/// one line, "l:c-l2:c2" across lines, and "l:c<0>" when zero-width.
pub open spec fn line_column_range_text(range: LineColumnRange) -> Seq<char> {
    let start = range.start;
    match range.end {
        Some(end) => if start.line == end.line {
            if start.column == end.column {
                line_column_text(start)
            } else {
                line_column_text(start) + seq!['-'] + decimal(end.column as nat)
            }
        } else {
            line_column_text(start) + seq!['-'] + line_column_text(end)
        },
        None => line_column_text(start) + seq!['<', '0', '>'],
    }
}

fn colon() -> (s: String)
    ensures
        s@ == seq![':'],
{
    proof {
        reveal_strlit(":");
    }
    let s = String::from_str(":");
    assert(s@ =~= seq![':']);
    s
}

fn dash() -> (s: String)
    ensures
        s@ == seq!['-'],
{
    proof {
        reveal_strlit("-");
    }
    let s = String::from_str("-");
    assert(s@ =~= seq!['-']);
    s
}

impl LineColumn {
    pub fn new(line: u32, column: usize) -> (r: LineColumn)
        ensures
            r.line == line,
            r.column == column,
    {
        LineColumn { line, column }
    }

    /// Renders the position as "line:column".
    pub fn to_string(&self) -> (s: String)
        ensures
            s@ == line_column_text(*self),
    {
        let line = decimal_string(self.line as u64);
        let column = decimal_string(self.column as u64);
        let s = line.concat(colon().as_str()).concat(column.as_str());
        s
    }
}

impl LineColumnRange {
    /// The range from `start` to `end`, both inclusive.
    pub fn new(start: LineColumn, end: LineColumn) -> (r: LineColumnRange)
        ensures
            r.start == start,
            r.end == Some(end),
    {
        LineColumnRange { start, end: Some(end) }
    }

    /// The empty range at `start`.
    pub fn zero_width(start: LineColumn) -> (r: LineColumnRange)
        ensures
            r.start == start,
            r.end is None,
    {
        LineColumnRange { start, end: None }
    }

    /// Renders the range as the compiler prints it in messages.
    pub fn to_string(&self) -> (s: String)
        ensures
            s@ == line_column_range_text(*self),
    {
        let start = self.start.to_string();
        match self.end {
            Some(end) => {
                if self.start.line == end.line {
                    if self.start.column == end.column {
                        start
                    } else {
                        let column = decimal_string(end.column as u64);
                        start.concat(dash().as_str()).concat(column.as_str())
                    }
                } else {
                    start.concat(dash().as_str()).concat(end.to_string().as_str())
                }
            },
            None => {
                proof {
                    reveal_strlit("<0>");
                }
                let s = start.concat("<0>");
                assert(s@ =~= line_column_text(self.start) + seq!['<', '0', '>']);
                s
            },
        }
    }
}


/// How a position shows with `{:?}`.
pub open spec fn line_column_debug_text(position: LineColumn) -> Seq<char> {
    "LineColumn { line: "@ + decimal(position.line as nat) + ", column: "@ + decimal(
        position.column as nat,
    ) + " }"@
}

/// The first and last positions of a range that may be missing, as the
/// report writes them: `{:?}` of `start..end`. A zero-width range ends where
/// it starts, and a missing one shows as line 0, column 0, the position that
/// stands for none.
pub open spec fn span_debug_text(range: Option<LineColumnRange>) -> Seq<char> {
    match range {
        Some(r) => line_column_debug_text(r.start) + ".."@ + line_column_debug_text(
            match r.end {
                Some(end) => end,
                None => r.start,
            },
        ),
        None => line_column_debug_text(LineColumn { line: 0, column: 0 }) + ".."@
            + line_column_debug_text(LineColumn { line: 0, column: 0 }),
    }
}

impl LineColumn {
    /// The position as `{:?}` writes it.
    pub fn debug_text(&self) -> (s: String)
        ensures
            s@ == line_column_debug_text(*self),
    {
        String::from_str("LineColumn { line: ").concat(decimal_string(self.line as u64).as_str()).concat(
            ", column: ",
        ).concat(decimal_string(self.column as u64).as_str()).concat(" }")
    }
}

/// A range that may be missing, as `{:?}` of `start..end` writes it.
pub fn span_debug(range: Option<LineColumnRange>) -> (s: String)
    ensures
        s@ == span_debug_text(range),
{
    let (start, end) = match range {
        Some(r) => (
            r.start,
            match r.end {
                Some(end) => end,
                None => r.start,
            },
        ),
        None => (LineColumn { line: 0, column: 0 }, LineColumn { line: 0, column: 0 }),
    };
    start.debug_text().concat("..").concat(end.debug_text().as_str())
}


/// The line starts of the first `n` characters of a text: 0, then the index
/// after each line feed.
pub open spec fn text_line_starts(chars: Seq<char>, n: int) -> Seq<ByteIndex>
    decreases n,
{
    if n <= 0 {
        seq![0usize]
    } else if chars[n - 1] == '\n' {
        text_line_starts(chars, n - 1).push(n as usize)
    } else {
        text_line_starts(chars, n - 1)
    }
}

impl CharData {
    /// Character data of a text indexed by character: its length, and a line
    /// start after each line feed. There is no whitespace data.
    pub fn from_chars(chars: &[char]) -> (r: CharData)
        ensures
            r.wf(),
            r.byte_length == chars@.len(),
            r.line_starts@ == text_line_starts(chars@, chars@.len() as int),
            r.whitespace_ranges@.len() == 0,
    {
        let mut data = CharData::new();
        let mut i: usize = 0;
        while i < chars.len()
            invariant
                i <= chars@.len(),
                data.wf(),
                data.line_starts@ == text_line_starts(chars@, i as int),
                data.whitespace_ranges@.len() == 0,
            decreases chars@.len() - i,
        {
            if chars[i] == '\n' {
                data.append_line(i + 1);
            }
            i += 1;
        }
        data.byte_length = chars.len();
        data
    }
}

} // verus!
