//! Reads characters from a source and groups them into expressions: runs of
//! digits become integer literals; anything else is reported as unsupported.

use crate::char_data::ByteRange;
use crate::compile_errors::CompileError;
use crate::formatting;
use crate::syntax_expression::{SyntaxExpression, SyntaxExpressionType};
use vstd::prelude::*;

verus! {

/// The characters of a source, the index of the next one to read, and the
/// errors reported so far.
#[derive(Debug)]
pub struct CharReader {
    pub chars: Vec<char>,
    pub index: usize,
    pub errors: Vec<CompileError>,
}

/// Which characters a read takes.
#[derive(Debug, Clone, Copy, PartialEq, Eq, Structural)]
pub enum CharClass {
    Digit,
    Unsupported,
}

pub open spec fn spec_is_digit(ch: char) -> bool {
    '0' <= ch <= '9'
}

/// Whether `ch` belongs to `class`: digits are the only significant
/// characters, so everything else is unsupported.
pub open spec fn in_class(class: CharClass, ch: char) -> bool {
    match class {
        CharClass::Digit => spec_is_digit(ch),
        CharClass::Unsupported => !spec_is_digit(ch),
    }
}

/// End of the run of characters of `class` that starts at `index`.
pub open spec fn class_run_end(chars: Seq<char>, index: int, class: CharClass) -> int
    decreases chars.len() - index,
{
    if 0 <= index < chars.len() && in_class(class, chars[index]) {
        class_run_end(chars, index + 1, class)
    } else {
        index
    }
}

pub proof fn lemma_class_run_end_bounds(chars: Seq<char>, index: int, class: CharClass)
    requires
        0 <= index <= chars.len(),
    ensures
        index <= class_run_end(chars, index, class) <= chars.len(),
        forall|k: int|
            index <= k < class_run_end(chars, index, class) ==> in_class(class, #[trigger] chars[k]),
    decreases chars.len() - index,
{
    if index < chars.len() && in_class(class, chars[index]) {
        lemma_class_run_end_bounds(chars, index + 1, class);
    }
}

/// A run ends at the end of the characters or at one outside its class.
pub proof fn lemma_class_run_end_stops(chars: Seq<char>, index: int, class: CharClass)
    requires
        0 <= index <= chars.len(),
    ensures
        class_run_end(chars, index, class) < chars.len() ==> !in_class(
            class,
            chars[class_run_end(chars, index, class)],
        ),
    decreases chars.len() - index,
{
    if index < chars.len() && in_class(class, chars[index]) {
        lemma_class_run_end_stops(chars, index + 1, class);
    }
}

/// The digits are the ten ASCII decimal digits, and nothing else.
pub proof fn lemma_digits_are_decimal(ch: char)
    ensures
        in_class(CharClass::Digit, ch) <==> (ch == '0' || ch == '1' || ch == '2' || ch == '3' || ch
            == '4' || ch == '5' || ch == '6' || ch == '7' || ch == '8' || ch == '9'),
        in_class(CharClass::Unsupported, ch) <==> !in_class(CharClass::Digit, ch),
{
}

/// A run of decimal digits is read whole: from its start, the digit run ends
/// exactly where the decimal digits do.
pub proof fn lemma_decimal_run_read_whole(chars: Seq<char>, start: int, end: int)
    requires
        0 <= start <= end <= chars.len(),
        forall|k: int| start <= k < end ==> '0' <= #[trigger] chars[k] <= '9',
        end < chars.len() ==> !('0' <= chars[end] <= '9'),
    ensures
        class_run_end(chars, start, CharClass::Digit) == end,
    decreases end - start,
{
    if start < end {
        lemma_digits_are_decimal(chars[start]);
        lemma_decimal_run_read_whole(chars, start + 1, end);
    } else if end < chars.len() {
        lemma_digits_are_decimal(chars[end]);
    }
}

/// What is left at `index` once the literals are read: the end, or a run of
/// unsupported characters, which is reported.
pub open spec fn rest_reported(
    chars: Seq<char>,
    index: int,
    final_index: int,
    errors: Seq<CompileError>,
    final_errors: Seq<CompileError>,
) -> bool {
    if index >= chars.len() {
        &&& final_index == index
        &&& final_errors == errors
    } else {
        let end = class_run_end(chars, index, CharClass::Unsupported);
        &&& final_index == end
        &&& final_errors.len() == errors.len() + 1
        &&& final_errors.drop_last() == errors
        &&& final_errors.last() matches CompileError::UnsupportedCharacters(range) && range == (
        ByteRange { start: index as usize, end: end as usize })
    }
}

impl CharReader {
    pub open spec fn wf(&self) -> bool {
        self.index <= self.chars@.len()
    }

    /// A reader at the start of `chars`, with no errors.
    pub fn new(chars: Vec<char>) -> (r: Self)
        ensures
            r.wf(),
            r.chars@ == chars@,
            r.index == 0,
            r.errors@.len() == 0,
    {
        CharReader { chars, index: 0, errors: Vec::new() }
    }

    /// The index of the next character.
    pub fn index(&self) -> (r: usize)
        ensures
            r == self.index,
    {
        self.index
    }

    /// The next character, if any, without reading it.
    pub fn peek(&self) -> (r: Option<char>)
        requires
            self.wf(),
        ensures
            r == (if self.index < self.chars@.len() {
                Some(self.chars@[self.index as int])
            } else {
                None
            }),
    {
        if self.index < self.chars.len() {
            Some(self.chars[self.index])
        } else {
            None
        }
    }

    /// Reads the next character if it belongs to `class`.
    pub fn read_if(&mut self, class: CharClass) -> (r: Option<char>)
        requires
            old(self).wf(),
        ensures
            final(self).wf(),
            final(self).chars@ == old(self).chars@,
            final(self).errors@ == old(self).errors@,
            if old(self).index < old(self).chars@.len() && in_class(
                class,
                old(self).chars@[old(self).index as int],
            ) {
                &&& r == Some(old(self).chars@[old(self).index as int])
                &&& final(self).index == old(self).index + 1
            } else {
                &&& r is None
                &&& final(self).index == old(self).index
            },
    {
        if self.index < self.chars.len() && is_in_class(class, self.chars[self.index]) {
            let ch = self.chars[self.index];
            self.index += 1;
            Some(ch)
        } else {
            None
        }
    }

    /// Reads characters while they belong to `class`, appending them to
    /// `buffer`; says whether it read any.
    pub fn read_while(&mut self, class: CharClass, buffer: &mut String) -> (r: bool)
        requires
            old(self).wf(),
        ensures
            final(self).wf(),
            final(self).chars@ == old(self).chars@,
            final(self).errors@ == old(self).errors@,
            final(self).index == class_run_end(old(self).chars@, old(self).index as int, class),
            final(buffer)@ == old(buffer)@ + old(self).chars@.subrange(
                old(self).index as int,
                final(self).index as int,
            ),
            r == (final(self).index > old(self).index),
    {
        let start = self.index;
        while self.index < self.chars.len() && is_in_class(class, self.chars[self.index])
            invariant
                start <= self.index <= self.chars@.len(),
                self.chars@ == old(self).chars@,
                self.errors@ == old(self).errors@,
                start == old(self).index,
                class_run_end(self.chars@, self.index as int, class) == class_run_end(
                    self.chars@,
                    start as int,
                    class,
                ),
                buffer@ == old(buffer)@ + self.chars@.subrange(start as int, self.index as int),
            decreases self.chars@.len() - self.index,
        {
            let ch = self.chars[self.index];
            buffer.push(ch);
            self.index += 1;
            assert(buffer@ =~= old(buffer)@ + self.chars@.subrange(start as int, self.index as int));
        }
        self.index > start
    }

    /// Records an error.
    pub fn report(&mut self, error: CompileError)
        ensures
            final(self).chars@ == old(self).chars@,
            final(self).index == old(self).index,
            final(self).errors@ == old(self).errors@.push(error),
    {
        self.errors.push(error);
    }
}

fn is_in_class(class: CharClass, ch: char) -> (r: bool)
    ensures
        r == in_class(class, ch),
{
    match class {
        CharClass::Digit => Tokenizer::is_digit(ch),
        CharClass::Unsupported => Tokenizer::is_unsupported(ch),
    }
}

/// Groups the characters of a reader into expressions.
#[derive(Debug)]
pub struct Tokenizer {
    pub reader: CharReader,
    pub start: usize,
    pub buffer: String,
    pub expressions: Vec<SyntaxExpression>,
}

impl Tokenizer {
    /// Between expressions, nothing is pending: the next expression starts at
    /// the reader's index and the buffer is empty.
    pub open spec fn wf(&self) -> bool {
        &&& self.reader.wf()
        &&& self.start == self.reader.index
        &&& self.buffer@.len() == 0
    }

    pub fn new(reader: CharReader) -> (r: Self)
        requires
            reader.wf(),
        ensures
            r.wf(),
            r.reader == reader,
            r.expressions@.len() == 0,
    {
        let start = reader.index();
        Tokenizer { reader, start, buffer: String::new(), expressions: Vec::new() }
    }

    /// Gives back the expressions found.
    pub fn close(self) -> (r: Vec<SyntaxExpression>)
        ensures
            r@ == self.expressions@,
    {
        self.expressions
    }

    /// Finds the next expression. A run of digits becomes an integer literal,
    /// and its index among the expressions is returned. At the end of the
    /// source, `None`. Otherwise the run of unsupported characters there is
    /// skipped and reported, and tokenizing stops (`None`).
    pub fn next(&mut self) -> (r: Option<usize>)
        requires
            old(self).wf(),
            old(self).expressions@.len() < usize::MAX,
        ensures
            final(self).wf(),
            final(self).reader.chars@ == old(self).reader.chars@,
            ({
                let chars = old(self).reader.chars@;
                let i = old(self).reader.index as int;
                if i < chars.len() && spec_is_digit(chars[i]) {
                    let end = class_run_end(chars, i, CharClass::Digit);
                    let e = final(self).expressions@.last();
                    &&& r == Some(old(self).expressions@.len() as usize)
                    &&& final(self).reader.index == end
                    &&& final(self).expressions@.drop_last() == old(self).expressions@
                    &&& final(self).expressions@.len() == old(self).expressions@.len() + 1
                    &&& e.expression_type == SyntaxExpressionType::IntegerLiteral
                    &&& e.string@ == chars.subrange(i, end)
                    &&& e.start == i
                    &&& final(self).reader.errors@ == old(self).reader.errors@
                } else if i >= chars.len() {
                    &&& r is None
                    &&& final(self).reader.index == i
                    &&& final(self).expressions@ == old(self).expressions@
                    &&& final(self).reader.errors@ == old(self).reader.errors@
                } else {
                    let end = class_run_end(chars, i, CharClass::Unsupported);
                    &&& r is None
                    &&& final(self).reader.index == end
                    &&& final(self).expressions@ == old(self).expressions@
                    &&& final(self).reader.errors@.len() == old(self).reader.errors@.len() + 1
                    &&& final(self).reader.errors@.drop_last() == old(self).reader.errors@
                    &&& final(self).reader.errors@.last() matches CompileError::UnsupportedCharacters(
                        range,
                    ) && range == (ByteRange { start: i as usize, end: end as usize })
                }
            }),
    {
        proof {
            lemma_class_run_end_bounds(self.reader.chars@, self.reader.index as int, CharClass::Digit);
            lemma_class_run_end_bounds(
                self.reader.chars@,
                self.reader.index as int,
                CharClass::Unsupported,
            );
        }
        let ghost chars = self.reader.chars@;
        let ghost i = self.reader.index as int;
        if self.read_if(CharClass::Digit) {
            assert(class_run_end(chars, i, CharClass::Digit) == class_run_end(
                chars,
                i + 1,
                CharClass::Digit,
            ));
            proof {
                lemma_class_run_end_bounds(chars, i + 1, CharClass::Digit);
            }
            let r = self.consume_while(SyntaxExpressionType::IntegerLiteral, CharClass::Digit);
            assert(seq![chars[i]] + chars.subrange(i + 1, self.reader.index as int) =~= chars.subrange(
                i,
                self.reader.index as int,
            ));
            r
        } else if self.reader.peek().is_none() {
            None
        } else {
            self.read_while(CharClass::Unsupported);
            let range = self.range();
            self.discard();
            self.report(CompileError::UnsupportedCharacters(range));
            None
        }
    }

    /// Tokenizes what is left of the source: the run of digits there, if any,
    /// becomes an integer literal; then tokenizing stops at the end of the
    /// source, or at the run of unsupported characters there, which is
    /// reported. (A run of digits ends at a character that is not a digit, so
    /// nothing more can be read after it.)
    pub fn tokenize(&mut self)
        requires
            old(self).wf(),
            old(self).expressions@.len() < usize::MAX - 1,
        ensures
            final(self).wf(),
            final(self).reader.chars@ == old(self).reader.chars@,
            ({
                let chars = old(self).reader.chars@;
                let i = old(self).reader.index as int;
                if i < chars.len() && spec_is_digit(chars[i]) {
                    let end = class_run_end(chars, i, CharClass::Digit);
                    let e = final(self).expressions@.last();
                    &&& final(self).expressions@.drop_last() == old(self).expressions@
                    &&& final(self).expressions@.len() == old(self).expressions@.len() + 1
                    &&& e.expression_type == SyntaxExpressionType::IntegerLiteral
                    &&& e.string@ == chars.subrange(i, end)
                    &&& e.start == i
                    &&& rest_reported(
                        chars,
                        end,
                        final(self).reader.index as int,
                        old(self).reader.errors@,
                        final(self).reader.errors@,
                    )
                } else {
                    &&& final(self).expressions@ == old(self).expressions@
                    &&& rest_reported(
                        chars,
                        i,
                        final(self).reader.index as int,
                        old(self).reader.errors@,
                        final(self).reader.errors@,
                    )
                }
            }),
    {
        let ghost chars = self.reader.chars@;
        let ghost i = self.reader.index as int;
        proof {
            lemma_class_run_end_stops(chars, i, CharClass::Digit);
            lemma_class_run_end_bounds(chars, i, CharClass::Digit);
        }
        if self.next().is_some() {
            self.next();
        }
    }

    /// The characters read since the current expression started.
    fn range(&self) -> (r: ByteRange)
        ensures
            r == (ByteRange { start: self.start, end: self.reader.index }),
    {
        ByteRange { start: self.start, end: self.reader.index() }
    }

    /// Whether `ch` is a decimal digit.
    pub fn is_digit(ch: char) -> (r: bool)
        ensures
            r == spec_is_digit(ch),
    {
        ch >= '0' && ch <= '9'
    }

    /// Whether `ch` means something: only digits do.
    pub fn is_significant(ch: char) -> (r: bool)
        ensures
            r == spec_is_digit(ch),
    {
        Self::is_digit(ch)
    }

    /// Whether `ch` is not supported: everything but digits.
    pub fn is_unsupported(ch: char) -> (r: bool)
        ensures
            r == !spec_is_digit(ch),
    {
        !Self::is_significant(ch)
    }

    fn read_if(&mut self, class: CharClass) -> (r: bool)
        requires
            old(self).reader.wf(),
        ensures
            final(self).reader.wf(),
            final(self).reader.chars@ == old(self).reader.chars@,
            final(self).reader.errors@ == old(self).reader.errors@,
            final(self).start == old(self).start,
            final(self).expressions@ == old(self).expressions@,
            if old(self).reader.index < old(self).reader.chars@.len() && in_class(
                class,
                old(self).reader.chars@[old(self).reader.index as int],
            ) {
                &&& r
                &&& final(self).reader.index == old(self).reader.index + 1
                &&& final(self).buffer@ == old(self).buffer@.push(
                    old(self).reader.chars@[old(self).reader.index as int],
                )
            } else {
                &&& !r
                &&& final(self).reader.index == old(self).reader.index
                &&& final(self).buffer@ == old(self).buffer@
            },
    {
        if let Some(ch) = self.reader.read_if(class) {
            self.buffer.push(ch);
            true
        } else {
            false
        }
    }

    fn read_while(&mut self, class: CharClass) -> (r: bool)
        requires
            old(self).reader.wf(),
        ensures
            final(self).reader.wf(),
            final(self).reader.chars@ == old(self).reader.chars@,
            final(self).reader.errors@ == old(self).reader.errors@,
            final(self).start == old(self).start,
            final(self).expressions@ == old(self).expressions@,
            final(self).reader.index == class_run_end(
                old(self).reader.chars@,
                old(self).reader.index as int,
                class,
            ),
            final(self).buffer@ == old(self).buffer@ + old(self).reader.chars@.subrange(
                old(self).reader.index as int,
                final(self).reader.index as int,
            ),
            r == (final(self).reader.index > old(self).reader.index),
    {
        self.reader.read_while(class, &mut self.buffer)
    }

    fn consume(&mut self, expression_type: SyntaxExpressionType) -> (r: Option<usize>)
        requires
            old(self).reader.wf(),
            old(self).expressions@.len() < usize::MAX,
        ensures
            final(self).reader == old(self).reader,
            final(self).buffer@.len() == 0,
            if old(self).buffer@.len() == 0 {
                &&& r is None
                &&& final(self).start == old(self).start
                &&& final(self).expressions@ == old(self).expressions@
            } else {
                &&& r == Some(old(self).expressions@.len() as usize)
                &&& final(self).start == old(self).reader.index
                &&& final(self).expressions@.drop_last() == old(self).expressions@
                &&& final(self).expressions@.len() == old(self).expressions@.len() + 1
                &&& final(self).expressions@.last().expression_type == expression_type
                &&& final(self).expressions@.last().string@ == old(self).buffer@
                &&& final(self).expressions@.last().start == old(self).start
            },
    {
        if self.buffer.as_str().is_empty() {
            return None;
        }
        let mut expression = SyntaxExpression {
            expression_type,
            string: String::new(),
            start: self.start,
        };
        std::mem::swap(&mut self.buffer, &mut expression.string);
        self.start = self.reader.index();
        self.expressions.push(expression);
        assert(final(self).expressions@.drop_last() =~= old(self).expressions@);
        Some(self.expressions.len() - 1)
    }

    fn consume_while(&mut self, expression_type: SyntaxExpressionType, class: CharClass) -> (r:
        Option<usize>)
        requires
            old(self).reader.wf(),
            old(self).expressions@.len() < usize::MAX,
            old(self).buffer@.len() > 0,
        ensures
            final(self).reader.wf(),
            final(self).reader.chars@ == old(self).reader.chars@,
            final(self).reader.errors@ == old(self).reader.errors@,
            final(self).reader.index == class_run_end(
                old(self).reader.chars@,
                old(self).reader.index as int,
                class,
            ),
            final(self).buffer@.len() == 0,
            final(self).start == final(self).reader.index,
            r == Some(old(self).expressions@.len() as usize),
            final(self).expressions@.drop_last() == old(self).expressions@,
            final(self).expressions@.len() == old(self).expressions@.len() + 1,
            final(self).expressions@.last().expression_type == expression_type,
            final(self).expressions@.last().string@ == old(self).buffer@
                + old(self).reader.chars@.subrange(
                old(self).reader.index as int,
                final(self).reader.index as int,
            ),
            final(self).expressions@.last().start == old(self).start,
    {
        self.read_while(class);
        self.consume(expression_type)
    }

    fn discard(&mut self)
        ensures
            final(self).reader == old(self).reader,
            final(self).expressions@ == old(self).expressions@,
            final(self).start == old(self).reader.index,
            final(self).buffer@.len() == 0,
    {
        self.start = self.reader.index();
        self.buffer = String::new();
    }

    fn report(&mut self, error: CompileError)
        ensures
            final(self).reader.chars@ == old(self).reader.chars@,
            final(self).reader.index == old(self).reader.index,
            final(self).reader.errors@ == old(self).reader.errors@.push(error),
            final(self).start == old(self).start,
            final(self).buffer@ == old(self).buffer@,
            final(self).expressions@ == old(self).expressions@,
    {
        self.reader.report(error);
    }
}

} // verus!
