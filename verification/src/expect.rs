//! Test expectations: a piece of Berg source under test.

use crate::char_data::{ByteIndex, ByteRange};
use crate::formatting::{lossy_text, utf8_lossy};
use vstd::prelude::*;
use vstd::string::StringSliceAdditionalSpecFns;

verus! {

/// The source text of a test.
#[derive(Debug, Clone, Copy)]
pub struct ExpectBerg<'a>(pub &'a [u8]);

/// A test of the source text `source`.
pub fn expect<'a>(source: &'a str) -> (r: ExpectBerg<'a>)
    ensures
        r.0@ == source.spec_bytes(),
{
    ExpectBerg(source.as_bytes())
}

/// A test of the source bytes `source`.
pub fn expect_bytes<'a>(source: &'a [u8]) -> (r: ExpectBerg<'a>)
    ensures
        r.0@ == source@,
{
    ExpectBerg(source)
}

impl<'a> ExpectBerg<'a> {
    /// Names the test in messages: "test '<source>'".
    pub fn to_string(&self) -> (r: String)
        ensures
            r@ == "test '"@ + lossy_text(self.0@) + "'"@,
    {
        let text = utf8_lossy(self.0);
        String::from_str("test '").concat(text.as_str()).concat("'")
    }
}


/// Where a test expects an error: one byte, or a range of two or more.
pub trait ExpectedErrorRange: Sized {
    /// The expectation can be turned into a range in a source of `len` bytes.
    spec fn error_range_ok(&self, len: ByteIndex) -> bool;

    /// The range expected.
    spec fn error_range(&self, len: ByteIndex) -> ByteRange;

    /// The range expected, in a source of `len` bytes.
    fn into_error_range(self, len: ByteIndex) -> (r: ByteRange)
        requires
            self.error_range_ok(len),
        ensures
            r == self.error_range(len),
    ;
}

impl ExpectedErrorRange for ByteIndex {
    open spec fn error_range_ok(&self, len: ByteIndex) -> bool {
        *self < usize::MAX
    }

    open spec fn error_range(&self, len: ByteIndex) -> ByteRange {
        ByteRange { start: *self, end: (*self + 1) as usize }
    }

    /// The byte at this index.
    fn into_error_range(self, len: ByteIndex) -> (r: ByteRange) {
        ByteRange { start: self, end: self + 1 }
    }
}

impl ExpectedErrorRange for ByteRange {
    open spec fn error_range_ok(&self, len: ByteIndex) -> bool {
        self.start + 1 != self.end
    }

    open spec fn error_range(&self, len: ByteIndex) -> ByteRange {
        *self
    }

    /// The range itself; a one-byte range is written as its index instead.
    fn into_error_range(self, len: ByteIndex) -> (r: ByteRange) {
        self
    }
}


/// A value a test can expect: one that compares with `==` and shows with
/// `{:?}`. Every such type is one.
pub trait ExpectedValue: PartialEq + core::fmt::Debug {
}

impl<V: PartialEq + core::fmt::Debug> ExpectedValue for V {
}

} // verus!
