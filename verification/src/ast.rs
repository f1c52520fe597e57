//! The parsed form of a source: its tokens with their byte ranges, its
//! interned identifiers and literals, its blocks and its fields.

use crate::char_data::{ByteRange, CharData};
use crate::index::{AstIndex, FieldIndex, IdentifierIndex, LiteralIndex, RawLiteralIndex};
use crate::interner::{interned, interner_get_or_intern, interner_new, interner_resolve, Interner};
use crate::syntax::{AstBlock, Field};
use vstd::prelude::*;

verus! {

/// An index into the interned whitespace strings. It is stored as the index
/// plus one, so it is never zero.
#[derive(Debug, Clone, Copy, PartialEq, Eq, Structural)]
pub struct WhitespaceIndex(u32);

impl WhitespaceIndex {
    /// The stored value is never zero.
    pub closed spec fn wf(&self) -> bool {
        self.0 != 0
    }

    /// The index this stands for.
    pub closed spec fn value(&self) -> int {
        self.0 - 1
    }

    /// The whitespace index for position `val`, as a spec value.
    pub closed spec fn spec_from(val: usize) -> Self {
        WhitespaceIndex((val + 1) as u32)
    }

    /// The whitespace index for position `val`.
    pub fn from_usize(val: usize) -> (r: Self)
        requires
            val < u32::MAX,
        ensures
            r.wf(),
            r.value() == val,
            r == Self::spec_from(val),
    {
        WhitespaceIndex((val + 1) as u32)
    }

    /// The position this index stands for.
    pub fn to_usize(self) -> (r: usize)
        requires
            self.wf(),
        ensures
            r == self.value(),
    {
        (self.0 - 1) as usize
    }
}

/// Converting a position to a whitespace index and back gives the position,
/// and converting an index to its position and back gives the index.
pub proof fn lemma_whitespace_index_round_trip(val: usize, index: WhitespaceIndex)
    requires
        val < u32::MAX,
        index.wf(),
    ensures
        WhitespaceIndex::spec_from(val).wf(),
        WhitespaceIndex::spec_from(val).value() == val,
        0 <= index.value() < u32::MAX,
        WhitespaceIndex::spec_from(index.value() as usize) == index,
{
}

/// The parsed form of a source, with tokens of type `T`.
pub struct Ast<T> {
    pub char_data: CharData,
    pub identifiers: Interner,
    pub literals: Interner,
    pub raw_literals: Vec<Vec<u8>>,
    pub tokens: Vec<T>,
    pub token_ranges: Vec<ByteRange>,
    pub blocks: Vec<AstBlock>,
    pub fields: Vec<Field>,
}

/// Each token's range ends at or before the next one starts.
pub open spec fn ranges_in_order(ranges: Seq<ByteRange>) -> bool {
    forall|i: int| 0 <= i < ranges.len() - 1 ==> #[trigger] ranges[i].end <= ranges[i + 1].start
}

impl<T: Copy> Ast<T> {
    /// There is a range for each token, and the ranges come in source order.
    pub open spec fn wf(&self) -> bool {
        &&& self.tokens@.len() == self.token_ranges@.len()
        &&& self.tokens@.len() <= u32::MAX
        &&& ranges_in_order(self.token_ranges@)
        &&& self.char_data.wf()
    }

    /// An AST with no tokens, with the root's identifiers and a field for each
    /// of the root's field names.
    pub fn new(identifiers: Interner, root_field_names: &Vec<IdentifierIndex>) -> (r: Self)
        ensures
            r.wf(),
            interned(r.identifiers) == interned(identifiers),
            interned(r.literals).len() == 0,
            r.char_data.byte_length == 0,
            r.char_data.line_starts@ == seq![0usize],
            interned(r.char_data.whitespace_characters).len() == 0,
            r.char_data.whitespace_ranges@.len() == 0,
            r.tokens@.len() == 0,
            r.blocks@.len() == 0,
            r.raw_literals@.len() == 0,
            r.fields@.len() == root_field_names@.len(),
            forall|i: int|
                0 <= i < root_field_names@.len() ==> #[trigger] r.fields@[i].name
                    == root_field_names@[i],
    {
        let mut fields: Vec<Field> = Vec::new();
        let mut i: usize = 0;
        while i < root_field_names.len()
            invariant
                i <= root_field_names@.len(),
                fields@.len() == i,
                forall|k: int|
                    0 <= k < i ==> #[trigger] fields@[k].name == root_field_names@[k],
            decreases root_field_names@.len() - i,
        {
            fields.push(Field { name: root_field_names[i] });
            i += 1;
        }
        Ast {
            char_data: CharData::new(),
            identifiers,
            literals: interner_new(),
            raw_literals: Vec::new(),
            tokens: Vec::new(),
            token_ranges: Vec::new(),
            blocks: Vec::new(),
            fields,
        }
    }

    /// The token at `index`.
    pub fn token(&self, index: AstIndex) -> (r: T)
        requires
            index.0 < self.tokens@.len(),
        ensures
            r == self.tokens@[index.0 as int],
    {
        self.tokens[index.0 as usize]
    }

    /// The byte range of the token at `index`.
    pub fn token_range(&self, index: AstIndex) -> (r: ByteRange)
        requires
            index.0 < self.token_ranges@.len(),
        ensures
            r == self.token_ranges@[index.0 as int],
    {
        self.token_ranges[index.0 as usize]
    }

    /// The text of an identifier.
    pub fn identifier_string(&self, index: IdentifierIndex) -> (r: &str)
        requires
            index.0 < interned(self.identifiers).len(),
        ensures
            r@ == interned(self.identifiers)[index.0 as int],
    {
        interner_resolve(&self.identifiers, index.0 as usize).unwrap()
    }

    /// The text of a literal.
    pub fn literal_string(&self, index: LiteralIndex) -> (r: &str)
        requires
            index.0 < interned(self.literals).len(),
        ensures
            r@ == interned(self.literals)[index.0 as int],
    {
        interner_resolve(&self.literals, index.0 as usize).unwrap()
    }

    /// The bytes of a raw literal.
    pub fn raw_literal_string(&self, index: RawLiteralIndex) -> (r: &[u8])
        requires
            index.0 < self.raw_literals@.len(),
        ensures
            r@ == self.raw_literals@[index.0 as int]@,
    {
        self.raw_literals[index.0 as usize].as_slice()
    }

    /// The text of a run of whitespace.
    pub fn whitespace_string(&self, index: WhitespaceIndex) -> (r: &str)
        requires
            index.wf(),
            index.value() < interned(self.char_data.whitespace_characters).len(),
        ensures
            r@ == interned(self.char_data.whitespace_characters)[index.value()],
    {
        interner_resolve(&self.char_data.whitespace_characters, index.to_usize()).unwrap()
    }

    /// The name of a field.
    pub fn field_name(&self, index: FieldIndex) -> (r: &str)
        requires
            index.0 < self.fields@.len(),
            self.fields@[index.0 as int].name.0 < interned(self.identifiers).len(),
        ensures
            r@ == interned(self.identifiers)[self.fields@[index.0 as int].name.0 as int],
    {
        self.identifier_string(self.fields[index.0 as usize].name)
    }

    /// Adds a token after the last one. It must not start before the last
    /// token ends. Returns its index.
    pub fn push_token(&mut self, token: T, range: ByteRange) -> (r: AstIndex)
        requires
            old(self).wf(),
            old(self).tokens@.len() < u32::MAX,
            old(self).token_ranges@.len() > 0 ==> range.start >= old(
                self,
            ).token_ranges@.last().end,
        ensures
            final(self).wf(),
            r.0 == old(self).tokens@.len(),
            final(self).tokens@ == old(self).tokens@.push(token),
            final(self).token_ranges@ == old(self).token_ranges@.push(range),
            interned(final(self).identifiers) == interned(old(self).identifiers),
            interned(final(self).literals) == interned(old(self).literals),
            final(self).fields@ == old(self).fields@,
            final(self).raw_literals@ == old(self).raw_literals@,
            final(self).blocks@ == old(self).blocks@,
            final(self).char_data == old(self).char_data,
    {
        let index = AstIndex(self.tokens.len() as u32);
        self.tokens.push(token);
        self.token_ranges.push(range);
        index
    }

    /// Inserts a token at `index`. It must not start before the token before
    /// it ends, nor end after the token at `index` starts.
    pub fn insert_token(&mut self, index: AstIndex, token: T, range: ByteRange)
        requires
            old(self).wf(),
            old(self).tokens@.len() < u32::MAX,
            index.0 <= old(self).tokens@.len(),
            index.0 > 0 ==> range.start >= old(self).token_ranges@[index.0 - 1].end,
            index.0 < old(self).token_ranges@.len() ==> range.end <= old(
                self,
            ).token_ranges@[index.0 as int].start,
        ensures
            final(self).wf(),
            final(self).tokens@ == old(self).tokens@.insert(index.0 as int, token),
            final(self).token_ranges@ == old(self).token_ranges@.insert(index.0 as int, range),
            interned(final(self).identifiers) == interned(old(self).identifiers),
            interned(final(self).literals) == interned(old(self).literals),
            final(self).fields@ == old(self).fields@,
            final(self).raw_literals@ == old(self).raw_literals@,
            final(self).blocks@ == old(self).blocks@,
            final(self).char_data == old(self).char_data,
    {
        self.tokens.insert(index.0 as usize, token);
        self.token_ranges.insert(index.0 as usize, range);
        proof {
            let old_ranges = old(self).token_ranges@;
            let ranges = self.token_ranges@;
            let k = index.0 as int;
            assert forall|i: int| 0 <= i < ranges.len() - 1 implies #[trigger] ranges[i].end
                <= ranges[i + 1].start by {
                if i + 1 < k {
                    assert(ranges[i] == old_ranges[i]);
                    assert(ranges[i + 1] == old_ranges[i + 1]);
                } else if i + 1 == k {
                    assert(ranges[i] == old_ranges[i]);
                } else if i == k {
                    assert(ranges[i + 1] == old_ranges[i]);
                } else {
                    assert(ranges[i] == old_ranges[i - 1]);
                    assert(ranges[i + 1] == old_ranges[i]);
                }
            }
        }
    }

    /// The index the next pushed token will get.
    pub fn next_index(&self) -> (r: AstIndex)
        requires
            self.tokens@.len() <= u32::MAX,
        ensures
            r.0 == self.tokens@.len(),
    {
        AstIndex(self.tokens.len() as u32)
    }

    /// The index of identifier `string`, interning it if it is new.
    pub fn intern_identifier(&mut self, string: &str) -> (r: IdentifierIndex)
        requires
            interned(old(self).identifiers).len() < u32::MAX,
        ensures
            r.0 < interned(final(self).identifiers).len(),
            interned(final(self).identifiers)[r.0 as int] == string@,
            interned(old(self).identifiers).contains(string@) ==> interned(final(self).identifiers)
                == interned(old(self).identifiers),
            !interned(old(self).identifiers).contains(string@) ==> interned(
                final(self).identifiers,
            ) == interned(old(self).identifiers).push(string@),
            final(self).tokens@ == old(self).tokens@,
            final(self).token_ranges@ == old(self).token_ranges@,
            final(self).fields@ == old(self).fields@,
            interned(final(self).literals) == interned(old(self).literals),
            final(self).raw_literals@ == old(self).raw_literals@,
            final(self).blocks@ == old(self).blocks@,
            final(self).char_data == old(self).char_data,
    {
        let symbol = interner_get_or_intern(&mut self.identifiers, string);
        IdentifierIndex(symbol as u32)
    }

    /// The index of literal `string`, interning it if it is new.
    pub fn intern_literal(&mut self, string: &str) -> (r: LiteralIndex)
        requires
            interned(old(self).literals).len() < u32::MAX,
        ensures
            r.0 < interned(final(self).literals).len(),
            interned(final(self).literals)[r.0 as int] == string@,
            interned(old(self).literals).contains(string@) ==> interned(final(self).literals)
                == interned(old(self).literals),
            !interned(old(self).literals).contains(string@) ==> interned(final(self).literals)
                == interned(old(self).literals).push(string@),
            final(self).tokens@ == old(self).tokens@,
            final(self).token_ranges@ == old(self).token_ranges@,
            final(self).fields@ == old(self).fields@,
            interned(final(self).identifiers) == interned(old(self).identifiers),
            final(self).raw_literals@ == old(self).raw_literals@,
            final(self).blocks@ == old(self).blocks@,
            final(self).char_data == old(self).char_data,
    {
        let symbol = interner_get_or_intern(&mut self.literals, string);
        LiteralIndex(symbol as u32)
    }
}

} // verus!
