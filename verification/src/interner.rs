//! The string interner of the `string-interner` crate, as the AST uses it:
//! with `usize` symbols, a symbol is the position of its string among the
//! interned strings.

use string_interner::StringInterner;
use vstd::prelude::*;

verus! {

/// A `string_interner::StringInterner` with `usize` symbols. Verus cannot
/// take that type's declaration here, so it is held in this opaque struct.
#[verifier::external_body]
#[derive(Debug)]
pub struct Interner {
    inner: StringInterner<usize>,
}

/// The strings in an interner, in the order they were interned; the symbol of
/// each is its position.
pub uninterp spec fn interned(interner: Interner) -> Seq<Seq<char>>;

/// `StringInterner::new`: an interner with no strings.
#[verifier::external_body]
pub(crate) fn interner_new() -> (r: Interner)
    ensures
        interned(r) == Seq::<Seq<char>>::empty(),
{
    Interner { inner: StringInterner::new() }
}

/// Interning `s` into the strings `before` gave symbol `r` and left `after`:
/// the symbol of `s` if it was there (nothing changes), else `s` is added at
/// the end and its symbol is its position.
pub open spec fn interning(before: Seq<Seq<char>>, s: Seq<char>, r: usize, after: Seq<Seq<char>>) -> bool {
    &&& before.contains(s) ==> {
        &&& r < before.len()
        &&& before[r as int] == s
        &&& after == before
    }
    &&& !before.contains(s) ==> {
        &&& r == before.len()
        &&& after == before.push(s)
    }
}

/// `StringInterner::get_or_intern`: the symbol of `s` if it is already
/// interned (nothing changes); otherwise `s` is added at the end and its
/// symbol is the former count of strings (`Symbol::from_usize` is the
/// identity for `usize`).
#[verifier::external_body]
pub(crate) fn interner_get_or_intern(interner: &mut Interner, s: &str) -> (r: usize)
    ensures
        interning(interned(*old(interner)), s@, r, interned(*final(interner))),
{
    interner.inner.get_or_intern(s)
}

/// Interning keeps the strings distinct.
pub proof fn lemma_interning_keeps_distinct(
    before: Seq<Seq<char>>,
    s: Seq<char>,
    r: usize,
    after: Seq<Seq<char>>,
)
    requires
        before.no_duplicates(),
        interning(before, s, r, after),
    ensures
        after.no_duplicates(),
        after[r as int] == s,
{
    if !before.contains(s) {
        assert forall|i: int, j: int|
            0 <= i < after.len() && 0 <= j < after.len() && i != j implies after[i] != after[j] by {
            if i == before.len() as int {
                assert(after[j] == before[j]);
            } else if j == before.len() as int {
                assert(after[i] == before[i]);
            } else {
                assert(after[i] == before[i] && after[j] == before[j]);
            }
        }
    }
}

/// Interning the same string twice gives the same symbol, and the second
/// time changes nothing.
pub proof fn lemma_interning_twice(
    before: Seq<Seq<char>>,
    s: Seq<char>,
    first: usize,
    middle: Seq<Seq<char>>,
    second: usize,
    after: Seq<Seq<char>>,
)
    requires
        before.no_duplicates(),
        interning(before, s, first, middle),
        interning(middle, s, second, after),
    ensures
        first == second,
        after == middle,
{
    lemma_interning_keeps_distinct(before, s, first, middle);
    assert(middle.contains(s)) by {
        assert(middle[first as int] == s);
    }
}

/// `StringInterner::resolve`: the string with symbol `symbol`, if there is one.
#[verifier::external_body]
pub(crate) fn interner_resolve<'a>(interner: &'a Interner, symbol: usize) -> (r: Option<
    &'a str,
>)
    ensures
        match r {
            Some(s) => symbol < interned(*interner).len() && s@ == interned(*interner)[symbol as int],
            None => symbol >= interned(*interner).len(),
        },
{
    interner.inner.resolve(symbol)
}

} // verus!
