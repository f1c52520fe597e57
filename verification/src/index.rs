//! Typed indices into the parts of a parsed source.

use vstd::prelude::*;

verus! {

/// Index of a token in the AST.
#[derive(Debug, Clone, Copy, PartialEq, Eq, Hash, Structural)]
pub struct AstIndex(pub u32);

/// Index of a block in the AST.
#[derive(Debug, Clone, Copy, PartialEq, Eq, Hash, Structural)]
pub struct BlockIndex(pub u32);

/// Index of an interned identifier.
#[derive(Debug, Clone, Copy, PartialEq, Eq, Hash, Structural)]
pub struct IdentifierIndex(pub u32);

/// Index of an interned literal.
#[derive(Debug, Clone, Copy, PartialEq, Eq, Hash, Structural)]
pub struct LiteralIndex(pub u32);

/// Index of a raw (not UTF-8) literal.
#[derive(Debug, Clone, Copy, PartialEq, Eq, Hash, Structural)]
pub struct RawLiteralIndex(pub u32);

/// Index of a field declaration.
#[derive(Debug, Clone, Copy, PartialEq, Eq, Hash, Structural)]
pub struct FieldIndex(pub u32);

} // verus!
