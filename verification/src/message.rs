//! The text of each error, as it is shown to users.

use crate::ast::Ast;
use crate::error::{BergError, Error};
use crate::index::{FieldIndex, IdentifierIndex, LiteralIndex, RawLiteralIndex};
use crate::interner::interned;
use crate::syntax::{operand_position_text, OperandPosition};
use crate::text::{decimal, decimal_string};
use crate::formatting::{debug_quoted, debug_text};
use vstd::prelude::*;

verus! {

/// What a message needs that the error itself does not hold: the texts of
/// the source, of the expressions and tokens around the error (as the
/// expression tree prints them), and of the value the error carries.
pub struct MessageContext {
    /// The source's name.
    pub source_name: String,
    /// The source's absolute path, as `{:?}` prints it.
    pub absolute_path: String,
    /// The I/O error met opening or reading the source.
    pub io_error: String,
    /// The error met determining the current directory.
    pub root_path_error: String,
    /// The expression the error is placed at.
    pub expression: String,
    /// The token of that expression.
    pub token: String,
    /// The token of the expression's parent.
    pub parent_token: String,
    /// The open and close tokens of the expression's group.
    pub open_token: String,
    pub close_token: String,
    /// The open and close texts of the group's boundary.
    pub boundary_open: String,
    pub boundary_close: String,
    /// The expression's left and right operands.
    pub left_expression: String,
    pub right_expression: String,
    /// Which operand of its parent the expression is.
    pub operand_position: OperandPosition,
    /// The value (or block) the error carries, as it is displayed.
    pub value: String,
    /// The kind of operator, as it is displayed.
    pub fixity: String,
}

/// The texts of a message context.
pub struct ContextView {
    pub source_name: Seq<char>,
    pub absolute_path: Seq<char>,
    pub io_error: Seq<char>,
    pub root_path_error: Seq<char>,
    pub expression: Seq<char>,
    pub token: Seq<char>,
    pub parent_token: Seq<char>,
    pub open_token: Seq<char>,
    pub close_token: Seq<char>,
    pub boundary_open: Seq<char>,
    pub boundary_close: Seq<char>,
    pub left_expression: Seq<char>,
    pub right_expression: Seq<char>,
    pub operand_position: OperandPosition,
    pub value: Seq<char>,
    pub fixity: Seq<char>,
}

impl View for MessageContext {
    type V = ContextView;

    open spec fn view(&self) -> ContextView {
        ContextView {
            source_name: self.source_name@,
            absolute_path: self.absolute_path@,
            io_error: self.io_error@,
            root_path_error: self.root_path_error@,
            expression: self.expression@,
            token: self.token@,
            parent_token: self.parent_token@,
            open_token: self.open_token@,
            close_token: self.close_token@,
            boundary_open: self.boundary_open@,
            boundary_close: self.boundary_close@,
            left_expression: self.left_expression@,
            right_expression: self.right_expression@,
            operand_position: self.operand_position,
            value: self.value@,
            fixity: self.fixity@,
        }
    }
}

/// An upper-case hexadecimal digit.
pub open spec fn hex_digit(d: nat) -> char {
    if d < 10 {
        crate::text::digit_char(d)
    } else if d == 10 {
        'A'
    } else if d == 11 {
        'B'
    } else if d == 12 {
        'C'
    } else if d == 13 {
        'D'
    } else if d == 14 {
        'E'
    } else {
        'F'
    }
}

/// A byte as `{:2X}` prints it: upper-case hexadecimal, padded on the left
/// with a space to two characters.
pub open spec fn hex_byte(b: u8) -> Seq<char> {
    if b < 16 {
        seq![' ', hex_digit(b as nat)]
    } else {
        seq![hex_digit((b / 16) as nat), hex_digit((b % 16) as nat)]
    }
}

/// The bytes, each as `{:2X}` prints it, one after the other.
pub open spec fn hex_bytes(bytes: Seq<u8>) -> Seq<char>
    decreases bytes.len(),
{
    if bytes.len() == 0 {
        seq![]
    } else {
        hex_bytes(bytes.drop_last()) + hex_byte(bytes.last())
    }
}

/// The number of bytes of an invalid UTF-8 literal that a message shows.
pub open spec fn shown_bytes(len: nat) -> nat {
    if len < 12 {
        len
    } else {
        12
    }
}

/// The text of identifier `i` of `ast`.
pub open spec fn identifier_text<T>(ast: Ast<T>, i: IdentifierIndex) -> Seq<char> {
    interned(ast.identifiers)[i.0 as int]
}

/// The text of literal `i` of `ast`.
pub open spec fn literal_text<T>(ast: Ast<T>, i: LiteralIndex) -> Seq<char> {
    interned(ast.literals)[i.0 as int]
}

/// The name of field `i` of `ast`.
pub open spec fn field_text<T>(ast: Ast<T>, i: FieldIndex) -> Seq<char> {
    identifier_text(ast, ast.fields@[i.0 as int].name)
}

/// Whether the indices an error holds are valid in `ast`.
pub open spec fn error_indices_valid<V, T>(error: BergError<V>, ast: Ast<T>) -> bool {
    match error {
        BergError::InvalidUtf8(raw) => raw.0 < ast.raw_literals@.len(),
        BergError::UnsupportedCharacters(l) | BergError::IdentifierStartsWithNumber(l) => l.0
            < interned(ast.literals).len(),
        BergError::NoSuchField(f) | BergError::FieldNotSet(f) | BergError::ImmutableFieldOnRoot(f) => {
            &&& f.0 < ast.fields@.len()
            &&& ast.fields@[f.0 as int].name.0 < interned(ast.identifiers).len()
        },
        BergError::UnsupportedOperator(_, _, i)
        | BergError::NoSuchPublicField(_, i)
        | BergError::NoSuchPublicFieldOnValue(_, i)
        | BergError::NoSuchPublicFieldOnRoot(i)
        | BergError::PrivateField(_, i) => i.0 < interned(ast.identifiers).len(),
        _ => true,
    }
}

/// The message of each error.
pub open spec fn spec_message<V, T>(error: BergError<V>, c: ContextView, ast: Ast<T>) -> Seq<char> {
    match error {
        BergError::SourceNotFound => "I/O error getting current directory path "@ + c.absolute_path
            + " ("@ + c.source_name + "): "@ + c.io_error,
        BergError::IoOpenError => "I/O error opening "@ + c.absolute_path + " ("@ + c.source_name
            + "): "@ + c.io_error,
        BergError::IoReadError => "I/O error reading "@ + c.absolute_path + " ("@ + c.source_name
            + "): "@ + c.io_error,
        BergError::CurrentDirectoryError => "I/O error getting current directory to determine path of "@
            + debug_quoted(c.source_name) + ": "@ + c.root_path_error,
        BergError::SourceTooLarge(size) => "SourceRef file "@ + c.source_name + " too large ("@
            + decimal(size as nat) + " bytes): source files greater than 4GB are unsupported."@,
        BergError::InvalidUtf8(raw) => {
            let bytes = ast.raw_literals@[raw.0 as int]@;
            "Invalid UTF-8 bytes! Perhaps this isn't a Berg UTF-8 source file? Invalid bytes: '"@
                + hex_bytes(bytes.take(shown_bytes(bytes.len()) as int)) + "'"@
        },
        BergError::UnsupportedCharacters(literal) => "Unsupported Unicode characters! Perhaps this isn't a Berg source file? Unsupported characters: '"@
            + literal_text(ast, literal) + "'"@,
        BergError::OpenWithoutClose => "Open '"@ + c.open_token + "' found without a matching close '"@
            + c.boundary_close + "'."@,
        BergError::CloseWithoutOpen => "Close '"@ + c.close_token + "' found without a matching open '"@
            + c.boundary_open + "'."@,
        BergError::UnsupportedOperator(_, _, identifier) => "Unsupported "@ + c.fixity + " operator "@
            + identifier_text(ast, identifier) + " on value "@ + c.value,
        BergError::DivideByZero => "Division by zero is illegal. Perhaps you meant a different number on the right hand side of the '"@
            + c.token + "'?"@,
        BergError::NoSuchField(field) => "No such field: '"@ + field_text(ast, field) + "'"@,
        BergError::FieldNotSet(field) => "Field '"@ + field_text(ast, field)
            + "' was declared, but never set to a value!"@,
        BergError::NoSuchPublicField(_, name) => "No field '"@ + identifier_text(ast, name)
            + "' exists on '"@ + c.value + "'! Perhaps it's a misspelling?"@,
        BergError::NoSuchPublicFieldOnValue(_, name) => "No field '"@ + identifier_text(ast, name)
            + "' exists on '"@ + c.value + "'! Perhaps it's a misspelling?"@,
        BergError::NoSuchPublicFieldOnRoot(name) => "No field '"@ + identifier_text(ast, name)
            + "' exists on the root! Also, how did you manage to do '.' on the root?"@,
        BergError::PrivateField(_, name) => "Field '"@ + identifier_text(ast, name) + "' on '"@
            + c.value + "' is private and cannot be accessed with '.'! Perhaps you meant to declare the field with ':"@
            + identifier_text(ast, name) + "' instead of '"@ + identifier_text(ast, name) + "'?"@,
        BergError::ImmutableFieldOnRoot(field) => "'"@ + field_text(ast, field) + "' cannot be modified!"@,
        BergError::IdentifierStartsWithNumber(literal) => "Field names must start with letters or '_', but '"@
            + literal_text(ast, literal)
            + "' starts with a number! You may have mistyped the field name, or missed an operator?"@,
        BergError::CircularDependency => "Circular dependency at '"@ + c.expression + "'!"@,
        BergError::MissingOperand => "Operator "@ + c.parent_token + " has no value on "@
            + operand_position_text(c.operand_position) + " to operate on!"@,
        BergError::AssignmentTargetMustBeIdentifier => "The assignment operator '"@ + c.parent_token
            + "' must have a field declaration or name on "@ + operand_position_text(c.operand_position)
            + " (like \":foo "@ + c.parent_token + " ...\" or \"foo "@ + c.parent_token + " ...\": "@
            + operand_position_text(c.operand_position) + " is currently "@ + c.expression + "."@,
        BergError::RightSideOfDotMustBeIdentifier => "The field access operator '"@ + c.token
            + "' must have an identifier on the right side (like \""@ + c.left_expression
            + ".FieldName\"): currently it is '"@ + c.right_expression + "'."@,
        BergError::BadOperandType(position, _, expected) => "The value of '"@ + (if crate::syntax::is_left_side(
            position,
        ) {
            c.left_expression
        } else {
            c.right_expression
        }) + "' is "@ + c.value + ", but "@ + operand_position_text(position) + " '"@ + c.token
            + "' must be an "@ + expected@ + "!"@,
        BergError::BadType(_, expected) => "The value of '"@ + c.expression + "' is "@ + c.value
            + ", but we expected "@ + expected@ + "!"@,
    }
}

/// Appends `s` to `out`.
fn push_str(out: &mut String, s: &str)
    ensures
        final(out)@ == old(out)@ + s@,
{
    out.append(s);
}

fn hex_digit_string(d: u8) -> (s: String)
    requires
        d < 16,
    ensures
        s@ == seq![hex_digit(d as nat)],
{
    let lit = if d < 10 {
        return {
            let s = decimal_string(d as u64);
            assert(crate::text::decimal(d as nat) == seq![crate::text::digit_char(d as nat)]);
            s
        };
    } else if d == 10 {
        "A"
    } else if d == 11 {
        "B"
    } else if d == 12 {
        "C"
    } else if d == 13 {
        "D"
    } else if d == 14 {
        "E"
    } else {
        "F"
    };
    proof {
        reveal_strlit("A");
        reveal_strlit("B");
        reveal_strlit("C");
        reveal_strlit("D");
        reveal_strlit("E");
        reveal_strlit("F");
    }
    let s = String::from_str(lit);
    assert(s@ =~= seq![hex_digit(d as nat)]);
    s
}

/// A byte as `{:2X}` prints it.
pub fn hex_byte_string(b: u8) -> (s: String)
    ensures
        s@ == hex_byte(b),
{
    if b < 16 {
        proof {
            reveal_strlit(" ");
        }
        let s = String::from_str(" ").concat(hex_digit_string(b).as_str());
        assert(s@ =~= hex_byte(b));
        s
    } else {
        let s = hex_digit_string(b / 16).concat(hex_digit_string(b % 16).as_str());
        assert(s@ =~= hex_byte(b));
        s
    }
}

impl<V> Error<V> {
    /// The message shown for the error.
    pub fn message<T: Copy>(&self, context: &MessageContext, ast: &Ast<T>) -> (r: String)
        requires
            error_indices_valid(self.error, *ast),
        ensures
            r@ == spec_message(self.error, context@, *ast),
    {
        let c = context;
        let mut out = String::new();
        match &self.error {
            BergError::SourceNotFound => {
                push_str(&mut out, "I/O error getting current directory path ");
                push_str(&mut out, c.absolute_path.as_str());
                push_str(&mut out, " (");
                push_str(&mut out, c.source_name.as_str());
                push_str(&mut out, "): ");
                push_str(&mut out, c.io_error.as_str());
            },
            BergError::IoOpenError => {
                push_str(&mut out, "I/O error opening ");
                push_str(&mut out, c.absolute_path.as_str());
                push_str(&mut out, " (");
                push_str(&mut out, c.source_name.as_str());
                push_str(&mut out, "): ");
                push_str(&mut out, c.io_error.as_str());
            },
            BergError::IoReadError => {
                push_str(&mut out, "I/O error reading ");
                push_str(&mut out, c.absolute_path.as_str());
                push_str(&mut out, " (");
                push_str(&mut out, c.source_name.as_str());
                push_str(&mut out, "): ");
                push_str(&mut out, c.io_error.as_str());
            },
            BergError::CurrentDirectoryError => {
                push_str(&mut out, "I/O error getting current directory to determine path of ");
                push_str(&mut out, debug_text(c.source_name.as_str()).as_str());
                push_str(&mut out, ": ");
                push_str(&mut out, c.root_path_error.as_str());
            },
            BergError::SourceTooLarge(size) => {
                push_str(&mut out, "SourceRef file ");
                push_str(&mut out, c.source_name.as_str());
                push_str(&mut out, " too large (");
                push_str(&mut out, decimal_string(*size as u64).as_str());
                push_str(
                    &mut out,
                    " bytes): source files greater than 4GB are unsupported.",
                );
            },
            BergError::InvalidUtf8(raw_literal) => {
                push_str(
                    &mut out,
                    "Invalid UTF-8 bytes! Perhaps this isn't a Berg UTF-8 source file? Invalid bytes: '",
                );
                let bytes = ast.raw_literal_string(*raw_literal);
                let print_max = if bytes.len() < 12 {
                    bytes.len()
                } else {
                    12
                };
                let ghost prefix = out@;
                let mut i: usize = 0;
                while i < print_max
                    invariant
                        i <= print_max <= bytes@.len(),
                        out@ == prefix + hex_bytes(bytes@.take(i as int)),
                    decreases print_max - i,
                {
                    push_str(&mut out, hex_byte_string(bytes[i]).as_str());
                    assert(bytes@.take(i + 1).drop_last() =~= bytes@.take(i as int));
                    i += 1;
                }
                if print_max > 12 {
                    push_str(&mut out, "...");
                }
                push_str(&mut out, "'");
            },
            BergError::UnsupportedCharacters(literal) => {
                push_str(
                    &mut out,
                    "Unsupported Unicode characters! Perhaps this isn't a Berg source file? Unsupported characters: '",
                );
                push_str(&mut out, ast.literal_string(*literal));
                push_str(&mut out, "'");
            },
            BergError::OpenWithoutClose => {
                push_str(&mut out, "Open '");
                push_str(&mut out, c.open_token.as_str());
                push_str(&mut out, "' found without a matching close '");
                push_str(&mut out, c.boundary_close.as_str());
                push_str(&mut out, "'.");
            },
            BergError::CloseWithoutOpen => {
                push_str(&mut out, "Close '");
                push_str(&mut out, c.close_token.as_str());
                push_str(&mut out, "' found without a matching open '");
                push_str(&mut out, c.boundary_open.as_str());
                push_str(&mut out, "'.");
            },
            BergError::UnsupportedOperator(_, _, identifier) => {
                push_str(&mut out, "Unsupported ");
                push_str(&mut out, c.fixity.as_str());
                push_str(&mut out, " operator ");
                push_str(&mut out, ast.identifier_string(*identifier));
                push_str(&mut out, " on value ");
                push_str(&mut out, c.value.as_str());
            },
            BergError::DivideByZero => {
                push_str(
                    &mut out,
                    "Division by zero is illegal. Perhaps you meant a different number on the right hand side of the '",
                );
                push_str(&mut out, c.token.as_str());
                push_str(&mut out, "'?");
            },
            BergError::NoSuchField(field) => {
                push_str(&mut out, "No such field: '");
                push_str(&mut out, ast.field_name(*field));
                push_str(&mut out, "'");
            },
            BergError::FieldNotSet(field) => {
                push_str(&mut out, "Field '");
                push_str(&mut out, ast.field_name(*field));
                push_str(&mut out, "' was declared, but never set to a value!");
            },
            BergError::NoSuchPublicField(_, name) | BergError::NoSuchPublicFieldOnValue(_, name) => {
                push_str(&mut out, "No field '");
                push_str(&mut out, ast.identifier_string(*name));
                push_str(&mut out, "' exists on '");
                push_str(&mut out, c.value.as_str());
                push_str(&mut out, "'! Perhaps it's a misspelling?");
            },
            BergError::NoSuchPublicFieldOnRoot(name) => {
                push_str(&mut out, "No field '");
                push_str(&mut out, ast.identifier_string(*name));
                push_str(
                    &mut out,
                    "' exists on the root! Also, how did you manage to do '.' on the root?",
                );
            },
            BergError::PrivateField(_, name) => {
                let name = ast.identifier_string(*name);
                push_str(&mut out, "Field '");
                push_str(&mut out, name);
                push_str(&mut out, "' on '");
                push_str(&mut out, c.value.as_str());
                push_str(
                    &mut out,
                    "' is private and cannot be accessed with '.'! Perhaps you meant to declare the field with ':",
                );
                push_str(&mut out, name);
                push_str(&mut out, "' instead of '");
                push_str(&mut out, name);
                push_str(&mut out, "'?");
            },
            BergError::ImmutableFieldOnRoot(field) => {
                push_str(&mut out, "'");
                push_str(&mut out, ast.field_name(*field));
                push_str(&mut out, "' cannot be modified!");
            },
            BergError::IdentifierStartsWithNumber(literal) => {
                push_str(&mut out, "Field names must start with letters or '_', but '");
                push_str(&mut out, ast.literal_string(*literal));
                push_str(
                    &mut out,
                    "' starts with a number! You may have mistyped the field name, or missed an operator?",
                );
            },
            BergError::CircularDependency => {
                push_str(&mut out, "Circular dependency at '");
                push_str(&mut out, c.expression.as_str());
                push_str(&mut out, "'!");
            },
            BergError::MissingOperand => {
                push_str(&mut out, "Operator ");
                push_str(&mut out, c.parent_token.as_str());
                push_str(&mut out, " has no value on ");
                push_str(&mut out, c.operand_position.to_string().as_str());
                push_str(&mut out, " to operate on!");
            },
            BergError::AssignmentTargetMustBeIdentifier => {
                let position = c.operand_position.to_string();
                push_str(&mut out, "The assignment operator '");
                push_str(&mut out, c.parent_token.as_str());
                push_str(&mut out, "' must have a field declaration or name on ");
                push_str(&mut out, position.as_str());
                push_str(&mut out, " (like \":foo ");
                push_str(&mut out, c.parent_token.as_str());
                push_str(&mut out, " ...\" or \"foo ");
                push_str(&mut out, c.parent_token.as_str());
                push_str(&mut out, " ...\": ");
                push_str(&mut out, position.as_str());
                push_str(&mut out, " is currently ");
                push_str(&mut out, c.expression.as_str());
                push_str(&mut out, ".");
            },
            BergError::RightSideOfDotMustBeIdentifier => {
                push_str(&mut out, "The field access operator '");
                push_str(&mut out, c.token.as_str());
                push_str(&mut out, "' must have an identifier on the right side (like \"");
                push_str(&mut out, c.left_expression.as_str());
                push_str(&mut out, ".FieldName\"): currently it is '");
                push_str(&mut out, c.right_expression.as_str());
                push_str(&mut out, "'.");
            },
            BergError::BadOperandType(position, _, expected) => {
                push_str(&mut out, "The value of '");
                if position.is_left() {
                    push_str(&mut out, c.left_expression.as_str());
                } else {
                    push_str(&mut out, c.right_expression.as_str());
                }
                push_str(&mut out, "' is ");
                push_str(&mut out, c.value.as_str());
                push_str(&mut out, ", but ");
                push_str(&mut out, position.to_string().as_str());
                push_str(&mut out, " '");
                push_str(&mut out, c.token.as_str());
                push_str(&mut out, "' must be an ");
                push_str(&mut out, expected);
                push_str(&mut out, "!");
            },
            BergError::BadType(_, expected) => {
                push_str(&mut out, "The value of '");
                push_str(&mut out, c.expression.as_str());
                push_str(&mut out, "' is ");
                push_str(&mut out, c.value.as_str());
                push_str(&mut out, ", but we expected ");
                push_str(&mut out, expected);
                push_str(&mut out, "!");
            },
        }
        out
    }
}

/// A message never ends its list of invalid bytes with "...": at most
/// twelve bytes are shown, and the marker would need more.
pub proof fn lemma_invalid_bytes_shown(len: nat)
    ensures
        shown_bytes(len) <= 12,
        shown_bytes(len) <= len,
{
}

} // verus!
