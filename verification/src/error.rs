//! Compiler errors: their codes, their kinds, and where they are reported.

use crate::index::{AstIndex, FieldIndex, IdentifierIndex, LiteralIndex, RawLiteralIndex};
use crate::syntax::{is_left_side, Fixity, OperandPosition};
use crate::block::BlockRef;
use crate::char_data::{placeable, spec_range, ByteRange, CharData, LineColumnRange};
use vstd::prelude::*;

verus! {

/// The code of each kind of error. Its number (see `code_number`) is what
/// users search for: 101-199 source errors, 201-299 format errors, 301-399
/// structure errors, 1001-1999 type errors.
#[derive(Debug, Clone, Copy, PartialEq, Eq, Structural)]
pub enum ErrorCode {
    SourceNotFound,
    IoOpenError,
    IoReadError,
    CurrentDirectoryError,
    SourceTooLarge,
    InvalidUtf8,
    UnsupportedCharacters,
    IdentifierStartsWithNumber,
    MissingOperand,
    AssignmentTargetMustBeIdentifier,
    RightSideOfDotMustBeIdentifier,
    OpenWithoutClose,
    CloseWithoutOpen,
    UnsupportedOperator,
    DivideByZero,
    BadType,
    NoSuchField,
    NoSuchPublicField,
    FieldNotSet,
    CircularDependency,
    PrivateField,
    ImmutableField,
}

/// Which part of an expression an error is reported against.
#[derive(Debug, Clone, Copy, PartialEq, Eq, Structural)]
pub enum ExpressionErrorPosition {
    Expression,
    ImmediateLeftOperand,
    LeftOperand,
    RightOperand,
}

/// The number of each error code.
pub open spec fn spec_code_number(code: ErrorCode) -> u32 {
    match code {
        ErrorCode::SourceNotFound => 101,
        ErrorCode::IoOpenError => 102,
        ErrorCode::IoReadError => 103,
        ErrorCode::CurrentDirectoryError => 104,
        ErrorCode::SourceTooLarge => 105,
        ErrorCode::InvalidUtf8 => 201,
        ErrorCode::UnsupportedCharacters => 202,
        ErrorCode::IdentifierStartsWithNumber => 203,
        ErrorCode::MissingOperand => 301,
        ErrorCode::AssignmentTargetMustBeIdentifier => 302,
        ErrorCode::RightSideOfDotMustBeIdentifier => 303,
        ErrorCode::OpenWithoutClose => 304,
        ErrorCode::CloseWithoutOpen => 305,
        ErrorCode::UnsupportedOperator => 1001,
        ErrorCode::DivideByZero => 1002,
        ErrorCode::BadType => 1003,
        ErrorCode::NoSuchField => 1004,
        ErrorCode::NoSuchPublicField => 1005,
        ErrorCode::FieldNotSet => 1006,
        ErrorCode::CircularDependency => 1007,
        ErrorCode::PrivateField => 1008,
        ErrorCode::ImmutableField => 1009,
    }
}

/// The name of each error code, as it is printed.
pub open spec fn spec_code_name(code: ErrorCode) -> Seq<char> {
    match code {
        ErrorCode::SourceNotFound => "SourceNotFound"@,
        ErrorCode::IoOpenError => "IoOpenError"@,
        ErrorCode::IoReadError => "IoReadError"@,
        ErrorCode::CurrentDirectoryError => "CurrentDirectoryError"@,
        ErrorCode::SourceTooLarge => "SourceTooLarge"@,
        ErrorCode::InvalidUtf8 => "InvalidUtf8"@,
        ErrorCode::UnsupportedCharacters => "UnsupportedCharacters"@,
        ErrorCode::IdentifierStartsWithNumber => "IdentifierStartsWithNumber"@,
        ErrorCode::MissingOperand => "MissingOperand"@,
        ErrorCode::AssignmentTargetMustBeIdentifier => "AssignmentTargetMustBeIdentifier"@,
        ErrorCode::RightSideOfDotMustBeIdentifier => "RightSideOfDotMustBeIdentifier"@,
        ErrorCode::OpenWithoutClose => "OpenWithoutClose"@,
        ErrorCode::CloseWithoutOpen => "CloseWithoutOpen"@,
        ErrorCode::UnsupportedOperator => "UnsupportedOperator"@,
        ErrorCode::DivideByZero => "DivideByZero"@,
        ErrorCode::BadType => "BadType"@,
        ErrorCode::NoSuchField => "NoSuchField"@,
        ErrorCode::NoSuchPublicField => "NoSuchPublicField"@,
        ErrorCode::FieldNotSet => "FieldNotSet"@,
        ErrorCode::CircularDependency => "CircularDependency"@,
        ErrorCode::PrivateField => "PrivateField"@,
        ErrorCode::ImmutableField => "ImmutableField"@,
    }
}

impl ErrorCode {
    /// The number users see for this code.
    pub fn code_number(&self) -> (r: u32)
        ensures
            r == spec_code_number(*self),
    {
        match self {
            ErrorCode::SourceNotFound => 101,
            ErrorCode::IoOpenError => 102,
            ErrorCode::IoReadError => 103,
            ErrorCode::CurrentDirectoryError => 104,
            ErrorCode::SourceTooLarge => 105,
            ErrorCode::InvalidUtf8 => 201,
            ErrorCode::UnsupportedCharacters => 202,
            ErrorCode::IdentifierStartsWithNumber => 203,
            ErrorCode::MissingOperand => 301,
            ErrorCode::AssignmentTargetMustBeIdentifier => 302,
            ErrorCode::RightSideOfDotMustBeIdentifier => 303,
            ErrorCode::OpenWithoutClose => 304,
            ErrorCode::CloseWithoutOpen => 305,
            ErrorCode::UnsupportedOperator => 1001,
            ErrorCode::DivideByZero => 1002,
            ErrorCode::BadType => 1003,
            ErrorCode::NoSuchField => 1004,
            ErrorCode::NoSuchPublicField => 1005,
            ErrorCode::FieldNotSet => 1006,
            ErrorCode::CircularDependency => 1007,
            ErrorCode::PrivateField => 1008,
            ErrorCode::ImmutableField => 1009,
        }
    }

    /// The name of the code, as it is printed.
    pub fn to_string(&self) -> (s: String)
        ensures
            s@ == spec_code_name(*self),
    {
        let name = match self {
            ErrorCode::SourceNotFound => "SourceNotFound",
            ErrorCode::IoOpenError => "IoOpenError",
            ErrorCode::IoReadError => "IoReadError",
            ErrorCode::CurrentDirectoryError => "CurrentDirectoryError",
            ErrorCode::SourceTooLarge => "SourceTooLarge",
            ErrorCode::InvalidUtf8 => "InvalidUtf8",
            ErrorCode::UnsupportedCharacters => "UnsupportedCharacters",
            ErrorCode::IdentifierStartsWithNumber => "IdentifierStartsWithNumber",
            ErrorCode::MissingOperand => "MissingOperand",
            ErrorCode::AssignmentTargetMustBeIdentifier => "AssignmentTargetMustBeIdentifier",
            ErrorCode::RightSideOfDotMustBeIdentifier => "RightSideOfDotMustBeIdentifier",
            ErrorCode::OpenWithoutClose => "OpenWithoutClose",
            ErrorCode::CloseWithoutOpen => "CloseWithoutOpen",
            ErrorCode::UnsupportedOperator => "UnsupportedOperator",
            ErrorCode::DivideByZero => "DivideByZero",
            ErrorCode::BadType => "BadType",
            ErrorCode::NoSuchField => "NoSuchField",
            ErrorCode::NoSuchPublicField => "NoSuchPublicField",
            ErrorCode::FieldNotSet => "FieldNotSet",
            ErrorCode::CircularDependency => "CircularDependency",
            ErrorCode::PrivateField => "PrivateField",
            ErrorCode::ImmutableField => "ImmutableField",
        };
        String::from_str(name)
    }
}

/// No two error codes share a number.
pub proof fn lemma_code_numbers_distinct(a: ErrorCode, b: ErrorCode)
    ensures
        spec_code_number(a) == spec_code_number(b) <==> a == b,
{
}

/// Error numbers are easy to search for: none is 100 or below, and none is
/// a multiple of 1000.
pub proof fn lemma_code_numbers_searchable(code: ErrorCode)
    ensures
        spec_code_number(code) > 100,
        spec_code_number(code) % 1000 != 0,
{
}

/// An error of the compiler or evaluator, without its location. `V` is the
/// type of the values that some errors carry.
#[derive(Debug, Clone, Copy)]
pub enum BergError<V> {
    /// The source file to be read could not be found.
    SourceNotFound,
    /// There was an I/O error opening the source file.
    IoOpenError,
    /// There was an I/O error reading the source file.
    IoReadError,
    /// There was an error determining the current directory.
    CurrentDirectoryError,
    /// A source file was more than 32 bits (4GB) long.
    SourceTooLarge(usize),
    InvalidUtf8(RawLiteralIndex),
    UnsupportedCharacters(LiteralIndex),
    IdentifierStartsWithNumber(LiteralIndex),
    MissingOperand,
    AssignmentTargetMustBeIdentifier,
    RightSideOfDotMustBeIdentifier,
    OpenWithoutClose,
    CloseWithoutOpen,
    UnsupportedOperator(V, Fixity, IdentifierIndex),
    DivideByZero,
    NoSuchField(FieldIndex),
    FieldNotSet(FieldIndex),
    CircularDependency,
    BadType(V, &'static str),
    BadOperandType(OperandPosition, V, &'static str),
    PrivateField(BlockRef, IdentifierIndex),
    NoSuchPublicField(BlockRef, IdentifierIndex),
    NoSuchPublicFieldOnValue(V, IdentifierIndex),
    NoSuchPublicFieldOnRoot(IdentifierIndex),
    ImmutableFieldOnRoot(FieldIndex),
}

/// The code of each kind of error.
pub open spec fn spec_error_code<V>(error: BergError<V>) -> ErrorCode {
    match error {
        BergError::SourceNotFound => ErrorCode::SourceNotFound,
        BergError::IoOpenError => ErrorCode::IoOpenError,
        BergError::IoReadError => ErrorCode::IoReadError,
        BergError::CurrentDirectoryError => ErrorCode::CurrentDirectoryError,
        BergError::SourceTooLarge(..) => ErrorCode::SourceTooLarge,
        BergError::InvalidUtf8(..) => ErrorCode::InvalidUtf8,
        BergError::UnsupportedCharacters(..) => ErrorCode::UnsupportedCharacters,
        BergError::IdentifierStartsWithNumber(..) => ErrorCode::IdentifierStartsWithNumber,
        BergError::MissingOperand => ErrorCode::MissingOperand,
        BergError::AssignmentTargetMustBeIdentifier => ErrorCode::AssignmentTargetMustBeIdentifier,
        BergError::RightSideOfDotMustBeIdentifier => ErrorCode::RightSideOfDotMustBeIdentifier,
        BergError::OpenWithoutClose => ErrorCode::OpenWithoutClose,
        BergError::CloseWithoutOpen => ErrorCode::CloseWithoutOpen,
        BergError::UnsupportedOperator(..) => ErrorCode::UnsupportedOperator,
        BergError::DivideByZero => ErrorCode::DivideByZero,
        BergError::NoSuchField(..) => ErrorCode::NoSuchField,
        BergError::NoSuchPublicField(..) => ErrorCode::NoSuchPublicField,
        BergError::NoSuchPublicFieldOnValue(..) => ErrorCode::NoSuchPublicField,
        BergError::NoSuchPublicFieldOnRoot(..) => ErrorCode::NoSuchPublicField,
        BergError::PrivateField(..) => ErrorCode::PrivateField,
        BergError::FieldNotSet(..) => ErrorCode::FieldNotSet,
        BergError::CircularDependency => ErrorCode::CircularDependency,
        BergError::ImmutableFieldOnRoot(..) => ErrorCode::ImmutableField,
        BergError::BadOperandType(..) => ErrorCode::BadType,
        BergError::BadType(..) => ErrorCode::BadType,
    }
}

/// A reference to the expression rooted at a token.
#[derive(Debug, Clone, Copy, PartialEq, Eq, Structural)]
pub struct ExpressionRef {
    pub root: AstIndex,
}

/// An error together with the expression it is reported against.
#[derive(Debug, Clone, Copy)]
pub struct Error<V> {
    pub error: BergError<V>,
    pub expression: ExpressionRef,
}

/// The result of evaluating something: a value or an error.
pub type BergResult<V> = Result<V, ErrorVal<V>>;

/// The error half of an evaluation result: either a located error, or an
/// error that still has to be placed at the current expression (or one of its
/// operands).
#[derive(Debug, Clone, Copy)]
pub enum ErrorVal<V> {
    Error(Error<V>),
    ExpressionError(BergError<V>, ExpressionErrorPosition),
}

impl<V> BergError<V> {
    /// The code of this error.
    pub fn code(&self) -> (r: ErrorCode)
        ensures
            r == spec_error_code(*self),
    {
        match self {
            BergError::SourceNotFound => ErrorCode::SourceNotFound,
            BergError::IoOpenError => ErrorCode::IoOpenError,
            BergError::IoReadError => ErrorCode::IoReadError,
            BergError::CurrentDirectoryError => ErrorCode::CurrentDirectoryError,
            BergError::SourceTooLarge(..) => ErrorCode::SourceTooLarge,
            BergError::InvalidUtf8(..) => ErrorCode::InvalidUtf8,
            BergError::UnsupportedCharacters(..) => ErrorCode::UnsupportedCharacters,
            BergError::IdentifierStartsWithNumber(..) => ErrorCode::IdentifierStartsWithNumber,
            BergError::MissingOperand => ErrorCode::MissingOperand,
            BergError::AssignmentTargetMustBeIdentifier => {
                ErrorCode::AssignmentTargetMustBeIdentifier
            },
            BergError::RightSideOfDotMustBeIdentifier => ErrorCode::RightSideOfDotMustBeIdentifier,
            BergError::OpenWithoutClose => ErrorCode::OpenWithoutClose,
            BergError::CloseWithoutOpen => ErrorCode::CloseWithoutOpen,
            BergError::UnsupportedOperator(..) => ErrorCode::UnsupportedOperator,
            BergError::DivideByZero => ErrorCode::DivideByZero,
            BergError::NoSuchField(..) => ErrorCode::NoSuchField,
            BergError::NoSuchPublicField(..)
            | BergError::NoSuchPublicFieldOnValue(..)
            | BergError::NoSuchPublicFieldOnRoot(..) => ErrorCode::NoSuchPublicField,
            BergError::PrivateField(..) => ErrorCode::PrivateField,
            BergError::FieldNotSet(..) => ErrorCode::FieldNotSet,
            BergError::CircularDependency => ErrorCode::CircularDependency,
            BergError::ImmutableFieldOnRoot(..) => ErrorCode::ImmutableField,
            BergError::BadOperandType(..) | BergError::BadType(..) => ErrorCode::BadType,
        }
    }

    /// Places this error at an expression.
    pub fn at_location(self, expression: ExpressionRef) -> (r: Error<V>)
        ensures
            r.error == self,
            r.expression == expression,
    {
        Error::new(self, expression)
    }

    /// This error, to be reported against the current expression.
    pub fn err<T>(self) -> (r: Result<T, ErrorVal<V>>)
        ensures
            r == Err::<T, ErrorVal<V>>(
                ErrorVal::ExpressionError(self, ExpressionErrorPosition::Expression),
            ),
    {
        Err(ErrorVal::ExpressionError(self, ExpressionErrorPosition::Expression))
    }

    /// This error, to be reported against an operand of the current expression.
    pub fn operand_err<T>(self, position: ExpressionErrorPosition) -> (r: Result<T, ErrorVal<V>>)
        ensures
            r == Err::<T, ErrorVal<V>>(ErrorVal::ExpressionError(self, position)),
    {
        Err(ErrorVal::ExpressionError(self, position))
    }
}

/// Where an error is shown.
#[derive(Debug, Clone, Copy, PartialEq, Eq, Structural)]
pub enum ErrorLocation {
    /// Not in any source.
    Generic,
    /// Somewhere in the source, with no particular place.
    SourceOnly,
    /// The whole expression rooted at a token.
    SourceExpression(AstIndex),
    /// A range of bytes.
    SourceRange(ByteRange),
}

/// The tokens related to the expression an error is placed at, as the
/// expression tree finds them: the root token of the expression, of its
/// parent, of its left and right operands, and its open and close tokens.
#[derive(Debug, Clone, Copy, PartialEq, Eq, Structural)]
pub struct ExpressionNeighbors {
    pub root: AstIndex,
    pub parent_root: AstIndex,
    pub left_root: AstIndex,
    pub right_root: AstIndex,
    pub open_operator: AstIndex,
    pub close_operator: AstIndex,
}

/// Where each kind of error is shown, given the expression's neighbors and the
/// byte ranges of the tokens.
pub open spec fn spec_location<V>(
    error: BergError<V>,
    expression: ExpressionRef,
    neighbors: ExpressionNeighbors,
    token_ranges: Seq<ByteRange>,
) -> ErrorLocation {
    match error {
        BergError::CurrentDirectoryError => ErrorLocation::Generic,
        BergError::SourceNotFound
        | BergError::IoOpenError
        | BergError::IoReadError
        | BergError::SourceTooLarge(..) => ErrorLocation::SourceOnly,
        BergError::MissingOperand => ErrorLocation::SourceRange(
            token_ranges[neighbors.parent_root.0 as int],
        ),
        BergError::UnsupportedOperator(..) => ErrorLocation::SourceRange(
            token_ranges[neighbors.root.0 as int],
        ),
        BergError::BadOperandType(position, ..) => if is_left_side(position) {
            ErrorLocation::SourceExpression(neighbors.left_root)
        } else {
            ErrorLocation::SourceExpression(neighbors.right_root)
        },
        BergError::DivideByZero
        | BergError::RightSideOfDotMustBeIdentifier => ErrorLocation::SourceExpression(
            neighbors.right_root,
        ),
        BergError::OpenWithoutClose => ErrorLocation::SourceRange(
            token_ranges[neighbors.open_operator.0 as int],
        ),
        BergError::CloseWithoutOpen => ErrorLocation::SourceRange(
            token_ranges[neighbors.close_operator.0 as int],
        ),
        _ => ErrorLocation::SourceExpression(expression.root),
    }
}

impl<V> Error<V> {
    pub fn new(error: BergError<V>, expression: ExpressionRef) -> (r: Self)
        ensures
            r.error == error,
            r.expression == expression,
    {
        Error { error, expression }
    }

    /// The code of the error.
    pub fn code(&self) -> (r: ErrorCode)
        ensures
            r == spec_error_code(self.error),
    {
        self.error.code()
    }

    /// The expression the error is placed at.
    pub fn expression(&self) -> (r: ExpressionRef)
        ensures
            r == self.expression,
    {
        self.expression
    }

    /// Where the error is shown: file errors in no place or the whole source,
    /// operator errors at the operator's token, operand errors at the operand,
    /// boundary errors at the unmatched open or close, and the rest at the
    /// expression itself.
    pub fn location(&self, neighbors: &ExpressionNeighbors, token_ranges: &Vec<ByteRange>) -> (r:
        ErrorLocation)
        requires
            neighbors.root == self.expression.root,
            neighbors.parent_root.0 < token_ranges@.len(),
            neighbors.root.0 < token_ranges@.len(),
            neighbors.open_operator.0 < token_ranges@.len(),
            neighbors.close_operator.0 < token_ranges@.len(),
        ensures
            r == spec_location(self.error, self.expression, *neighbors, token_ranges@),
    {
        match &self.error {
            BergError::CurrentDirectoryError => ErrorLocation::Generic,
            BergError::SourceNotFound
            | BergError::IoOpenError
            | BergError::IoReadError
            | BergError::SourceTooLarge(..) => ErrorLocation::SourceOnly,
            BergError::MissingOperand => {
                let range = token_ranges[neighbors.parent_root.0 as usize];
                ErrorLocation::SourceRange(range)
            },
            BergError::UnsupportedOperator(..) => {
                let range = token_ranges[neighbors.root.0 as usize];
                ErrorLocation::SourceRange(range)
            },
            BergError::BadOperandType(position, ..) => {
                if position.is_left() {
                    ErrorLocation::SourceExpression(neighbors.left_root)
                } else {
                    ErrorLocation::SourceExpression(neighbors.right_root)
                }
            },
            BergError::DivideByZero | BergError::RightSideOfDotMustBeIdentifier => {
                ErrorLocation::SourceExpression(neighbors.right_root)
            },
            BergError::OpenWithoutClose => {
                let range = token_ranges[neighbors.open_operator.0 as usize];
                ErrorLocation::SourceRange(range)
            },
            BergError::CloseWithoutOpen => {
                let range = token_ranges[neighbors.close_operator.0 as usize];
                ErrorLocation::SourceRange(range)
            },
            _ => ErrorLocation::SourceExpression(self.expression.root),
        }
    }
}

impl ErrorLocation {
    /// The bytes the location covers, given the byte range of the expression
    /// that a `SourceExpression` location names.
    pub fn byte_range(&self, expression_range: ByteRange) -> (r: ByteRange)
        requires
            !(*self is Generic),
            !(*self is SourceOnly),
        ensures
            r == (match *self {
                ErrorLocation::SourceRange(range) => range,
                _ => expression_range,
            }),
    {
        match self {
            ErrorLocation::SourceRange(range) => *range,
            _ => expression_range,
        }
    }

    /// The lines and columns the location covers, given the byte range of the
    /// expression that a `SourceExpression` location names.
    pub fn range(&self, expression_range: ByteRange, char_data: &CharData) -> (r: LineColumnRange)
        requires
            !(*self is Generic),
            !(*self is SourceOnly),
            char_data.wf(),
            placeable(
                match *self {
                    ErrorLocation::SourceRange(range) => range,
                    _ => expression_range,
                },
            ),
        ensures
            r == spec_range(
                char_data.line_starts@,
                match *self {
                    ErrorLocation::SourceRange(range) => range,
                    _ => expression_range,
                },
            ),
    {
        char_data.range(&self.byte_range(expression_range))
    }
}

} // verus!
