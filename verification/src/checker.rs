//! The type checker: computes the type (and, for constants, the value) of
//! each expression, reporting errors as it goes. The expression walker calls
//! the `visit_*` functions bottom-up with the operands' types.
//!
//! Each function is stated as a function of the checker's state (`CheckView`):
//! the type it gives and the state it leaves.

use crate::ast::Ast;
use crate::char_data::ByteRange;
use crate::identifiers::{
    AND_AND, COLON, DASH, DASH_DASH, EMPTY_STRING, EQUAL_TO, FALSE, GREATER_EQUAL, GREATER_THAN,
    LESS_EQUAL, LESS_THAN, NOT, NOT_EQUAL_TO, OR_OR, PLUS, PLUS_PLUS, SEMICOLON, SLASH, STAR, TRUE,
};
use crate::index::{AstIndex, IdentifierIndex, LiteralIndex};
use crate::interner::interned;
use crate::rational::{
    digits_value, is_digits, one_texts, rational_add, rational_div, rational_eq, rational_from_str,
    rational_ge, rational_gt, rational_is_integer, rational_is_zero, rational_le, rational_lt,
    rational_mul, rational_neg, rational_one, rational_sub, spec_difference, spec_negation,
    spec_product, spec_quotient, spec_rational_eq, spec_rational_lt, spec_sum, text_value,
    texts_wf, value_texts, lemma_integer_plus, lemma_arithmetic_exact, same_fraction, Rational,
};
use crate::syntax::Fixity;
use fnv::FnvHashMap;
use vstd::prelude::*;

verus! {

/// Index of a source among those being compiled.
#[derive(Debug, Clone, Copy, PartialEq, Eq, Structural)]
pub struct SourceIndex(pub u32);

/// Index of a rational among the checker's rationals.
#[derive(Debug, Clone, Copy, PartialEq, Eq, Structural)]
pub struct RationalIndex(pub usize);

/// The type of an expression. Constants carry their value.
#[derive(Debug, Clone, Copy, PartialEq, Eq, Structural)]
pub enum Type {
    Rational(RationalIndex),
    Boolean(bool),
    Nothing,
    Missing,
    Error,
    Undefined { reference_source: SourceIndex, reference_index: AstIndex },
}

/// A token of the parsed source, as the checker sees it.
#[derive(Debug, Clone, Copy, PartialEq, Eq, Structural)]
pub enum Token {
    IntegerLiteral(LiteralIndex),
    PropertyReference(IdentifierIndex),
    SyntaxErrorTerm(LiteralIndex),
    MissingExpression,
    InfixOperator(IdentifierIndex),
    InfixAssignment(IdentifierIndex),
    NewlineSequence,
    MissingInfix,
    PrefixOperator(IdentifierIndex),
    PostfixOperator(IdentifierIndex),
}

/// A term token.
#[derive(Debug, Clone, Copy, PartialEq, Eq, Structural)]
pub enum TermToken {
    IntegerLiteral(LiteralIndex),
    PropertyReference(IdentifierIndex),
    SyntaxErrorTerm(LiteralIndex),
    MissingExpression,
}

/// An infix token.
#[derive(Debug, Clone, Copy, PartialEq, Eq, Structural)]
pub enum InfixToken {
    InfixOperator(IdentifierIndex),
    InfixAssignment(IdentifierIndex),
    NewlineSequence,
    MissingInfix,
}

/// An error the checker reports.
#[derive(Debug, Clone, Copy, PartialEq, Eq, Structural)]
pub enum CheckError {
    NoSuchProperty { source: SourceIndex, reference: ByteRange },
    MissingLeftOperand { source: SourceIndex, operator: ByteRange },
    MissingRightOperand { source: SourceIndex, operator: ByteRange },
    UnrecognizedOperator { source: SourceIndex, operator: ByteRange, fixity: Fixity },
    DivideByZero { source: SourceIndex, divide: ByteRange },
    PropertyNotSet { source: SourceIndex, reference: ByteRange },
    BadTypeLeftOperand { source: SourceIndex, operator: ByteRange, left: Type },
    BadTypeRightOperand { source: SourceIndex, operator: ByteRange, right: Type },
    LeftSideOfAssignmentMustBeIdentifier { source: SourceIndex, left: ByteRange, operator: ByteRange },
    LeftSideOfIncrementOrDecrementMustBeIdentifier {
        source: SourceIndex,
        left: ByteRange,
        operator: ByteRange,
    },
    RightSideOfIncrementOrDecrementMustBeIdentifier {
        source: SourceIndex,
        right: ByteRange,
        operator: ByteRange,
    },
}

/// The property values in scope, in an `fnv::FnvHashMap` keyed by
/// identifier index. Verus cannot take that map type here, so it is held in
/// this opaque struct.
#[verifier::external_body]
pub struct PropertyMap {
    map: FnvHashMap<u32, Type>,
}

/// What a property map holds.
pub uninterp spec fn properties(map: PropertyMap) -> Map<u32, Type>;

/// `FnvHashMap::default()`: an empty map.
#[verifier::external_body]
fn property_map_new() -> (r: PropertyMap)
    ensures
        properties(r) =~= Map::empty(),
{
    PropertyMap { map: FnvHashMap::default() }
}

/// `HashMap::get`: the value of `key`, if it has one.
#[verifier::external_body]
fn property_map_get(map: &PropertyMap, key: u32) -> (r: Option<Type>)
    ensures
        r == (if properties(*map).contains_key(key) {
            Some(properties(*map)[key])
        } else {
            None
        }),
{
    map.map.get(&key).copied()
}

/// `HashMap::insert`: `key` now has `value`.
#[verifier::external_body]
fn property_map_insert(map: &mut PropertyMap, key: u32, value: Type)
    ensures
        properties(*final(map)) == properties(*old(map)).insert(key, value),
{
    map.map.insert(key, value);
}

/// The properties in scope.
pub struct Scope {
    pub properties: PropertyMap,
}

impl Scope {
    /// A scope holding the keywords `true` and `false`.
    pub fn with_keywords() -> (r: Self)
        ensures
            properties(r.properties) =~= map![TRUE => Type::Boolean(true), FALSE => Type::Boolean(false)],
    {
        let mut scope = Scope { properties: property_map_new() };
        scope.set(IdentifierIndex(TRUE), Type::Boolean(true));
        scope.set(IdentifierIndex(FALSE), Type::Boolean(false));
        scope
    }

    /// The value of a property.
    pub fn get(&self, name: IdentifierIndex) -> (r: Option<Type>)
        ensures
            r == (if properties(self.properties).contains_key(name.0) {
                Some(properties(self.properties)[name.0])
            } else {
                None
            }),
    {
        property_map_get(&self.properties, name.0)
    }

    /// Gives a property a value.
    pub fn set(&mut self, name: IdentifierIndex, value: Type)
        ensures
            properties(final(self).properties) == properties(old(self).properties).insert(
                name.0,
                value,
            ),
    {
        property_map_insert(&mut self.properties, name.0, value);
    }
}

/// The checker's state: the rationals it made (as texts), the errors it
/// reported, and the properties in scope.
pub struct CheckView {
    pub source: SourceIndex,
    pub rationals: Seq<(Seq<char>, Seq<char>)>,
    pub errors: Seq<CheckError>,
    pub scope: Map<u32, Type>,
}

/// The checker.
pub struct Checker {
    pub source: SourceIndex,
    pub scope: Scope,
    pub rationals: Vec<Rational>,
    pub errors: Vec<CheckError>,
}

/// Operations on two numbers that give a number.
#[derive(Debug, Clone, Copy, PartialEq, Eq, Structural)]
pub enum NumericOperation {
    Add,
    Subtract,
    Multiply,
}

/// Comparisons of two numbers.
#[derive(Debug, Clone, Copy, PartialEq, Eq, Structural)]
pub enum Comparison {
    Greater,
    Less,
    GreaterOrEqual,
    LessOrEqual,
}

/// Operations on two booleans.
#[derive(Debug, Clone, Copy, PartialEq, Eq, Structural)]
pub enum BooleanOperation {
    And,
    Or,
}

/// Prefix operations on a number.
#[derive(Debug, Clone, Copy, PartialEq, Eq, Structural)]
pub enum NumericPrefix {
    Positive,
    Negative,
}

/// Adding or taking away one.
#[derive(Debug, Clone, Copy, PartialEq, Eq, Structural)]
pub enum Step {
    Increment,
    Decrement,
}

/// Which operand type a check accepts.
#[derive(Debug, Clone, Copy, PartialEq, Eq, Structural)]
pub enum OperandKind {
    Numeric,
    Boolean,
}

// ---------------------------------------------------------------------------
// The checker's behavior, as functions of its state.

/// A state with one more error.
pub open spec fn reported(st: CheckView, error: CheckError) -> CheckView {
    CheckView { errors: st.errors.push(error), ..st }
}

/// A state with one more rational, and the type that refers to it.
pub open spec fn with_rational(st: CheckView, texts: (Seq<char>, Seq<char>)) -> (Type, CheckView) {
    (
        Type::Rational(RationalIndex(st.rationals.len() as usize)),
        CheckView { rationals: st.rationals.push(texts), ..st },
    )
}

/// A state where `name` has `value`.
pub open spec fn with_property(st: CheckView, name: IdentifierIndex, value: Type) -> CheckView {
    CheckView { scope: st.scope.insert(name.0, value), ..st }
}

/// The texts of a rational of the state.
pub open spec fn texts_of(st: CheckView, index: RationalIndex) -> (Seq<char>, Seq<char>) {
    st.rationals[index.0 as int]
}

/// The report (if any) for an operand of a binary operator at `operator`.
pub open spec fn operand_report(
    st: CheckView,
    operand: Type,
    kind: OperandKind,
    is_left: bool,
    operator: ByteRange,
    ranges: Seq<ByteRange>,
) -> CheckView {
    let bad = if is_left {
        CheckError::BadTypeLeftOperand { source: st.source, operator, left: operand }
    } else {
        CheckError::BadTypeRightOperand { source: st.source, operator, right: operand }
    };
    match operand {
        Type::Error => st,
        Type::Rational(_) => if kind == OperandKind::Numeric {
            st
        } else {
            reported(st, bad)
        },
        Type::Boolean(_) => if kind == OperandKind::Boolean {
            st
        } else {
            reported(st, bad)
        },
        Type::Missing => reported(
            st,
            if is_left {
                CheckError::MissingLeftOperand { source: st.source, operator }
            } else {
                CheckError::MissingRightOperand { source: st.source, operator }
            },
        ),
        Type::Undefined { reference_source, reference_index } => reported(
            st,
            CheckError::PropertyNotSet {
                source: reference_source,
                reference: ranges[reference_index.0 as int],
            },
        ),
        Type::Nothing => reported(st, bad),
    }
}

/// The reports for both operands of the binary operator at `index`.
pub open spec fn binary_reports<T>(
    st: CheckView,
    left: Type,
    right: Type,
    kind: OperandKind,
    index: AstIndex,
    ast: Ast<T>,
) -> CheckView {
    let operator = ast.token_ranges@[index.0 as int];
    operand_report(
        operand_report(st, left, kind, true, operator, ast.token_ranges@),
        right,
        kind,
        false,
        operator,
        ast.token_ranges@,
    )
}

/// A numeric binary operation: the result when both operands are numbers,
/// an error otherwise.
pub open spec fn spec_numeric_binary<T>(
    st: CheckView,
    operation: NumericOperation,
    left: Type,
    right: Type,
    index: AstIndex,
    ast: Ast<T>,
) -> (Type, CheckView) {
    let after = binary_reports(st, left, right, OperandKind::Numeric, index, ast);
    match (left, right) {
        (Type::Rational(a), Type::Rational(b)) => with_rational(
            after,
            match operation {
                NumericOperation::Add => spec_sum(texts_of(st, a), texts_of(st, b)),
                NumericOperation::Subtract => spec_difference(texts_of(st, a), texts_of(st, b)),
                NumericOperation::Multiply => spec_product(texts_of(st, a), texts_of(st, b)),
            },
        ),
        _ => (Type::Error, after),
    }
}

/// Division: like the other numeric operations, but dividing by zero is
/// reported.
pub open spec fn spec_divide<T>(
    st: CheckView,
    left: Type,
    right: Type,
    index: AstIndex,
    ast: Ast<T>,
) -> (Type, CheckView) {
    let after = binary_reports(st, left, right, OperandKind::Numeric, index, ast);
    match (left, right) {
        (Type::Rational(a), Type::Rational(b)) => if text_value(texts_of(st, b)).0 == 0 {
            (
                Type::Error,
                reported(
                    after,
                    CheckError::DivideByZero {
                        source: st.source,
                        divide: ast.token_ranges@[index.0 as int],
                    },
                ),
            )
        } else {
            with_rational(after, spec_quotient(texts_of(st, a), texts_of(st, b)))
        },
        _ => (Type::Error, after),
    }
}

/// A comparison of two numbers.
pub open spec fn spec_numeric_comparison<T>(
    st: CheckView,
    comparison: Comparison,
    left: Type,
    right: Type,
    index: AstIndex,
    ast: Ast<T>,
) -> (Type, CheckView) {
    let after = binary_reports(st, left, right, OperandKind::Numeric, index, ast);
    match (left, right) {
        (Type::Rational(a), Type::Rational(b)) => {
            let (x, y) = (texts_of(st, a), texts_of(st, b));
            (
                Type::Boolean(
                    match comparison {
                        Comparison::Greater => spec_rational_lt(y, x),
                        Comparison::Less => spec_rational_lt(x, y),
                        Comparison::GreaterOrEqual => !spec_rational_lt(x, y),
                        Comparison::LessOrEqual => !spec_rational_lt(y, x),
                    },
                ),
                after,
            )
        },
        _ => (Type::Error, after),
    }
}

/// A boolean binary operation.
pub open spec fn spec_boolean_binary<T>(
    st: CheckView,
    operation: BooleanOperation,
    left: Type,
    right: Type,
    index: AstIndex,
    ast: Ast<T>,
) -> (Type, CheckView) {
    let after = binary_reports(st, left, right, OperandKind::Boolean, index, ast);
    match (left, right) {
        (Type::Boolean(a), Type::Boolean(b)) => (
            Type::Boolean(
                match operation {
                    BooleanOperation::And => a && b,
                    BooleanOperation::Or => a || b,
                },
            ),
            after,
        ),
        _ => (Type::Error, after),
    }
}

/// `==`: values of the same type compare by value; values of different
/// types are unequal; a missing operand is reported; an error stays an error.
pub open spec fn spec_equal_to<T>(
    st: CheckView,
    left: Type,
    right: Type,
    index: AstIndex,
    ast: Ast<T>,
) -> (Type, CheckView) {
    let operator = ast.token_ranges@[index.0 as int];
    let missing_left = CheckError::MissingLeftOperand { source: st.source, operator };
    let missing_right = CheckError::MissingRightOperand { source: st.source, operator };
    match (left, right) {
        (Type::Rational(a), Type::Rational(b)) => (
            Type::Boolean(spec_rational_eq(texts_of(st, a), texts_of(st, b))),
            st,
        ),
        (Type::Boolean(a), Type::Boolean(b)) => (Type::Boolean(a == b), st),
        (Type::Nothing, Type::Nothing) => (Type::Boolean(true), st),
        (Type::Undefined { .. }, Type::Undefined { .. }) => (Type::Boolean(true), st),
        (Type::Missing, Type::Missing) => (
            Type::Error,
            reported(reported(st, missing_left), missing_right),
        ),
        (Type::Missing, _) => (Type::Error, reported(st, missing_left)),
        (_, Type::Missing) => (Type::Error, reported(st, missing_right)),
        (Type::Error, _) => (Type::Error, st),
        (_, Type::Error) => (Type::Error, st),
        _ => (Type::Boolean(false), st),
    }
}

/// The report for the operand of the prefix or postfix operator at `index`
/// that is not of the accepted kind (a bad type is reported on the right for
/// prefix operators and on the left for postfix ones).
pub open spec fn unary_report<T>(
    st: CheckView,
    operand: Type,
    kind: OperandKind,
    is_postfix: bool,
    index: AstIndex,
    ast: Ast<T>,
) -> CheckView {
    let operator = ast.token_ranges@[index.0 as int];
    let bad = if is_postfix {
        CheckError::BadTypeLeftOperand { source: st.source, operator, left: operand }
    } else {
        CheckError::BadTypeRightOperand { source: st.source, operator, right: operand }
    };
    match operand {
        Type::Error => st,
        Type::Undefined { reference_source, reference_index } => reported(
            st,
            CheckError::PropertyNotSet {
                source: reference_source,
                reference: ast.token_ranges@[reference_index.0 as int],
            },
        ),
        Type::Rational(_) => if kind == OperandKind::Numeric {
            st
        } else {
            reported(st, bad)
        },
        Type::Boolean(_) => if kind == OperandKind::Boolean {
            st
        } else {
            reported(st, bad)
        },
        _ => reported(st, bad),
    }
}

/// `+x` (the number itself) and `-x` (its negation).
pub open spec fn spec_numeric_prefix<T>(
    st: CheckView,
    prefix: NumericPrefix,
    operand: Type,
    index: AstIndex,
    ast: Ast<T>,
) -> (Type, CheckView) {
    let after = unary_report(st, operand, OperandKind::Numeric, false, index, ast);
    match operand {
        Type::Rational(a) => match prefix {
            NumericPrefix::Positive => (Type::Rational(a), after),
            NumericPrefix::Negative => with_rational(after, spec_negation(texts_of(st, a))),
        },
        _ => (Type::Error, after),
    }
}

/// Adding or taking away one from an integer (a number that is not an
/// integer gives an error, unreported).
pub open spec fn spec_integer_step<T>(
    st: CheckView,
    step: Step,
    operand: Type,
    is_postfix: bool,
    index: AstIndex,
    ast: Ast<T>,
) -> (Type, CheckView) {
    let after = unary_report(st, operand, OperandKind::Numeric, is_postfix, index, ast);
    match operand {
        Type::Rational(a) => {
            let x = texts_of(st, a);
            if text_value(x).0 % text_value(x).1 == 0 {
                with_rational(
                    after,
                    match step {
                        Step::Increment => spec_sum(x, one_texts()),
                        Step::Decrement => spec_difference(x, one_texts()),
                    },
                )
            } else {
                (Type::Error, after)
            }
        },
        _ => (Type::Error, after),
    }
}

/// `!x`.
pub open spec fn spec_boolean_prefix<T>(st: CheckView, operand: Type, index: AstIndex, ast: Ast<T>) -> (
    Type,
    CheckView,
) {
    let after = unary_report(st, operand, OperandKind::Boolean, false, index, ast);
    match operand {
        Type::Boolean(b) => (Type::Boolean(!b), after),
        _ => (Type::Error, after),
    }
}

/// Whether the token at `index` is the prefix operator `operator`.
pub open spec fn is_prefix_operator(tokens: Seq<Token>, index: int, operator: u32) -> bool {
    0 <= index < tokens.len() && tokens[index] == Token::PrefixOperator(IdentifierIndex(operator))
}

/// Assigns `value` to the property at `property_index`: a property gets the
/// value (an undeclared one is reported) and the result is nothing; a missing
/// expression gives an error; anything else cannot be assigned (`None`).
pub open spec fn spec_assign_value(
    st: CheckView,
    value: Type,
    property_index: int,
    ast: Ast<Token>,
) -> (Option<Type>, CheckView) {
    match ast.tokens@[property_index] {
        Token::PropertyReference(name) => {
            let declared = st.scope.contains_key(name.0) || (property_index != 0
                && is_prefix_operator(ast.tokens@, property_index - 1, COLON));
            let after = if declared {
                st
            } else {
                reported(
                    st,
                    CheckError::NoSuchProperty {
                        source: st.source,
                        reference: ast.token_ranges@[property_index],
                    },
                )
            };
            (Some(Type::Nothing), with_property(after, name, value))
        },
        Token::MissingExpression => (Some(Type::Error), st),
        _ => (None, st),
    }
}

/// `a = value` for the assignment operator at `index`.
pub open spec fn spec_assign(st: CheckView, value: Type, index: AstIndex, ast: Ast<Token>) -> (
    Type,
    CheckView,
) {
    let (assigned, after) = spec_assign_value(st, value, index.0 - 1, ast);
    match assigned {
        Some(t) => (t, after),
        None => (
            Type::Error,
            reported(
                after,
                CheckError::LeftSideOfAssignmentMustBeIdentifier {
                    source: st.source,
                    left: ast.token_ranges@[index.0 - 1],
                    operator: ast.token_ranges@[index.0 as int],
                },
            ),
        ),
    }
}

/// `a++` / `a--` at `index`.
pub open spec fn spec_assign_integer_postfix(
    st: CheckView,
    step: Step,
    operand: Type,
    index: AstIndex,
    ast: Ast<Token>,
) -> (Type, CheckView) {
    let (value, stepped) = spec_integer_step(st, step, operand, true, index, ast);
    let (assigned, after) = spec_assign_value(stepped, value, index.0 - 1, ast);
    match assigned {
        Some(t) => (t, after),
        None => (
            Type::Error,
            reported(
                after,
                CheckError::LeftSideOfIncrementOrDecrementMustBeIdentifier {
                    source: st.source,
                    left: ast.token_ranges@[index.0 - 1],
                    operator: ast.token_ranges@[index.0 as int],
                },
            ),
        ),
    }
}

/// `++a` / `--a` at `index`.
pub open spec fn spec_assign_integer_prefix(
    st: CheckView,
    step: Step,
    operand: Type,
    index: AstIndex,
    ast: Ast<Token>,
) -> (Type, CheckView) {
    let (value, stepped) = spec_integer_step(st, step, operand, false, index, ast);
    let (assigned, after) = spec_assign_value(stepped, value, index.0 + 1, ast);
    match assigned {
        Some(t) => (t, after),
        None => (
            Type::Error,
            reported(
                after,
                CheckError::RightSideOfIncrementOrDecrementMustBeIdentifier {
                    source: st.source,
                    right: ast.token_ranges@[index.0 + 1],
                    operator: ast.token_ranges@[index.0 as int],
                },
            ),
        ),
    }
}

/// `:a` at `index`: declares property `a` with `value`, unless an
/// assignment or increment will give it its value; the value passes through.
pub open spec fn spec_declaration(st: CheckView, value: Type, index: AstIndex, ast: Ast<Token>) -> (
    Type,
    CheckView,
) {
    let i = index.0 as int;
    let tokens = ast.tokens@;
    match tokens[i + 1] {
        Token::PropertyReference(property) => {
            if i > 0 && tokens[i - 1] is PrefixOperator {
                if tokens[i - 1] == Token::PrefixOperator(IdentifierIndex(PLUS_PLUS))
                    || tokens[i - 1] == Token::PrefixOperator(IdentifierIndex(DASH_DASH)) {
                    (value, st)
                } else {
                    (value, with_property(st, property, value))
                }
            } else if i + 2 < tokens.len() && (tokens[i + 2] is InfixAssignment || tokens[i + 2]
                == Token::PostfixOperator(IdentifierIndex(PLUS_PLUS)) || tokens[i + 2]
                == Token::PostfixOperator(IdentifierIndex(DASH_DASH))) {
                (value, st)
            } else {
                (value, with_property(st, property, value))
            }
        },
        _ => (
            Type::Error,
            reported(
                st,
                CheckError::UnrecognizedOperator {
                    source: st.source,
                    operator: ast.token_ranges@[i],
                    fixity: Fixity::Prefix,
                },
            ),
        ),
    }
}

/// Measure that lets a compound assignment check its operation first.
pub open spec fn infix_rank(token: InfixToken) -> int {
    match token {
        InfixToken::InfixAssignment(_) => 1,
        _ => 0,
    }
}

/// The infix operator at `index` applied to operand types `left` and `right`.
pub open spec fn spec_check_infix(
    st: CheckView,
    token: InfixToken,
    left: Type,
    right: Type,
    index: AstIndex,
    ast: Ast<Token>,
) -> (Type, CheckView)
    decreases infix_rank(token),
{
    match token {
        InfixToken::InfixOperator(op) => {
            let o = op.0;
            if o == PLUS {
                spec_numeric_binary(st, NumericOperation::Add, left, right, index, ast)
            } else if o == DASH {
                spec_numeric_binary(st, NumericOperation::Subtract, left, right, index, ast)
            } else if o == STAR {
                spec_numeric_binary(st, NumericOperation::Multiply, left, right, index, ast)
            } else if o == SLASH {
                spec_divide(st, left, right, index, ast)
            } else if o == EQUAL_TO {
                spec_equal_to(st, left, right, index, ast)
            } else if o == NOT_EQUAL_TO {
                let (t, after) = spec_equal_to(st, left, right, index, ast);
                (
                    match t {
                        Type::Boolean(b) => Type::Boolean(!b),
                        _ => t,
                    },
                    after,
                )
            } else if o == GREATER_THAN {
                spec_numeric_comparison(st, Comparison::Greater, left, right, index, ast)
            } else if o == LESS_THAN {
                spec_numeric_comparison(st, Comparison::Less, left, right, index, ast)
            } else if o == GREATER_EQUAL {
                spec_numeric_comparison(st, Comparison::GreaterOrEqual, left, right, index, ast)
            } else if o == LESS_EQUAL {
                spec_numeric_comparison(st, Comparison::LessOrEqual, left, right, index, ast)
            } else if o == AND_AND {
                spec_boolean_binary(st, BooleanOperation::And, left, right, index, ast)
            } else if o == OR_OR {
                spec_boolean_binary(st, BooleanOperation::Or, left, right, index, ast)
            } else if o == SEMICOLON {
                (right, st)
            } else {
                (
                    Type::Error,
                    reported(
                        st,
                        CheckError::UnrecognizedOperator {
                            source: st.source,
                            operator: ast.token_ranges@[index.0 as int],
                            fixity: Fixity::Infix,
                        },
                    ),
                )
            }
        },
        InfixToken::NewlineSequence => (right, st),
        InfixToken::InfixAssignment(op) => if op.0 == EMPTY_STRING {
            spec_assign(st, right, index, ast)
        } else {
            let (value, after) = spec_check_infix(
                st,
                InfixToken::InfixOperator(op),
                left,
                right,
                index,
                ast,
            );
            spec_assign(after, value, index, ast)
        },
        InfixToken::MissingInfix => (Type::Error, st),
    }
}

/// An infix operator: missing operands are reported (a missing right operand
/// of `;` is fine) and become errors, then the operator is checked.
pub open spec fn spec_visit_infix(
    st: CheckView,
    token: InfixToken,
    left: Type,
    right: Type,
    index: AstIndex,
    ast: Ast<Token>,
) -> (Type, CheckView) {
    let operator = ast.token_ranges@[index.0 as int];
    let (left2, st1) = if left == Type::Missing {
        (Type::Error, reported(st, CheckError::MissingLeftOperand { source: st.source, operator }))
    } else {
        (left, st)
    };
    let (right2, st2) = if right == Type::Missing && token != InfixToken::InfixOperator(
        IdentifierIndex(SEMICOLON),
    ) {
        (
            Type::Error,
            reported(st1, CheckError::MissingRightOperand { source: st.source, operator }),
        )
    } else {
        (right, st1)
    };
    spec_check_infix(st2, token, left2, right2, index, ast)
}

/// A prefix operator.
pub open spec fn spec_visit_prefix(
    st: CheckView,
    prefix: IdentifierIndex,
    operand: Type,
    index: AstIndex,
    ast: Ast<Token>,
) -> (Type, CheckView) {
    let operator = ast.token_ranges@[index.0 as int];
    let (operand2, st1) = if operand == Type::Missing {
        (Type::Error, reported(st, CheckError::MissingRightOperand { source: st.source, operator }))
    } else {
        (operand, st)
    };
    let p = prefix.0;
    if p == COLON {
        spec_declaration(st1, operand2, index, ast)
    } else if p == PLUS {
        spec_numeric_prefix(st1, NumericPrefix::Positive, operand2, index, ast)
    } else if p == DASH {
        spec_numeric_prefix(st1, NumericPrefix::Negative, operand2, index, ast)
    } else if p == NOT {
        spec_boolean_prefix(st1, operand2, index, ast)
    } else if p == PLUS_PLUS {
        spec_assign_integer_prefix(st1, Step::Increment, operand2, index, ast)
    } else if p == DASH_DASH {
        spec_assign_integer_prefix(st1, Step::Decrement, operand2, index, ast)
    } else {
        (
            Type::Error,
            reported(
                st1,
                CheckError::UnrecognizedOperator {
                    source: st.source,
                    operator,
                    fixity: Fixity::Prefix,
                },
            ),
        )
    }
}

/// A postfix operator.
pub open spec fn spec_visit_postfix(
    st: CheckView,
    postfix: IdentifierIndex,
    operand: Type,
    index: AstIndex,
    ast: Ast<Token>,
) -> (Type, CheckView) {
    let p = postfix.0;
    if p == PLUS_PLUS {
        spec_assign_integer_postfix(st, Step::Increment, operand, index, ast)
    } else if p == DASH_DASH {
        spec_assign_integer_postfix(st, Step::Decrement, operand, index, ast)
    } else {
        (
            Type::Error,
            reported(
                st,
                CheckError::UnrecognizedOperator {
                    source: st.source,
                    operator: ast.token_ranges@[index.0 as int],
                    fixity: Fixity::Postfix,
                },
            ),
        )
    }
}

/// A term: a literal is its value, a property its value in scope (or
/// undefined where it is about to be assigned or declared, else an error), a
/// syntax error an error, and a missing expression missing.
pub open spec fn spec_visit_term(st: CheckView, token: TermToken, index: AstIndex, ast: Ast<Token>) -> (
    Type,
    CheckView,
) {
    let i = index.0 as int;
    match token {
        TermToken::IntegerLiteral(literal) => with_rational(
            st,
            value_texts((digits_value(interned(ast.literals)[literal.0 as int]), 1)),
        ),
        TermToken::PropertyReference(name) => if st.scope.contains_key(name.0) {
            (st.scope[name.0], st)
        } else if i + 1 < ast.tokens@.len() && ast.tokens@[i + 1] == Token::InfixAssignment(
            IdentifierIndex(EMPTY_STRING),
        ) {
            (Type::Undefined { reference_source: st.source, reference_index: index }, st)
        } else if i > 0 && is_prefix_operator(ast.tokens@, i - 1, COLON) {
            (Type::Undefined { reference_source: st.source, reference_index: index }, st)
        } else {
            (
                Type::Error,
                reported(
                    st,
                    CheckError::NoSuchProperty { source: st.source, reference: ast.token_ranges@[i] },
                ),
            )
        },
        TermToken::SyntaxErrorTerm(_) => (Type::Error, st),
        TermToken::MissingExpression => (Type::Missing, st),
    }
}

/// On two numbers the comparisons agree with each other: `a > b` is `b < a`,
/// `a >= b` is `!(a < b)` and `a <= b` is `!(a > b)`; none reports anything.
pub proof fn lemma_comparisons_agree<T>(st: CheckView, a: RationalIndex, b: RationalIndex, index: AstIndex, ast: Ast<T>)
    ensures
        ({
            let left = Type::Rational(a);
            let right = Type::Rational(b);
            let (less, s1) = spec_numeric_comparison(st, Comparison::Less, left, right, index, ast);
            let (greater, s2) = spec_numeric_comparison(st, Comparison::Greater, left, right, index, ast);
            let (greater_or_equal, s3) = spec_numeric_comparison(
                st,
                Comparison::GreaterOrEqual,
                left,
                right,
                index,
                ast,
            );
            let (less_or_equal, s4) = spec_numeric_comparison(
                st,
                Comparison::LessOrEqual,
                left,
                right,
                index,
                ast,
            );
            let (reversed_less, s5) = spec_numeric_comparison(st, Comparison::Less, right, left, index, ast);
            &&& s1 == st && s2 == st && s3 == st && s4 == st && s5 == st
            &&& greater == reversed_less
            &&& less matches Type::Boolean(x) && greater_or_equal == Type::Boolean(!x)
            &&& greater matches Type::Boolean(y) && less_or_equal == Type::Boolean(!y)
        }),
{
}

/// `!=` is the negation of `==` whenever `==` gives a boolean, and reports
/// the same errors.
pub proof fn lemma_not_equal_negates(
    st: CheckView,
    left: Type,
    right: Type,
    index: AstIndex,
    ast: Ast<Token>,
)
    ensures
        ({
            let (equal, s1) = spec_check_infix(
                st,
                InfixToken::InfixOperator(IdentifierIndex(EQUAL_TO)),
                left,
                right,
                index,
                ast,
            );
            let (not_equal, s2) = spec_check_infix(
                st,
                InfixToken::InfixOperator(IdentifierIndex(NOT_EQUAL_TO)),
                left,
                right,
                index,
                ast,
            );
            &&& s1 == s2
            &&& equal matches Type::Boolean(x) ==> not_equal == Type::Boolean(!x)
            &&& !(equal is Boolean) ==> not_equal == equal
        }),
{
}

/// `==` on two numbers is symmetric.
pub proof fn lemma_equal_to_symmetric<T>(st: CheckView, a: RationalIndex, b: RationalIndex, index: AstIndex, ast: Ast<T>)
    ensures
        spec_equal_to(st, Type::Rational(a), Type::Rational(b), index, ast) == spec_equal_to(
            st,
            Type::Rational(b),
            Type::Rational(a),
            index,
            ast,
        ),
{
}

/// The value one more or one less than an integer `n/d`, as `++` and `--`
/// step it.
pub open spec fn stepped_by_one(value: (int, int), step: Step) -> (int, int) {
    match step {
        Step::Increment => (value.0 / value.1 + 1, 1),
        Step::Decrement => (value.0 / value.1 - 1, 1),
    }
}

/// `++` and `--` (prefix or postfix) on an integer `n` give a new rational
/// that stands for `n + 1` and `n - 1`, in lowest terms, and report nothing;
/// on a number that is not an integer they give an error.
pub proof fn lemma_integer_step_by_one<T>(
    st: CheckView,
    step: Step,
    a: RationalIndex,
    is_postfix: bool,
    index: AstIndex,
    ast: Ast<T>,
)
    requires
        a.0 < st.rationals.len(),
        texts_wf(texts_of(st, a)),
    ensures
        ({
            let value = text_value(texts_of(st, a));
            let (t, after) = spec_integer_step(st, step, Type::Rational(a), is_postfix, index, ast);
            &&& after.errors == st.errors
            &&& after.scope == st.scope
            &&& value.0 % value.1 == 0 ==> {
                &&& t == Type::Rational(RationalIndex(st.rationals.len() as usize))
                &&& after.rationals.len() == st.rationals.len() + 1
                &&& after.rationals.drop_last() == st.rationals
                &&& text_value(after.rationals.last()) == stepped_by_one(value, step)
            }
            &&& value.0 % value.1 != 0 ==> t == Type::Error && after == st
        }),
{
    let (t, after) = spec_integer_step(st, step, Type::Rational(a), is_postfix, index, ast);
    let value = text_value(texts_of(st, a));
    if value.0 % value.1 == 0 {
        lemma_integer_plus(texts_of(st, a), 1);
        assert(after.rationals.drop_last() =~= st.rationals);
    }
}

/// Stepping up by one and stepping down by one give numbers two apart.
pub proof fn lemma_steps_differ(value: (int, int))
    ensures
        stepped_by_one(value, Step::Increment).0 == stepped_by_one(value, Step::Decrement).0 + 2,
{
}

/// `x++` and `++x` on a property `x` holding an integer `n` set `x` to a new
/// rational standing for `n + 1`, and `x--`, `--x` to one standing for
/// `n - 1`; the expression itself has no value.
pub proof fn lemma_step_sets_property(
    st: CheckView,
    operator: u32,
    is_postfix: bool,
    a: RationalIndex,
    name: IdentifierIndex,
    index: AstIndex,
    ast: Ast<Token>,
)
    requires
        operator == PLUS_PLUS || operator == DASH_DASH,
        a.0 < st.rationals.len(),
        texts_wf(texts_of(st, a)),
        text_value(texts_of(st, a)).0 % text_value(texts_of(st, a)).1 == 0,
        is_postfix ==> 0 < index.0 < ast.tokens@.len() && ast.tokens@[index.0 - 1]
            == Token::PropertyReference(name),
        !is_postfix ==> index.0 + 1 < ast.tokens@.len() && ast.tokens@[index.0 + 1]
            == Token::PropertyReference(name),
    ensures
        ({
            let operand = Type::Rational(a);
            let (t, after) = if is_postfix {
                spec_visit_postfix(st, IdentifierIndex(operator), operand, index, ast)
            } else {
                spec_visit_prefix(st, IdentifierIndex(operator), operand, index, ast)
            };
            let step = if operator == PLUS_PLUS {
                Step::Increment
            } else {
                Step::Decrement
            };
            let new = RationalIndex(st.rationals.len() as usize);
            &&& t == Type::Nothing
            &&& after.rationals.len() == st.rationals.len() + 1
            &&& after.rationals.drop_last() == st.rationals
            &&& text_value(after.rationals.last()) == stepped_by_one(
                text_value(texts_of(st, a)),
                step,
            )
            &&& after.scope == st.scope.insert(name.0, Type::Rational(new))
        }),
{
    let step = if operator == PLUS_PLUS {
        Step::Increment
    } else {
        Step::Decrement
    };
    lemma_integer_step_by_one(st, step, a, is_postfix, index, ast);
}

/// The infix operator `operator` on the numbers `a` and `b` gives a new
/// rational standing for `num/den`, and reports nothing.
pub open spec fn infix_computes(
    st: CheckView,
    operator: u32,
    a: RationalIndex,
    b: RationalIndex,
    index: AstIndex,
    ast: Ast<Token>,
    num: int,
    den: int,
) -> bool {
    let (t, after) = spec_check_infix(
        st,
        InfixToken::InfixOperator(IdentifierIndex(operator)),
        Type::Rational(a),
        Type::Rational(b),
        index,
        ast,
    );
    &&& t == Type::Rational(RationalIndex(st.rationals.len() as usize))
    &&& after.errors == st.errors
    &&& after.scope == st.scope
    &&& after.rationals.len() == st.rationals.len() + 1
    &&& after.rationals.drop_last() == st.rationals
    &&& same_fraction(text_value(after.rationals.last()), num, den)
}

/// `+`, `-`, `*` and `/` on numbers `p/q` and `r/s` compute exactly:
/// `(ps + rq)/qs`, `(ps - rq)/qs`, `pr/qs` and `ps/qr`; dividing by zero
/// gives an error and reports it.
pub proof fn lemma_arithmetic_operators(
    st: CheckView,
    a: RationalIndex,
    b: RationalIndex,
    index: AstIndex,
    ast: Ast<Token>,
)
    requires
        a.0 < st.rationals.len(),
        b.0 < st.rationals.len(),
        texts_wf(texts_of(st, a)),
        texts_wf(texts_of(st, b)),
    ensures
        ({
            let (p, q) = text_value(texts_of(st, a));
            let (r, s) = text_value(texts_of(st, b));
            &&& infix_computes(st, PLUS, a, b, index, ast, p * s + r * q, q * s)
            &&& infix_computes(st, DASH, a, b, index, ast, p * s - r * q, q * s)
            &&& infix_computes(st, STAR, a, b, index, ast, p * r, q * s)
            &&& r != 0 ==> infix_computes(st, SLASH, a, b, index, ast, p * s, q * r)
            &&& r == 0 ==> spec_check_infix(
                st,
                InfixToken::InfixOperator(IdentifierIndex(SLASH)),
                Type::Rational(a),
                Type::Rational(b),
                index,
                ast,
            ) == (
                Type::Error,
                reported(
                    st,
                    CheckError::DivideByZero {
                        source: st.source,
                        divide: ast.token_ranges@[index.0 as int],
                    },
                ),
            )
        }),
{
    lemma_arithmetic_exact(texts_of(st, a), texts_of(st, b));
    assert forall|x: (Seq<char>, Seq<char>)| #[trigger] st.rationals.push(x).drop_last() == st.rationals by {
        assert(st.rationals.push(x).drop_last() =~= st.rationals);
    }
}

/// The infix operator `operator` on `left` and `right` gives the boolean
/// `value` and reports nothing.
pub open spec fn infix_decides(
    st: CheckView,
    operator: u32,
    left: Type,
    right: Type,
    index: AstIndex,
    ast: Ast<Token>,
    value: bool,
) -> bool {
    spec_check_infix(st, InfixToken::InfixOperator(IdentifierIndex(operator)), left, right, index, ast)
        == (Type::Boolean(value), st)
}

/// The comparisons on numbers `p/q` and `r/s` (positive denominators)
/// compare `ps` with `rq`: `<`, `>`, `<=`, `>=`, `==` and `!=` each as
/// written, reporting nothing.
pub proof fn lemma_comparison_operators(
    st: CheckView,
    a: RationalIndex,
    b: RationalIndex,
    index: AstIndex,
    ast: Ast<Token>,
)
    ensures
        ({
            let (p, q) = text_value(texts_of(st, a));
            let (r, s) = text_value(texts_of(st, b));
            let x = Type::Rational(a);
            let y = Type::Rational(b);
            &&& infix_decides(st, LESS_THAN, x, y, index, ast, p * s < r * q)
            &&& infix_decides(st, GREATER_THAN, x, y, index, ast, p * s > r * q)
            &&& infix_decides(st, LESS_EQUAL, x, y, index, ast, p * s <= r * q)
            &&& infix_decides(st, GREATER_EQUAL, x, y, index, ast, p * s >= r * q)
            &&& infix_decides(st, EQUAL_TO, x, y, index, ast, p * s == r * q)
            &&& infix_decides(st, NOT_EQUAL_TO, x, y, index, ast, p * s != r * q)
        }),
{
    let (p, q) = text_value(texts_of(st, a));
    let (r, s) = text_value(texts_of(st, b));
    assert(r * q == q * r && p * s == s * p) by (nonlinear_arith);
}

/// `&&` and `||` on booleans are conjunction and disjunction, `==` and `!=`
/// compare them, and `!` negates one; none reports anything.
pub proof fn lemma_boolean_operators(st: CheckView, x: bool, y: bool, index: AstIndex, ast: Ast<Token>)
    ensures
        infix_decides(st, AND_AND, Type::Boolean(x), Type::Boolean(y), index, ast, x && y),
        infix_decides(st, OR_OR, Type::Boolean(x), Type::Boolean(y), index, ast, x || y),
        infix_decides(st, EQUAL_TO, Type::Boolean(x), Type::Boolean(y), index, ast, x == y),
        infix_decides(st, NOT_EQUAL_TO, Type::Boolean(x), Type::Boolean(y), index, ast, x != y),
        spec_visit_prefix(st, IdentifierIndex(NOT), Type::Boolean(x), index, ast) == (
            Type::Boolean(!x),
            st,
        ),
{
}

/// Prefix `+` on a number is the number itself, and prefix `-` gives a new
/// rational standing for its negation; neither reports anything.
pub proof fn lemma_sign_prefixes(st: CheckView, a: RationalIndex, index: AstIndex, ast: Ast<Token>)
    requires
        a.0 < st.rationals.len(),
        texts_wf(texts_of(st, a)),
    ensures
        spec_visit_prefix(st, IdentifierIndex(PLUS), Type::Rational(a), index, ast) == (
            Type::Rational(a),
            st,
        ),
        ({
            let (p, q) = text_value(texts_of(st, a));
            let (t, after) = spec_visit_prefix(st, IdentifierIndex(DASH), Type::Rational(a), index, ast);
            &&& t == Type::Rational(RationalIndex(st.rationals.len() as usize))
            &&& after.errors == st.errors
            &&& after.rationals.drop_last() == st.rationals
            &&& same_fraction(text_value(after.rationals.last()), -p, q)
        }),
{
    lemma_arithmetic_exact(texts_of(st, a), texts_of(st, a));
    let (t, after) = spec_visit_prefix(st, IdentifierIndex(DASH), Type::Rational(a), index, ast);
    assert(after.rationals.drop_last() =~= st.rationals);
}

/// `a;b` has the type and value of its right side, as a newline sequence
/// does, and reports nothing of its own; a missing right side (`a;`) gives
/// nothing.
pub proof fn lemma_sequence_is_its_right_side(
    st: CheckView,
    left: Type,
    right: Type,
    index: AstIndex,
    ast: Ast<Token>,
)
    ensures
        spec_check_infix(st, InfixToken::InfixOperator(IdentifierIndex(SEMICOLON)), left, right, index, ast)
            == (right, st),
        spec_check_infix(st, InfixToken::NewlineSequence, left, right, index, ast) == (right, st),
        left != Type::Missing ==> spec_visit_infix(
            st,
            InfixToken::InfixOperator(IdentifierIndex(SEMICOLON)),
            left,
            right,
            index,
            ast,
        ) == (right, st),
{
}

// ---------------------------------------------------------------------------
// Validity of states and types.

/// A type refers only to rationals of the state and tokens of the AST.
pub open spec fn type_valid(st: CheckView, t: Type, token_count: int) -> bool {
    match t {
        Type::Rational(i) => i.0 < st.rationals.len(),
        Type::Undefined { reference_index, .. } => reference_index.0 < token_count,
        _ => true,
    }
}

/// Every rational is well formed and every property value is valid.
pub open spec fn state_valid(st: CheckView, token_count: int) -> bool {
    &&& forall|i: int| 0 <= i < st.rationals.len() ==> texts_wf(#[trigger] st.rationals[i])
    &&& forall|k: u32| st.scope.contains_key(k) ==> type_valid(st, #[trigger] st.scope[k], token_count)
}

/// What the operator at `index` needs of the tokens around it.
pub open spec fn infix_index_ok(token: InfixToken, index: AstIndex, ast: Ast<Token>) -> bool {
    &&& index.0 < ast.tokens@.len()
    &&& token is InfixAssignment ==> index.0 >= 1
}

/// What the prefix operator at `index` needs of the tokens around it.
pub open spec fn prefix_index_ok(prefix: IdentifierIndex, index: AstIndex, ast: Ast<Token>) -> bool {
    &&& index.0 < ast.tokens@.len()
    &&& (prefix.0 == COLON || prefix.0 == PLUS_PLUS || prefix.0 == DASH_DASH) ==> index.0 + 1
        < ast.tokens@.len()
}

/// What the postfix operator at `index` needs of the tokens around it.
pub open spec fn postfix_index_ok(postfix: IdentifierIndex, index: AstIndex, ast: Ast<Token>) -> bool {
    &&& index.0 < ast.tokens@.len()
    &&& (postfix.0 == PLUS_PLUS || postfix.0 == DASH_DASH) ==> index.0 >= 1
}

/// The literal of an integer-literal token is a string of digits.
pub open spec fn term_ok(token: TermToken, index: AstIndex, ast: Ast<Token>) -> bool {
    &&& index.0 < ast.tokens@.len()
    &&& token matches TermToken::IntegerLiteral(literal) ==> {
        &&& literal.0 < interned(ast.literals).len()
        &&& is_digits(interned(ast.literals)[literal.0 as int])
    }
}

impl View for Checker {
    type V = CheckView;

    open spec fn view(&self) -> CheckView {
        CheckView {
            source: self.source,
            rationals: self.rationals@.map_values(|r: Rational| r@),
            errors: self.errors@,
            scope: properties(self.scope.properties),
        }
    }
}

/// A missing value at the top of a source is nothing.
pub fn check_result(value: Type) -> (r: Type)
    ensures
        r == (if value == Type::Missing {
            Type::Nothing
        } else {
            value
        }),
{
    match value {
        Type::Missing => Type::Nothing,
        _ => value,
    }
}

impl Checker {
    /// A checker for source `source`, with only the keywords in scope.
    pub fn new(source: SourceIndex) -> (r: Self)
        ensures
            r@.source == source,
            r@.rationals.len() == 0,
            r@.errors.len() == 0,
            r@.scope =~= map![TRUE => Type::Boolean(true), FALSE => Type::Boolean(false)],
            forall|n: int| state_valid(r@, n),
    {
        let r = Checker {
            source,
            scope: Scope::with_keywords(),
            rationals: Vec::new(),
            errors: Vec::new(),
        };
        assert(r@.rationals =~= Seq::<(Seq<char>, Seq<char>)>::empty());
        r
    }

    /// The source being checked.
    pub fn source(&self) -> (r: SourceIndex)
        ensures
            r == self.source,
    {
        self.source
    }

    /// Records an error; the expression's type becomes an error.
    pub fn report(&mut self, error: CheckError) -> (r: Type)
        ensures
            r == Type::Error,
            final(self)@ == reported(old(self)@, error),
            final(self).rationals@ == old(self).rationals@,
    {
        self.errors.push(error);
        Type::Error
    }

    fn push_rational(&mut self, rational: Rational, Ghost(token_count): Ghost<int>) -> (r: Type)
        requires
            rational.wf(),
            state_valid(old(self)@, token_count),
        ensures
            (r, final(self)@) == with_rational(old(self)@, rational@),
            state_valid(final(self)@, token_count),
            type_valid(final(self)@, r, token_count),
            final(self).rationals@.len() == old(self).rationals@.len() + 1,
            final(self).rationals@.drop_last() == old(self).rationals@,
    {
        let index = RationalIndex(self.rationals.len());
        self.rationals.push(rational);
        assert(self@.rationals =~= old(self)@.rationals.push(rational@));
        assert(final(self).rationals@.drop_last() =~= old(self).rationals@);
        Type::Rational(index)
    }

    fn set_property(&mut self, name: IdentifierIndex, value: Type, Ghost(token_count): Ghost<int>)
        requires
            state_valid(old(self)@, token_count),
            type_valid(old(self)@, value, token_count),
        ensures
            final(self)@ == with_property(old(self)@, name, value),
            state_valid(final(self)@, token_count),
            final(self).rationals@ == old(self).rationals@,
    {
        self.scope.set(name, value);
        assert(self@ == with_property(old(self)@, name, value));
    }

    fn operand_report(
        &mut self,
        operand: Type,
        kind: OperandKind,
        is_left: bool,
        operator: ByteRange,
        ast: &Ast<Token>,
    )
        requires
            ast.wf(),
            state_valid(old(self)@, ast.tokens@.len() as int),
            type_valid(old(self)@, operand, ast.tokens@.len() as int),
        ensures
            final(self)@ == operand_report(old(self)@, operand, kind, is_left, operator, ast.token_ranges@),
            final(self).rationals@ == old(self).rationals@,
            state_valid(final(self)@, ast.tokens@.len() as int),
    {
        let source = self.source;
        match operand {
            Type::Error => {},
            Type::Rational(_) => {
                if kind != OperandKind::Numeric {
                    self.report_bad_type(operand, is_left, operator);
                }
            },
            Type::Boolean(_) => {
                if kind != OperandKind::Boolean {
                    self.report_bad_type(operand, is_left, operator);
                }
            },
            Type::Missing => {
                if is_left {
                    self.report(CheckError::MissingLeftOperand { source, operator });
                } else {
                    self.report(CheckError::MissingRightOperand { source, operator });
                }
            },
            Type::Undefined { reference_source, reference_index } => {
                let reference = ast.token_range(reference_index);
                self.report(CheckError::PropertyNotSet { source: reference_source, reference });
            },
            Type::Nothing => {
                self.report_bad_type(operand, is_left, operator);
            },
        }
    }

    fn report_bad_type(&mut self, operand: Type, is_left: bool, operator: ByteRange)
        ensures
            final(self)@ == reported(
                old(self)@,
                if is_left {
                    CheckError::BadTypeLeftOperand { source: old(self)@.source, operator, left: operand }
                } else {
                    CheckError::BadTypeRightOperand {
                        source: old(self)@.source,
                        operator,
                        right: operand,
                    }
                },
            ),
            final(self).rationals@ == old(self).rationals@,
    {
        let source = self.source;
        if is_left {
            self.report(CheckError::BadTypeLeftOperand { source, operator, left: operand });
        } else {
            self.report(CheckError::BadTypeRightOperand { source, operator, right: operand });
        }
    }

    /// Reports bad operands of a numeric binary operator; gives both numbers
    /// when both operands are numbers.
    pub fn check_numeric_binary_arguments(
        &mut self,
        left: Type,
        right: Type,
        index: AstIndex,
        ast: &Ast<Token>,
    ) -> (r: Option<(RationalIndex, RationalIndex)>)
        requires
            ast.wf(),
            index.0 < ast.tokens@.len(),
            state_valid(old(self)@, ast.tokens@.len() as int),
            type_valid(old(self)@, left, ast.tokens@.len() as int),
            type_valid(old(self)@, right, ast.tokens@.len() as int),
        ensures
            final(self)@ == binary_reports(old(self)@, left, right, OperandKind::Numeric, index, *ast),
            final(self).rationals@ == old(self).rationals@,
            state_valid(final(self)@, ast.tokens@.len() as int),
            r == (match (left, right) {
                (Type::Rational(a), Type::Rational(b)) => Some((a, b)),
                _ => None,
            }),
    {
        let operator = ast.token_range(index);
        self.operand_report(left, OperandKind::Numeric, true, operator, ast);
        self.operand_report(right, OperandKind::Numeric, false, operator, ast);
        match (left, right) {
            (Type::Rational(a), Type::Rational(b)) => Some((a, b)),
            _ => None,
        }
    }

    /// Reports bad operands of a boolean binary operator; gives both booleans
    /// when both operands are booleans.
    pub fn check_boolean_binary_arguments(
        &mut self,
        left: Type,
        right: Type,
        index: AstIndex,
        ast: &Ast<Token>,
    ) -> (r: Option<(bool, bool)>)
        requires
            ast.wf(),
            index.0 < ast.tokens@.len(),
            state_valid(old(self)@, ast.tokens@.len() as int),
            type_valid(old(self)@, left, ast.tokens@.len() as int),
            type_valid(old(self)@, right, ast.tokens@.len() as int),
        ensures
            final(self)@ == binary_reports(old(self)@, left, right, OperandKind::Boolean, index, *ast),
            final(self).rationals@ == old(self).rationals@,
            state_valid(final(self)@, ast.tokens@.len() as int),
            r == (match (left, right) {
                (Type::Boolean(a), Type::Boolean(b)) => Some((a, b)),
                _ => None,
            }),
    {
        let operator = ast.token_range(index);
        self.operand_report(left, OperandKind::Boolean, true, operator, ast);
        self.operand_report(right, OperandKind::Boolean, false, operator, ast);
        match (left, right) {
            (Type::Boolean(a), Type::Boolean(b)) => Some((a, b)),
            _ => None,
        }
    }

    /// `+`, `-` and `*` on numbers.
    pub fn check_numeric_binary(
        &mut self,
        operation: NumericOperation,
        left: Type,
        right: Type,
        index: AstIndex,
        ast: &Ast<Token>,
    ) -> (r: Type)
        requires
            ast.wf(),
            index.0 < ast.tokens@.len(),
            state_valid(old(self)@, ast.tokens@.len() as int),
            type_valid(old(self)@, left, ast.tokens@.len() as int),
            type_valid(old(self)@, right, ast.tokens@.len() as int),
        ensures
            (r, final(self)@) == spec_numeric_binary(old(self)@, operation, left, right, index, *ast),
            state_valid(final(self)@, ast.tokens@.len() as int),
            type_valid(final(self)@, r, ast.tokens@.len() as int),
    {
        let ghost token_count = ast.tokens@.len() as int;
        let ghost st = self@;
        match self.check_numeric_binary_arguments(left, right, index, ast) {
            Some((a, b)) => {
                let x = &self.rationals[a.0];
                let y = &self.rationals[b.0];
                assert(x@ == texts_of(st, a) && y@ == texts_of(st, b));
                let value = match operation {
                    NumericOperation::Add => rational_add(x, y),
                    NumericOperation::Subtract => rational_sub(x, y),
                    NumericOperation::Multiply => rational_mul(x, y),
                };
                self.push_rational(value, Ghost(token_count))
            },
            None => Type::Error,
        }
    }

    /// Comparisons of numbers.
    pub fn check_numeric_comparison(
        &mut self,
        comparison: Comparison,
        left: Type,
        right: Type,
        index: AstIndex,
        ast: &Ast<Token>,
    ) -> (r: Type)
        requires
            ast.wf(),
            index.0 < ast.tokens@.len(),
            state_valid(old(self)@, ast.tokens@.len() as int),
            type_valid(old(self)@, left, ast.tokens@.len() as int),
            type_valid(old(self)@, right, ast.tokens@.len() as int),
        ensures
            (r, final(self)@) == spec_numeric_comparison(old(self)@, comparison, left, right, index, *ast),
            state_valid(final(self)@, ast.tokens@.len() as int),
            type_valid(final(self)@, r, ast.tokens@.len() as int),
    {
        let ghost st = self@;
        match self.check_numeric_binary_arguments(left, right, index, ast) {
            Some((a, b)) => {
                let x = &self.rationals[a.0];
                let y = &self.rationals[b.0];
                assert(x@ == texts_of(st, a) && y@ == texts_of(st, b));
                let value = match comparison {
                    Comparison::Greater => rational_gt(x, y),
                    Comparison::Less => rational_lt(x, y),
                    Comparison::GreaterOrEqual => rational_ge(x, y),
                    Comparison::LessOrEqual => rational_le(x, y),
                };
                Type::Boolean(value)
            },
            None => Type::Error,
        }
    }

    /// `&&` and `||`.
    pub fn check_boolean_binary(
        &mut self,
        operation: BooleanOperation,
        left: Type,
        right: Type,
        index: AstIndex,
        ast: &Ast<Token>,
    ) -> (r: Type)
        requires
            ast.wf(),
            index.0 < ast.tokens@.len(),
            state_valid(old(self)@, ast.tokens@.len() as int),
            type_valid(old(self)@, left, ast.tokens@.len() as int),
            type_valid(old(self)@, right, ast.tokens@.len() as int),
        ensures
            (r, final(self)@) == spec_boolean_binary(old(self)@, operation, left, right, index, *ast),
            state_valid(final(self)@, ast.tokens@.len() as int),
            type_valid(final(self)@, r, ast.tokens@.len() as int),
    {
        match self.check_boolean_binary_arguments(left, right, index, ast) {
            Some((a, b)) => Type::Boolean(
                match operation {
                    BooleanOperation::And => a && b,
                    BooleanOperation::Or => a || b,
                },
            ),
            None => Type::Error,
        }
    }

    /// `/` on numbers; division by zero is reported.
    pub fn check_divide(&mut self, left: Type, right: Type, index: AstIndex, ast: &Ast<Token>) -> (r:
        Type)
        requires
            ast.wf(),
            index.0 < ast.tokens@.len(),
            state_valid(old(self)@, ast.tokens@.len() as int),
            type_valid(old(self)@, left, ast.tokens@.len() as int),
            type_valid(old(self)@, right, ast.tokens@.len() as int),
        ensures
            (r, final(self)@) == spec_divide(old(self)@, left, right, index, *ast),
            state_valid(final(self)@, ast.tokens@.len() as int),
            type_valid(final(self)@, r, ast.tokens@.len() as int),
    {
        let ghost token_count = ast.tokens@.len() as int;
        let ghost st = self@;
        match self.check_numeric_binary_arguments(left, right, index, ast) {
            Some((a, b)) => {
                assert(self.rationals@[b.0 as int]@ == texts_of(st, b));
                if rational_is_zero(&self.rationals[b.0]) {
                    let source = self.source;
                    let divide = ast.token_range(index);
                    self.report(CheckError::DivideByZero { source, divide })
                } else {
                    let x = &self.rationals[a.0];
                    let y = &self.rationals[b.0];
                    assert(x@ == texts_of(st, a) && y@ == texts_of(st, b));
                    let value = rational_div(x, y);
                    self.push_rational(value, Ghost(token_count))
                }
            },
            None => Type::Error,
        }
    }

    /// `==`.
    pub fn check_equal_to(&mut self, left: Type, right: Type, index: AstIndex, ast: &Ast<Token>) -> (r:
        Type)
        requires
            ast.wf(),
            index.0 < ast.tokens@.len(),
            state_valid(old(self)@, ast.tokens@.len() as int),
            type_valid(old(self)@, left, ast.tokens@.len() as int),
            type_valid(old(self)@, right, ast.tokens@.len() as int),
        ensures
            (r, final(self)@) == spec_equal_to(old(self)@, left, right, index, *ast),
            state_valid(final(self)@, ast.tokens@.len() as int),
            type_valid(final(self)@, r, ast.tokens@.len() as int),
    {
        let ghost st = self@;
        let source = self.source;
        let operator = ast.token_range(index);
        match (left, right) {
            (Type::Rational(a), Type::Rational(b)) => {
                let x = &self.rationals[a.0];
                let y = &self.rationals[b.0];
                assert(x@ == texts_of(st, a) && y@ == texts_of(st, b));
                Type::Boolean(rational_eq(x, y))
            },
            (Type::Boolean(a), Type::Boolean(b)) => Type::Boolean(a == b),
            (Type::Nothing, Type::Nothing) => Type::Boolean(true),
            (Type::Undefined { .. }, Type::Undefined { .. }) => Type::Boolean(true),
            (Type::Missing, Type::Missing) => {
                self.report(CheckError::MissingLeftOperand { source, operator });
                self.report(CheckError::MissingRightOperand { source, operator });
                Type::Error
            },
            (Type::Missing, _) => {
                self.report(CheckError::MissingLeftOperand { source, operator })
            },
            (_, Type::Missing) => {
                self.report(CheckError::MissingRightOperand { source, operator })
            },
            (Type::Error, _) | (_, Type::Error) => Type::Error,
            _ => Type::Boolean(false),
        }
    }

    fn unary_report(
        &mut self,
        operand: Type,
        kind: OperandKind,
        is_postfix: bool,
        index: AstIndex,
        ast: &Ast<Token>,
    )
        requires
            ast.wf(),
            index.0 < ast.tokens@.len(),
            state_valid(old(self)@, ast.tokens@.len() as int),
            type_valid(old(self)@, operand, ast.tokens@.len() as int),
        ensures
            final(self)@ == unary_report(old(self)@, operand, kind, is_postfix, index, *ast),
            final(self).rationals@ == old(self).rationals@,
            state_valid(final(self)@, ast.tokens@.len() as int),
    {
        let operator = ast.token_range(index);
        match operand {
            Type::Error => {},
            Type::Undefined { reference_source, reference_index } => {
                let reference = ast.token_range(reference_index);
                self.report(CheckError::PropertyNotSet { source: reference_source, reference });
            },
            Type::Rational(_) => {
                if kind != OperandKind::Numeric {
                    self.report_bad_type(operand, is_postfix, operator);
                }
            },
            Type::Boolean(_) => {
                if kind != OperandKind::Boolean {
                    self.report_bad_type(operand, is_postfix, operator);
                }
            },
            _ => {
                self.report_bad_type(operand, is_postfix, operator);
            },
        }
    }

    /// The number operand of a numeric prefix operator.
    pub fn check_numeric_prefix_argument(&mut self, operand: Type, index: AstIndex, ast: &Ast<Token>) -> (r:
        Option<RationalIndex>)
        requires
            ast.wf(),
            index.0 < ast.tokens@.len(),
            state_valid(old(self)@, ast.tokens@.len() as int),
            type_valid(old(self)@, operand, ast.tokens@.len() as int),
        ensures
            final(self)@ == unary_report(old(self)@, operand, OperandKind::Numeric, false, index, *ast),
            final(self).rationals@ == old(self).rationals@,
            state_valid(final(self)@, ast.tokens@.len() as int),
            r == (match operand {
                Type::Rational(a) => Some(a),
                _ => None,
            }),
    {
        self.unary_report(operand, OperandKind::Numeric, false, index, ast);
        match operand {
            Type::Rational(a) => Some(a),
            _ => None,
        }
    }

    /// The integer operand of a prefix increment or decrement.
    pub fn check_integer_prefix_argument(&mut self, operand: Type, index: AstIndex, ast: &Ast<Token>) -> (r:
        Option<RationalIndex>)
        requires
            ast.wf(),
            index.0 < ast.tokens@.len(),
            state_valid(old(self)@, ast.tokens@.len() as int),
            type_valid(old(self)@, operand, ast.tokens@.len() as int),
        ensures
            final(self)@ == unary_report(old(self)@, operand, OperandKind::Numeric, false, index, *ast),
            final(self).rationals@ == old(self).rationals@,
            state_valid(final(self)@, ast.tokens@.len() as int),
            r == (match operand {
                Type::Rational(a) => if text_value(texts_of(old(self)@, a)).0 % text_value(
                    texts_of(old(self)@, a),
                ).1 == 0 {
                    Some(a)
                } else {
                    None
                },
                _ => None,
            }),
    {
        self.integer_argument(operand, false, index, ast)
    }

    /// The integer operand of a postfix increment or decrement.
    pub fn check_integer_postfix_argument(&mut self, operand: Type, index: AstIndex, ast: &Ast<Token>) -> (r:
        Option<RationalIndex>)
        requires
            ast.wf(),
            index.0 < ast.tokens@.len(),
            state_valid(old(self)@, ast.tokens@.len() as int),
            type_valid(old(self)@, operand, ast.tokens@.len() as int),
        ensures
            final(self)@ == unary_report(old(self)@, operand, OperandKind::Numeric, true, index, *ast),
            final(self).rationals@ == old(self).rationals@,
            state_valid(final(self)@, ast.tokens@.len() as int),
            r == (match operand {
                Type::Rational(a) => if text_value(texts_of(old(self)@, a)).0 % text_value(
                    texts_of(old(self)@, a),
                ).1 == 0 {
                    Some(a)
                } else {
                    None
                },
                _ => None,
            }),
    {
        self.integer_argument(operand, true, index, ast)
    }

    fn integer_argument(&mut self, operand: Type, is_postfix: bool, index: AstIndex, ast: &Ast<Token>) -> (r:
        Option<RationalIndex>)
        requires
            ast.wf(),
            index.0 < ast.tokens@.len(),
            state_valid(old(self)@, ast.tokens@.len() as int),
            type_valid(old(self)@, operand, ast.tokens@.len() as int),
        ensures
            final(self)@ == unary_report(old(self)@, operand, OperandKind::Numeric, is_postfix, index, *ast),
            final(self).rationals@ == old(self).rationals@,
            state_valid(final(self)@, ast.tokens@.len() as int),
            r == (match operand {
                Type::Rational(a) => if text_value(texts_of(old(self)@, a)).0 % text_value(
                    texts_of(old(self)@, a),
                ).1 == 0 {
                    Some(a)
                } else {
                    None
                },
                _ => None,
            }),
    {
        let ghost st = self@;
        self.unary_report(operand, OperandKind::Numeric, is_postfix, index, ast);
        match operand {
            Type::Rational(a) => {
                assert(self.rationals@[a.0 as int]@ == texts_of(st, a));
                if rational_is_integer(&self.rationals[a.0]) {
                    Some(a)
                } else {
                    None
                }
            },
            _ => None,
        }
    }

    /// The boolean operand of `!`.
    pub fn check_boolean_prefix_argument(&mut self, operand: Type, index: AstIndex, ast: &Ast<Token>) -> (r:
        Option<bool>)
        requires
            ast.wf(),
            index.0 < ast.tokens@.len(),
            state_valid(old(self)@, ast.tokens@.len() as int),
            type_valid(old(self)@, operand, ast.tokens@.len() as int),
        ensures
            final(self)@ == unary_report(old(self)@, operand, OperandKind::Boolean, false, index, *ast),
            final(self).rationals@ == old(self).rationals@,
            state_valid(final(self)@, ast.tokens@.len() as int),
            r == (match operand {
                Type::Boolean(b) => Some(b),
                _ => None,
            }),
    {
        self.unary_report(operand, OperandKind::Boolean, false, index, ast);
        match operand {
            Type::Boolean(b) => Some(b),
            _ => None,
        }
    }

    /// `+x` and `-x`.
    pub fn check_numeric_prefix(
        &mut self,
        prefix: NumericPrefix,
        operand: Type,
        index: AstIndex,
        ast: &Ast<Token>,
    ) -> (r: Type)
        requires
            ast.wf(),
            index.0 < ast.tokens@.len(),
            state_valid(old(self)@, ast.tokens@.len() as int),
            type_valid(old(self)@, operand, ast.tokens@.len() as int),
        ensures
            (r, final(self)@) == spec_numeric_prefix(old(self)@, prefix, operand, index, *ast),
            state_valid(final(self)@, ast.tokens@.len() as int),
            type_valid(final(self)@, r, ast.tokens@.len() as int),
    {
        let ghost token_count = ast.tokens@.len() as int;
        let ghost st = self@;
        match self.check_numeric_prefix_argument(operand, index, ast) {
            Some(a) => match prefix {
                NumericPrefix::Positive => Type::Rational(a),
                NumericPrefix::Negative => {
                    assert(self.rationals@[a.0 as int]@ == texts_of(st, a));
                    let value = rational_neg(&self.rationals[a.0]);
                    self.push_rational(value, Ghost(token_count))
                },
            },
            None => Type::Error,
        }
    }

    fn step(&mut self, step: Step, a: RationalIndex, Ghost(token_count): Ghost<int>) -> (r: Type)
        requires
            state_valid(old(self)@, token_count),
            a.0 < old(self)@.rationals.len(),
        ensures
            (r, final(self)@) == with_rational(
                old(self)@,
                match step {
                    Step::Increment => spec_sum(texts_of(old(self)@, a), one_texts()),
                    Step::Decrement => spec_difference(texts_of(old(self)@, a), one_texts()),
                },
            ),
            state_valid(final(self)@, token_count),
            type_valid(final(self)@, r, token_count),
    {
        let one = rational_one();
        let x = &self.rationals[a.0];
        assert(x@ == texts_of(self@, a));
        let value = match step {
            Step::Increment => rational_add(x, &one),
            Step::Decrement => rational_sub(x, &one),
        };
        self.push_rational(value, Ghost(token_count))
    }

    /// `++x` and `--x` without the assignment: the integer plus or minus one.
    pub fn check_integer_prefix(&mut self, step: Step, operand: Type, index: AstIndex, ast: &Ast<Token>) -> (r:
        Type)
        requires
            ast.wf(),
            index.0 < ast.tokens@.len(),
            state_valid(old(self)@, ast.tokens@.len() as int),
            type_valid(old(self)@, operand, ast.tokens@.len() as int),
        ensures
            (r, final(self)@) == spec_integer_step(old(self)@, step, operand, false, index, *ast),
            state_valid(final(self)@, ast.tokens@.len() as int),
            type_valid(final(self)@, r, ast.tokens@.len() as int),
    {
        match self.check_integer_prefix_argument(operand, index, ast) {
            Some(a) => self.step(step, a, Ghost(ast.tokens@.len() as int)),
            None => Type::Error,
        }
    }

    /// `x++` and `x--` without the assignment: the integer plus or minus one.
    pub fn check_integer_postfix(&mut self, step: Step, operand: Type, index: AstIndex, ast: &Ast<Token>) -> (r:
        Type)
        requires
            ast.wf(),
            index.0 < ast.tokens@.len(),
            state_valid(old(self)@, ast.tokens@.len() as int),
            type_valid(old(self)@, operand, ast.tokens@.len() as int),
        ensures
            (r, final(self)@) == spec_integer_step(old(self)@, step, operand, true, index, *ast),
            state_valid(final(self)@, ast.tokens@.len() as int),
            type_valid(final(self)@, r, ast.tokens@.len() as int),
    {
        match self.check_integer_postfix_argument(operand, index, ast) {
            Some(a) => self.step(step, a, Ghost(ast.tokens@.len() as int)),
            None => Type::Error,
        }
    }

    /// `!x`.
    pub fn check_boolean_prefix(&mut self, operand: Type, index: AstIndex, ast: &Ast<Token>) -> (r: Type)
        requires
            ast.wf(),
            index.0 < ast.tokens@.len(),
            state_valid(old(self)@, ast.tokens@.len() as int),
            type_valid(old(self)@, operand, ast.tokens@.len() as int),
        ensures
            (r, final(self)@) == spec_boolean_prefix(old(self)@, operand, index, *ast),
            state_valid(final(self)@, ast.tokens@.len() as int),
            type_valid(final(self)@, r, ast.tokens@.len() as int),
    {
        match self.check_boolean_prefix_argument(operand, index, ast) {
            Some(b) => Type::Boolean(!b),
            None => Type::Error,
        }
    }

    /// Assigns `value` to the property at `property_index`.
    pub fn assign_value(&mut self, value: Type, property_index: AstIndex, ast: &Ast<Token>) -> (r:
        Option<Type>)
        requires
            ast.wf(),
            property_index.0 < ast.tokens@.len(),
            state_valid(old(self)@, ast.tokens@.len() as int),
            type_valid(old(self)@, value, ast.tokens@.len() as int),
        ensures
            (r, final(self)@) == spec_assign_value(old(self)@, value, property_index.0 as int, *ast),
            state_valid(final(self)@, ast.tokens@.len() as int),
            final(self).rationals@ == old(self).rationals@,
    {
        let ghost token_count = ast.tokens@.len() as int;
        match ast.token(property_index) {
            Token::PropertyReference(identifier) => {
                let is_declared = if self.scope.get(identifier).is_some() {
                    true
                } else if property_index.0 == 0 {
                    false
                } else if ast.token(AstIndex(property_index.0 - 1)) == Token::PrefixOperator(
                    IdentifierIndex(COLON),
                ) {
                    true
                } else {
                    false
                };
                if !is_declared {
                    let source = self.source;
                    let reference = ast.token_range(property_index);
                    self.report(CheckError::NoSuchProperty { source, reference });
                }
                self.set_property(identifier, value, Ghost(token_count));
                Some(Type::Nothing)
            },
            Token::MissingExpression => Some(Type::Error),
            _ => None,
        }
    }

    /// `a = value` for the assignment operator at `index`.
    pub fn assign(&mut self, right: Type, index: AstIndex, ast: &Ast<Token>) -> (r: Type)
        requires
            ast.wf(),
            1 <= index.0 < ast.tokens@.len(),
            state_valid(old(self)@, ast.tokens@.len() as int),
            type_valid(old(self)@, right, ast.tokens@.len() as int),
        ensures
            (r, final(self)@) == spec_assign(old(self)@, right, index, *ast),
            state_valid(final(self)@, ast.tokens@.len() as int),
            type_valid(final(self)@, r, ast.tokens@.len() as int),
    {
        let left_index = AstIndex(index.0 - 1);
        match self.assign_value(right, left_index, ast) {
            Some(t) => t,
            None => {
                let source = self.source;
                let left = ast.token_range(left_index);
                let operator = ast.token_range(index);
                self.report(CheckError::LeftSideOfAssignmentMustBeIdentifier { source, left, operator })
            },
        }
    }

    /// `a op= right`: the operation, then the assignment.
    pub fn assign_operation(
        &mut self,
        operation: IdentifierIndex,
        left: Type,
        right: Type,
        index: AstIndex,
        ast: &Ast<Token>,
    ) -> (r: Type)
        requires
            ast.wf(),
            1 <= index.0 < ast.tokens@.len(),
            state_valid(old(self)@, ast.tokens@.len() as int),
            type_valid(old(self)@, left, ast.tokens@.len() as int),
            type_valid(old(self)@, right, ast.tokens@.len() as int),
        ensures
            ({
                let (value, after) = spec_check_infix(
                    old(self)@,
                    InfixToken::InfixOperator(operation),
                    left,
                    right,
                    index,
                    *ast,
                );
                (r, final(self)@) == spec_assign(after, value, index, *ast)
            }),
            state_valid(final(self)@, ast.tokens@.len() as int),
            type_valid(final(self)@, r, ast.tokens@.len() as int),
        decreases 1int, 0int,
    {
        let value = self.check_infix(InfixToken::InfixOperator(operation), left, right, index, ast);
        self.assign(value, index, ast)
    }

    /// `a++` / `a--` at `index`.
    pub fn assign_integer_postfix(&mut self, step: Step, operand: Type, index: AstIndex, ast: &Ast<Token>) -> (r:
        Type)
        requires
            ast.wf(),
            1 <= index.0 < ast.tokens@.len(),
            state_valid(old(self)@, ast.tokens@.len() as int),
            type_valid(old(self)@, operand, ast.tokens@.len() as int),
        ensures
            (r, final(self)@) == spec_assign_integer_postfix(old(self)@, step, operand, index, *ast),
            state_valid(final(self)@, ast.tokens@.len() as int),
            type_valid(final(self)@, r, ast.tokens@.len() as int),
    {
        let value = self.check_integer_postfix(step, operand, index, ast);
        let left_index = AstIndex(index.0 - 1);
        match self.assign_value(value, left_index, ast) {
            Some(t) => t,
            None => {
                let source = self.source;
                let left = ast.token_range(left_index);
                let operator = ast.token_range(index);
                self.report(
                    CheckError::LeftSideOfIncrementOrDecrementMustBeIdentifier { source, left, operator },
                )
            },
        }
    }

    /// `++a` / `--a` at `index`.
    pub fn assign_integer_prefix(&mut self, step: Step, operand: Type, index: AstIndex, ast: &Ast<Token>) -> (r:
        Type)
        requires
            ast.wf(),
            index.0 + 1 < ast.tokens@.len(),
            state_valid(old(self)@, ast.tokens@.len() as int),
            type_valid(old(self)@, operand, ast.tokens@.len() as int),
        ensures
            (r, final(self)@) == spec_assign_integer_prefix(old(self)@, step, operand, index, *ast),
            state_valid(final(self)@, ast.tokens@.len() as int),
            type_valid(final(self)@, r, ast.tokens@.len() as int),
    {
        let value = self.check_integer_prefix(step, operand, index, ast);
        let right_index = AstIndex(index.0 + 1);
        match self.assign_value(value, right_index, ast) {
            Some(t) => t,
            None => {
                let source = self.source;
                let right = ast.token_range(right_index);
                let operator = ast.token_range(index);
                self.report(
                    CheckError::RightSideOfIncrementOrDecrementMustBeIdentifier {
                        source,
                        right,
                        operator,
                    },
                )
            },
        }
    }

    /// `:a` at `index`.
    pub fn check_declaration(&mut self, value: Type, index: AstIndex, ast: &Ast<Token>) -> (r: Type)
        requires
            ast.wf(),
            index.0 + 1 < ast.tokens@.len(),
            state_valid(old(self)@, ast.tokens@.len() as int),
            type_valid(old(self)@, value, ast.tokens@.len() as int),
        ensures
            (r, final(self)@) == spec_declaration(old(self)@, value, index, *ast),
            state_valid(final(self)@, ast.tokens@.len() as int),
            type_valid(final(self)@, r, ast.tokens@.len() as int),
    {
        let ghost token_count = ast.tokens@.len() as int;
        if let Token::PropertyReference(property) = ast.token(AstIndex(index.0 + 1)) {
            if index.0 > 0 {
                match ast.token(AstIndex(index.0 - 1)) {
                    Token::PrefixOperator(op) => {
                        if op.0 == PLUS_PLUS || op.0 == DASH_DASH {
                            return value;
                        }
                        self.set_property(property, value, Ghost(token_count));
                        return value;
                    },
                    _ => {},
                }
            }
            if (index.0 as u64) + 2 < ast.tokens.len() as u64 {
                match ast.token(AstIndex(index.0 + 2)) {
                    Token::InfixAssignment(_) => {
                        return value;
                    },
                    Token::PostfixOperator(op) => {
                        if op.0 == PLUS_PLUS || op.0 == DASH_DASH {
                            return value;
                        }
                    },
                    _ => {},
                }
            }
            self.set_property(property, value, Ghost(token_count));
            value
        } else {
            let source = self.source;
            let operator = ast.token_range(index);
            self.report(CheckError::UnrecognizedOperator { source, operator, fixity: Fixity::Prefix })
        }
    }

    /// The infix operator at `index` on operand types `left` and `right`.
    pub fn check_infix(
        &mut self,
        token: InfixToken,
        left: Type,
        right: Type,
        index: AstIndex,
        ast: &Ast<Token>,
    ) -> (r: Type)
        requires
            ast.wf(),
            infix_index_ok(token, index, *ast),
            state_valid(old(self)@, ast.tokens@.len() as int),
            type_valid(old(self)@, left, ast.tokens@.len() as int),
            type_valid(old(self)@, right, ast.tokens@.len() as int),
        ensures
            (r, final(self)@) == spec_check_infix(old(self)@, token, left, right, index, *ast),
            state_valid(final(self)@, ast.tokens@.len() as int),
            type_valid(final(self)@, r, ast.tokens@.len() as int),
        decreases infix_rank(token), 1int,
    {
        match token {
            InfixToken::InfixOperator(op) => {
                let o = op.0;
                if o == PLUS {
                    self.check_numeric_binary(NumericOperation::Add, left, right, index, ast)
                } else if o == DASH {
                    self.check_numeric_binary(NumericOperation::Subtract, left, right, index, ast)
                } else if o == STAR {
                    self.check_numeric_binary(NumericOperation::Multiply, left, right, index, ast)
                } else if o == SLASH {
                    self.check_divide(left, right, index, ast)
                } else if o == EQUAL_TO {
                    self.check_equal_to(left, right, index, ast)
                } else if o == NOT_EQUAL_TO {
                    match self.check_equal_to(left, right, index, ast) {
                        Type::Boolean(value) => Type::Boolean(!value),
                        value => value,
                    }
                } else if o == GREATER_THAN {
                    self.check_numeric_comparison(Comparison::Greater, left, right, index, ast)
                } else if o == LESS_THAN {
                    self.check_numeric_comparison(Comparison::Less, left, right, index, ast)
                } else if o == GREATER_EQUAL {
                    self.check_numeric_comparison(Comparison::GreaterOrEqual, left, right, index, ast)
                } else if o == LESS_EQUAL {
                    self.check_numeric_comparison(Comparison::LessOrEqual, left, right, index, ast)
                } else if o == AND_AND {
                    self.check_boolean_binary(BooleanOperation::And, left, right, index, ast)
                } else if o == OR_OR {
                    self.check_boolean_binary(BooleanOperation::Or, left, right, index, ast)
                } else if o == SEMICOLON {
                    right
                } else {
                    let source = self.source;
                    let operator = ast.token_range(index);
                    self.report(CheckError::UnrecognizedOperator { source, operator, fixity: Fixity::Infix })
                }
            },
            InfixToken::NewlineSequence => right,
            InfixToken::InfixAssignment(op) => {
                if op.0 == EMPTY_STRING {
                    self.assign(right, index, ast)
                } else {
                    self.assign_operation(op, left, right, index, ast)
                }
            },
            InfixToken::MissingInfix => Type::Error,
        }
    }

    /// Visits an infix operator: reports missing operands, then checks it.
    pub fn visit_infix(
        &mut self,
        token: InfixToken,
        left: Type,
        right: Type,
        index: AstIndex,
        ast: &Ast<Token>,
    ) -> (r: Type)
        requires
            ast.wf(),
            infix_index_ok(token, index, *ast),
            state_valid(old(self)@, ast.tokens@.len() as int),
            type_valid(old(self)@, left, ast.tokens@.len() as int),
            type_valid(old(self)@, right, ast.tokens@.len() as int),
        ensures
            (r, final(self)@) == spec_visit_infix(old(self)@, token, left, right, index, *ast),
            state_valid(final(self)@, ast.tokens@.len() as int),
            type_valid(final(self)@, r, ast.tokens@.len() as int),
    {
        let source = self.source;
        let operator = ast.token_range(index);
        let mut left = left;
        let mut right = right;
        if left == Type::Missing {
            self.report(CheckError::MissingLeftOperand { source, operator });
            left = Type::Error;
        }
        if right == Type::Missing {
            if token != InfixToken::InfixOperator(IdentifierIndex(SEMICOLON)) {
                self.report(CheckError::MissingRightOperand { source, operator });
                right = Type::Error;
            }
        }
        self.check_infix(token, left, right, index, ast)
    }

    /// Visits a prefix operator.
    pub fn visit_prefix(
        &mut self,
        prefix: IdentifierIndex,
        operand: Type,
        index: AstIndex,
        ast: &Ast<Token>,
    ) -> (r: Type)
        requires
            ast.wf(),
            prefix_index_ok(prefix, index, *ast),
            state_valid(old(self)@, ast.tokens@.len() as int),
            type_valid(old(self)@, operand, ast.tokens@.len() as int),
        ensures
            (r, final(self)@) == spec_visit_prefix(old(self)@, prefix, operand, index, *ast),
            state_valid(final(self)@, ast.tokens@.len() as int),
            type_valid(final(self)@, r, ast.tokens@.len() as int),
    {
        let source = self.source;
        let operator = ast.token_range(index);
        let mut operand = operand;
        if operand == Type::Missing {
            self.report(CheckError::MissingRightOperand { source, operator });
            operand = Type::Error;
        }
        let p = prefix.0;
        if p == COLON {
            self.check_declaration(operand, index, ast)
        } else if p == PLUS {
            self.check_numeric_prefix(NumericPrefix::Positive, operand, index, ast)
        } else if p == DASH {
            self.check_numeric_prefix(NumericPrefix::Negative, operand, index, ast)
        } else if p == NOT {
            self.check_boolean_prefix(operand, index, ast)
        } else if p == PLUS_PLUS {
            self.assign_integer_prefix(Step::Increment, operand, index, ast)
        } else if p == DASH_DASH {
            self.assign_integer_prefix(Step::Decrement, operand, index, ast)
        } else {
            self.report(CheckError::UnrecognizedOperator { source, operator, fixity: Fixity::Prefix })
        }
    }

    /// Visits a postfix operator.
    pub fn visit_postfix(
        &mut self,
        postfix: IdentifierIndex,
        operand: Type,
        index: AstIndex,
        ast: &Ast<Token>,
    ) -> (r: Type)
        requires
            ast.wf(),
            postfix_index_ok(postfix, index, *ast),
            state_valid(old(self)@, ast.tokens@.len() as int),
            type_valid(old(self)@, operand, ast.tokens@.len() as int),
        ensures
            (r, final(self)@) == spec_visit_postfix(old(self)@, postfix, operand, index, *ast),
            state_valid(final(self)@, ast.tokens@.len() as int),
            type_valid(final(self)@, r, ast.tokens@.len() as int),
    {
        let p = postfix.0;
        if p == PLUS_PLUS {
            self.assign_integer_postfix(Step::Increment, operand, index, ast)
        } else if p == DASH_DASH {
            self.assign_integer_postfix(Step::Decrement, operand, index, ast)
        } else {
            let source = self.source;
            let operator = ast.token_range(index);
            self.report(CheckError::UnrecognizedOperator { source, operator, fixity: Fixity::Postfix })
        }
    }

    /// Visits parentheses: empty parentheses are nothing.
    pub fn visit_parentheses(&self, value: Type) -> (r: Type)
        ensures
            r == (if value == Type::Missing {
                Type::Nothing
            } else {
                value
            }),
    {
        if value == Type::Missing {
            Type::Nothing
        } else {
            value
        }
    }

    /// Visits a term.
    pub fn visit_term(&mut self, token: TermToken, index: AstIndex, ast: &Ast<Token>) -> (r: Type)
        requires
            ast.wf(),
            term_ok(token, index, *ast),
            state_valid(old(self)@, ast.tokens@.len() as int),
        ensures
            (r, final(self)@) == spec_visit_term(old(self)@, token, index, *ast),
            state_valid(final(self)@, ast.tokens@.len() as int),
            type_valid(final(self)@, r, ast.tokens@.len() as int),
    {
        let ghost token_count = ast.tokens@.len() as int;
        match token {
            TermToken::IntegerLiteral(literal) => {
                let string = ast.literal_string(literal);
                let value = rational_from_str(string);
                self.push_rational(value, Ghost(token_count))
            },
            TermToken::PropertyReference(identifier) => {
                if let Some(value) = self.scope.get(identifier) {
                    value
                } else if (index.0 as u64) + 1 < ast.tokens.len() as u64 && ast.token(AstIndex(index.0 + 1))
                    == Token::InfixAssignment(IdentifierIndex(EMPTY_STRING)) {
                    Type::Undefined { reference_source: self.source(), reference_index: index }
                } else if index.0 > 0 && ast.token(AstIndex(index.0 - 1)) == Token::PrefixOperator(
                    IdentifierIndex(COLON),
                ) {
                    Type::Undefined { reference_source: self.source(), reference_index: index }
                } else {
                    let source = self.source;
                    let reference = ast.token_range(index);
                    self.report(CheckError::NoSuchProperty { source, reference })
                }
            },
            TermToken::SyntaxErrorTerm(_) => Type::Error,
            TermToken::MissingExpression => Type::Missing,
        }
    }
}

} // verus!
