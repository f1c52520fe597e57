use berg_compiler::ast::Ast;
use berg_compiler::char_data::ByteRange;
use berg_compiler::checker::{
    check_result, CheckError, Checker, InfixToken, SourceIndex, TermToken, Token, Type,
};
use berg_compiler::identifiers::{known_identifiers, COLON, DASH, FALSE, PLUS, TRUE};
use berg_compiler::index::{AstIndex, IdentifierIndex};
use berg_compiler::syntax::Fixity;

#[derive(PartialEq, Clone, Copy)]
enum Class {
    Digit,
    Alpha,
    Other,
}

fn class(b: u8) -> Class {
    if b.is_ascii_digit() {
        Class::Digit
    } else if b.is_ascii_alphabetic() {
        Class::Alpha
    } else {
        Class::Other
    }
}

/// Splits a source into runs of digits, letters and operator characters.
fn runs(source: &str) -> Vec<(Class, String, usize, usize)> {
    let bytes = source.as_bytes();
    let mut result = Vec::new();
    let mut start = 0;
    while start < bytes.len() {
        let c = class(bytes[start]);
        let mut end = start + 1;
        while end < bytes.len() && class(bytes[end]) == c {
            end += 1;
        }
        result.push((c, source[start..end].to_string(), start, end));
        start = end;
    }
    result
}

fn infix_token(ast: &mut Ast<Token>, text: &str) -> Token {
    let comparison = ["==", "!=", ">=", "<="].contains(&text);
    if text.ends_with('=') && !comparison {
        Token::InfixAssignment(ast.intern_identifier(&text[..text.len() - 1]))
    } else {
        Token::InfixOperator(ast.intern_identifier(text))
    }
}

/// The tokens of a flat expression: an optional prefix operator, then terms
/// joined by infix operators, then an optional postfix operator.
fn parse(source: &str) -> Ast<Token> {
    let mut ast = Ast::new(known_identifiers(), &Vec::new());
    let parts = runs(source);
    let mut expect_term = true;
    for (i, (c, text, start, end)) in parts.iter().enumerate() {
        let range = ByteRange { start: *start, end: *end };
        match c {
            Class::Digit => {
                let literal = ast.intern_literal(text);
                ast.push_token(Token::IntegerLiteral(literal), range);
                expect_term = false;
            }
            Class::Alpha => {
                let name = ast.intern_identifier(text);
                ast.push_token(Token::PropertyReference(name), range);
                expect_term = false;
            }
            Class::Other => {
                if expect_term {
                    let op = ast.intern_identifier(text);
                    ast.push_token(Token::PrefixOperator(op), range);
                    if i + 1 == parts.len() {
                        ast.push_token(Token::MissingExpression, ByteRange { start: *end, end: *end });
                    }
                } else if i + 1 == parts.len() {
                    let op = ast.intern_identifier(text);
                    ast.push_token(Token::PostfixOperator(op), range);
                } else {
                    let token = infix_token(&mut ast, text);
                    ast.push_token(token, range);
                    expect_term = true;
                }
            }
        }
    }
    ast
}

fn term(checker: &mut Checker, ast: &Ast<Token>, index: usize) -> Type {
    let token = match ast.tokens[index] {
        Token::IntegerLiteral(l) => TermToken::IntegerLiteral(l),
        Token::PropertyReference(p) => TermToken::PropertyReference(p),
        Token::MissingExpression => TermToken::MissingExpression,
        _ => panic!("not a term"),
    };
    checker.visit_term(token, AstIndex(index as u32), ast)
}

/// Checks a flat expression left to right, as the expression walker visits it.
fn check(source: &str) -> (Type, Checker) {
    let ast = parse(source);
    let mut checker = Checker::new(SourceIndex(0));
    let n = ast.tokens.len();
    let mut index;
    let mut value = match ast.tokens[0] {
        Token::PrefixOperator(p) => {
            let operand = term(&mut checker, &ast, 1);
            index = 2;
            checker.visit_prefix(p, operand, AstIndex(0), &ast)
        }
        _ => {
            index = 1;
            term(&mut checker, &ast, 0)
        }
    };
    while index < n {
        match ast.tokens[index] {
            Token::InfixOperator(op) => {
                let right = term(&mut checker, &ast, index + 1);
                value = checker.visit_infix(InfixToken::InfixOperator(op), value, right, AstIndex(index as u32), &ast);
                index += 2;
            }
            Token::InfixAssignment(op) => {
                let right = term(&mut checker, &ast, index + 1);
                value = checker.visit_infix(InfixToken::InfixAssignment(op), value, right, AstIndex(index as u32), &ast);
                index += 2;
            }
            Token::PostfixOperator(op) => {
                value = checker.visit_postfix(op, value, AstIndex(index as u32), &ast);
                index += 1;
            }
            _ => panic!("unexpected token"),
        }
    }
    (check_result(value), checker)
}

fn number(checker: &Checker, t: Type) -> String {
    match t {
        Type::Rational(i) => {
            let r = &checker.rationals[i.0];
            if r.denominator == "1" {
                r.numerator.clone()
            } else {
                format!("{}/{}", r.numerator, r.denominator)
            }
        }
        other => panic!("not a number: {:?}", other),
    }
}

fn result(source: &str) -> String {
    let (t, checker) = check(source);
    assert!(checker.errors.is_empty(), "errors in {}: {:?}", source, checker.errors);
    number(&checker, t)
}

fn boolean(source: &str) -> bool {
    let (t, checker) = check(source);
    assert!(checker.errors.is_empty(), "errors in {}: {:?}", source, checker.errors);
    match t {
        Type::Boolean(b) => b,
        other => panic!("not a boolean: {:?}", other),
    }
}

fn range(start: usize, end: usize) -> ByteRange {
    ByteRange { start, end }
}

#[test]
fn additions() {
    assert_eq!(result("0+0"), "0");
    assert_eq!(result("0+1"), "1");
    assert_eq!(result("1+0"), "1");
    assert_eq!(result("1+1"), "2");
    assert_eq!(result("123+123"), "246");
    assert_eq!(result("1+2+3"), "6");
}

#[test]
fn subtractions() {
    assert_eq!(result("0-0"), "0");
    assert_eq!(result("1-1"), "0");
    assert_eq!(result("2-1"), "1");
    assert_eq!(result("1-2"), "-1");
    assert_eq!(result("1-0"), "1");
    assert_eq!(result("369-123"), "246");
    assert_eq!(result("6-2-1"), "3");
}

#[test]
fn multiplications() {
    assert_eq!(result("0*0"), "0");
    assert_eq!(result("0*1"), "0");
    assert_eq!(result("1*0"), "0");
    assert_eq!(result("1*1"), "1");
    assert_eq!(result("11*11"), "121");
    assert_eq!(result("2*3*4"), "24");
}

#[test]
fn mixed_arithmetic() {
    assert_eq!(result("2*3+4"), "10");
    assert_eq!(result("-2*3+4"), "-2");
    assert_eq!(result("+2*3+4"), "10");
    assert_eq!(result("0+0-0"), "0");
    assert_eq!(result("-0+0-0"), "0");
    assert_eq!(result("+0+0-0"), "0");
    assert_eq!(result("1+2-3"), "0");
    assert_eq!(result("-1+2-3"), "-2");
    assert_eq!(result("+1+2-3"), "0");
    assert_eq!(result("0-0+0"), "0");
    assert_eq!(result("-0-0+0"), "0");
    assert_eq!(result("+0-0+0"), "0");
    assert_eq!(result("1-2+3"), "2");
    assert_eq!(result("-1-2+3"), "0");
    assert_eq!(result("+1-2+3"), "2");
}

#[test]
fn signs() {
    assert_eq!(result("-0"), "0");
    assert_eq!(result("-1"), "-1");
    assert_eq!(result("+0"), "0");
    assert_eq!(result("+1"), "1");
}

#[test]
fn division_is_exact() {
    assert_eq!(result("6/4"), "3/2");
    assert_eq!(result("8/2"), "4");
    assert_eq!(result("1/3*3"), "1");
}

#[test]
fn divide_by_zero() {
    let (t, checker) = check("1/0");
    assert_eq!(t, Type::Error);
    assert_eq!(checker.errors, vec![CheckError::DivideByZero { source: SourceIndex(0), divide: range(1, 2) }]);
}

#[test]
fn trailing_neg() {
    let (t, checker) = check("0-");
    assert_eq!(t, Type::Error);
    assert_eq!(
        checker.errors,
        vec![CheckError::UnrecognizedOperator { source: SourceIndex(0), operator: range(1, 2), fixity: Fixity::Postfix }]
    );
}

#[test]
fn trailing_pos() {
    let (t, checker) = check("0+");
    assert_eq!(t, Type::Error);
    assert_eq!(
        checker.errors,
        vec![CheckError::UnrecognizedOperator { source: SourceIndex(0), operator: range(1, 2), fixity: Fixity::Postfix }]
    );
}

#[test]
fn neg_only() {
    let (t, checker) = check("-");
    assert_eq!(t, Type::Error);
    assert_eq!(checker.errors, vec![CheckError::MissingRightOperand { source: SourceIndex(0), operator: range(0, 1) }]);
}

#[test]
fn pos_only() {
    let (t, checker) = check("+");
    assert_eq!(t, Type::Error);
    assert_eq!(checker.errors, vec![CheckError::MissingRightOperand { source: SourceIndex(0), operator: range(0, 1) }]);
}

#[test]
fn plus_minus() {
    let (t, checker) = check("1+-2");
    assert_eq!(t, Type::Error);
    assert_eq!(
        checker.errors,
        vec![CheckError::UnrecognizedOperator { source: SourceIndex(0), operator: range(1, 3), fixity: Fixity::Infix }]
    );
}

#[test]
fn greater_than() {
    assert!(!boolean("0>0"));
    assert!(!boolean("1>1"));
    assert!(boolean("1>0"));
    assert!(!boolean("0>1"));
    assert!(!boolean("1>2"));
    assert!(!boolean("1982648372164176312796419487198>1982648372164176312796419487198"));
    assert!(!boolean("1982648372164176312796419487198>99127934712648732164276347216429663"));
    assert!(boolean("99127934712648732164276347216429663>1982648372164176312796419487198"));
}

#[test]
fn greater_or_equal() {
    assert!(boolean("0>=0"));
    assert!(boolean("1>=1"));
    assert!(boolean("1>=0"));
    assert!(!boolean("0>=1"));
    assert!(!boolean("1>=2"));
    assert!(boolean("1982648372164176312796419487198>=1982648372164176312796419487198"));
    assert!(!boolean("1982648372164176312796419487198>=99127934712648732164276347216429663"));
    assert!(boolean("99127934712648732164276347216429663>=1982648372164176312796419487198"));
}

#[test]
fn less_than() {
    assert!(!boolean("0<0"));
    assert!(!boolean("1<1"));
    assert!(!boolean("1<0"));
    assert!(boolean("0<1"));
    assert!(boolean("1<2"));
    assert!(!boolean("1982648372164176312796419487198<1982648372164176312796419487198"));
    assert!(boolean("1982648372164176312796419487198<99127934712648732164276347216429663"));
    assert!(!boolean("99127934712648732164276347216429663<1982648372164176312796419487198"));
}

#[test]
fn less_or_equal() {
    assert!(boolean("0<=0"));
    assert!(boolean("1<=1"));
    assert!(!boolean("1<=0"));
    assert!(boolean("0<=1"));
    assert!(boolean("1<=2"));
    assert!(boolean("1982648372164176312796419487198<=1982648372164176312796419487198"));
    assert!(boolean("1982648372164176312796419487198<=99127934712648732164276347216429663"));
    assert!(!boolean("99127934712648732164276347216429663<=1982648372164176312796419487198"));
}

#[test]
fn equality() {
    assert!(boolean("1==1"));
    assert!(!boolean("1==2"));
    assert!(boolean("1!=2"));
    assert!(!boolean("2!=2"));
    assert!(boolean("true==true"));
    assert!(!boolean("true==false"));
    assert!(!boolean("1==true"));
    assert!(boolean("1!=true"));
    assert_eq!(boolean("3==7"), boolean("7==3"));
    assert!(boolean("2*3==6"));
}

#[test]
fn boolean_operators() {
    assert!(!boolean("true&&false"));
    assert!(boolean("true&&true"));
    assert!(boolean("true||false"));
    assert!(!boolean("false||false"));
    assert!(!boolean("!true"));
    assert!(boolean("!false"));
}

#[test]
fn keywords_are_in_scope() {
    let checker = Checker::new(SourceIndex(3));
    assert_eq!(checker.scope.get(IdentifierIndex(TRUE)), Some(Type::Boolean(true)));
    assert_eq!(checker.scope.get(IdentifierIndex(FALSE)), Some(Type::Boolean(false)));
    assert_eq!(checker.scope.get(IdentifierIndex(PLUS)), None);
    assert_eq!(checker.source(), SourceIndex(3));
}

#[test]
fn bad_operand_types() {
    let (t, checker) = check("1&&true");
    assert_eq!(t, Type::Error);
    assert_eq!(
        checker.errors,
        vec![CheckError::BadTypeLeftOperand { source: SourceIndex(0), operator: range(1, 3), left: Type::Rational(berg_compiler::checker::RationalIndex(0)) }]
    );
    let (t, checker) = check("true+1");
    assert_eq!(t, Type::Error);
    assert_eq!(
        checker.errors,
        vec![CheckError::BadTypeLeftOperand { source: SourceIndex(0), operator: range(4, 5), left: Type::Boolean(true) }]
    );
    let (t, checker) = check("-true");
    assert_eq!(t, Type::Error);
    assert_eq!(
        checker.errors,
        vec![CheckError::BadTypeRightOperand { source: SourceIndex(0), operator: range(0, 1), right: Type::Boolean(true) }]
    );
}

#[test]
fn unknown_property() {
    let (t, checker) = check("x+1");
    assert_eq!(t, Type::Error);
    assert_eq!(checker.errors, vec![CheckError::NoSuchProperty { source: SourceIndex(0), reference: range(0, 1) }]);
}

#[test]
fn assignment_to_undeclared_property() {
    let (t, checker) = check("a=1");
    assert_eq!(t, Type::Nothing);
    assert_eq!(checker.errors, vec![CheckError::NoSuchProperty { source: SourceIndex(0), reference: range(0, 1) }]);
    let mut probe = parse("a");
    let a = probe.intern_identifier("a");
    assert!(matches!(checker.scope.get(a), Some(Type::Rational(_))));
}

#[test]
fn declaration_then_assignment() {
    let (t, checker) = check(":a=7");
    assert_eq!(t, Type::Nothing);
    assert!(checker.errors.is_empty());
    let mut probe = parse(":a");
    let a = probe.intern_identifier("a");
    assert_eq!(a, match probe.tokens[1] {
        Token::PropertyReference(p) => p,
        _ => panic!(),
    });
    assert_eq!(probe.tokens[0], Token::PrefixOperator(IdentifierIndex(COLON)));
    match checker.scope.get(a) {
        Some(t) => assert_eq!(number(&checker, t), "7"),
        None => panic!("a is not set"),
    }
}

#[test]
fn compound_assignment_to_unset_property() {
    let (t, checker) = check(":a+=2");
    assert_eq!(t, Type::Nothing);
    assert_eq!(
        checker.errors,
        vec![CheckError::PropertyNotSet { source: SourceIndex(0), reference: range(1, 2) }]
    );
}

#[test]
fn increment_needs_a_property() {
    let (t, checker) = check("1++");
    assert_eq!(t, Type::Error);
    assert_eq!(
        checker.errors,
        vec![CheckError::LeftSideOfIncrementOrDecrementMustBeIdentifier {
            source: SourceIndex(0),
            left: range(0, 1),
            operator: range(1, 3)
        }]
    );
}

#[test]
fn empty_parentheses_are_nothing() {
    let checker = Checker::new(SourceIndex(0));
    assert_eq!(checker.visit_parentheses(Type::Missing), Type::Nothing);
    assert_eq!(checker.visit_parentheses(Type::Boolean(false)), Type::Boolean(false));
    assert_eq!(check_result(Type::Missing), Type::Nothing);
    assert_eq!(check_result(Type::Error), Type::Error);
}

#[test]
fn negation_gives_lowest_terms() {
    let ast = parse("-4");
    let mut checker = Checker::new(SourceIndex(0));
    checker.rationals.push(berg_compiler::rational::Rational {
        numerator: String::from("4"),
        denominator: String::from("2"),
    });
    let t = checker.visit_prefix(IdentifierIndex(DASH), Type::Rational(berg_compiler::checker::RationalIndex(0)), AstIndex(0), &ast);
    assert_eq!(number(&checker, t), "-2");
}
