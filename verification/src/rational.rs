//! Exact rational numbers, computed with the `num` crate's `BigRational`.
//! The library holds a rational as the decimal texts of its numerator and
//! denominator; each operation hands the texts to `num` and takes back the
//! texts of the result.

use crate::text::{decimal, digit_char};
use num::{BigInt, BigRational, One, Zero};
use vstd::prelude::*;

verus! {

/// The decimal text of an integer, with a leading '-' when it is negative.
pub open spec fn int_text(n: int) -> Seq<char> {
    if n < 0 {
        seq!['-'] + decimal((-n) as nat)
    } else {
        decimal(n as nat)
    }
}

/// The text of a string of decimal digits, read as a number.
pub open spec fn digits_value(s: Seq<char>) -> int
    decreases s.len(),
{
    if s.len() == 0 {
        0
    } else {
        digits_value(s.drop_last()) * 10 + (s.last() as int - '0' as int)
    }
}

/// A nonempty string of decimal digits.
pub open spec fn is_digits(s: Seq<char>) -> bool {
    s.len() > 0 && forall|i: int| 0 <= i < s.len() ==> '0' <= #[trigger] s[i] <= '9'
}

/// The absolute value of an integer.
pub open spec fn abs(n: int) -> nat {
    if n < 0 {
        (-n) as nat
    } else {
        n as nat
    }
}

/// The greatest common divisor (Euclid's algorithm).
pub open spec fn gcd(a: nat, b: nat) -> nat
    decreases b,
{
    if b == 0 {
        a
    } else {
        gcd(b, a % b)
    }
}

/// The lowest terms of `n/d` with a positive denominator (`d` nonzero).
pub open spec fn reduced(n: int, d: int) -> (int, int) {
    let g = gcd(abs(n), abs(d)) as int;
    let sign = if d < 0 {
        -1int
    } else {
        1int
    };
    ((sign * n) / g, (sign * d) / g)
}

/// The texts of a numerator and a denominator.
pub open spec fn value_texts(value: (int, int)) -> (Seq<char>, Seq<char>) {
    (int_text(value.0), int_text(value.1))
}

/// The numerator and denominator that texts stand for.
pub open spec fn text_value(texts: (Seq<char>, Seq<char>)) -> (int, int) {
    choose|value: (int, int)| texts_stand_for(texts.0, texts.1, value)
}

/// The texts stand for an integer and a positive integer.
pub open spec fn texts_wf(texts: (Seq<char>, Seq<char>)) -> bool {
    exists|value: (int, int)| texts_stand_for(texts.0, texts.1, value)
}

/// The texts of `a + b` in lowest terms.
pub open spec fn spec_sum(a: (Seq<char>, Seq<char>), b: (Seq<char>, Seq<char>)) -> (Seq<char>, Seq<char>) {
    let (an, ad) = text_value(a);
    let (bn, bd) = text_value(b);
    value_texts(reduced(an * bd + bn * ad, ad * bd))
}

/// The texts of `a - b` in lowest terms.
pub open spec fn spec_difference(a: (Seq<char>, Seq<char>), b: (Seq<char>, Seq<char>)) -> (Seq<char>, Seq<char>) {
    let (an, ad) = text_value(a);
    let (bn, bd) = text_value(b);
    value_texts(reduced(an * bd - bn * ad, ad * bd))
}

/// The texts of `a * b` in lowest terms.
pub open spec fn spec_product(a: (Seq<char>, Seq<char>), b: (Seq<char>, Seq<char>)) -> (Seq<char>, Seq<char>) {
    let (an, ad) = text_value(a);
    let (bn, bd) = text_value(b);
    value_texts(reduced(an * bn, ad * bd))
}

/// The texts of `a / b` in lowest terms.
pub open spec fn spec_quotient(a: (Seq<char>, Seq<char>), b: (Seq<char>, Seq<char>)) -> (Seq<char>, Seq<char>) {
    let (an, ad) = text_value(a);
    let (bn, bd) = text_value(b);
    value_texts(reduced(an * bd, ad * bn))
}

/// The texts of `-a` in lowest terms.
pub open spec fn spec_negation(a: (Seq<char>, Seq<char>)) -> (Seq<char>, Seq<char>) {
    let (an, ad) = text_value(a);
    value_texts(reduced(-an, ad))
}

/// Whether `a` and `b` are the same number.
pub open spec fn spec_rational_eq(a: (Seq<char>, Seq<char>), b: (Seq<char>, Seq<char>)) -> bool {
    let (an, ad) = text_value(a);
    let (bn, bd) = text_value(b);
    an * bd == bn * ad
}

/// Whether `a < b`.
pub open spec fn spec_rational_lt(a: (Seq<char>, Seq<char>), b: (Seq<char>, Seq<char>)) -> bool {
    let (an, ad) = text_value(a);
    let (bn, bd) = text_value(b);
    an * bd < bn * ad
}

/// The texts of 1.
pub open spec fn one_texts() -> (Seq<char>, Seq<char>) {
    value_texts((1, 1))
}

/// Reading the decimal digits of `n` back gives `n`.
pub proof fn lemma_decimal_value(n: nat)
    ensures
        digits_value(decimal(n)) == n,
        decimal(n).len() > 0,
        '0' <= decimal(n)[0] <= '9',
    decreases n,
{
    lemma_digit_char(n % 10);
    if n >= 10 {
        lemma_decimal_value(n / 10);
        let d = decimal(n);
        assert(d.drop_last() =~= decimal(n / 10));
        assert(d.last() == digit_char(n % 10));
        assert(d[0] == decimal(n / 10)[0]);
        assert(digits_value(d) == digits_value(d.drop_last()) * 10 + (d.last() as int - '0' as int));
        assert(digits_value(d) == (n / 10) * 10 + n % 10);
    } else {
        let d = decimal(n);
        assert(d.drop_last() =~= Seq::<char>::empty());
        assert(digits_value(d.drop_last()) == 0);
        assert(digits_value(d) == digits_value(d.drop_last()) * 10 + (d.last() as int - '0' as int));
    }
}

/// The character of digit `k` is `k` places after '0'.
proof fn lemma_digit_char(k: nat)
    requires
        k < 10,
    ensures
        digit_char(k) as int == '0' as int + k,
        '0' <= digit_char(k) <= '9',
{
}

/// Different integers have different decimal texts.
pub proof fn lemma_int_text_injective(a: int, b: int)
    requires
        int_text(a) == int_text(b),
    ensures
        a == b,
{
    lemma_decimal_value(abs(a));
    lemma_decimal_value(abs(b));
    if a < 0 && b < 0 {
        assert(int_text(a).drop_first() =~= decimal(abs(a)));
        assert(int_text(b).drop_first() =~= decimal(abs(b)));
    } else if a < 0 {
        assert(int_text(a)[0] == '-');
    } else if b < 0 {
        assert(int_text(b)[0] == '-');
    }
}

/// The texts of a numerator and a positive denominator stand for exactly
/// that pair.
pub proof fn lemma_value_texts_value(value: (int, int))
    requires
        value.1 > 0,
    ensures
        texts_wf(value_texts(value)),
        text_value(value_texts(value)) == value,
{
    let texts = value_texts(value);
    assert(texts_stand_for(texts.0, texts.1, value));
    let v = text_value(texts);
    lemma_int_text_injective(v.0, value.0);
    lemma_int_text_injective(v.1, value.1);
}

/// Adding `k` (an integer) to an integer `n/d` gives the integer `n/d + k`,
/// in lowest terms: the result stands for `(n/d + k, 1)`.
pub proof fn lemma_integer_plus(x: (Seq<char>, Seq<char>), k: int)
    requires
        texts_wf(x),
        text_value(x).0 % text_value(x).1 == 0,
    ensures
        text_value(spec_sum(x, value_texts((k, 1)))) == (text_value(x).0 / text_value(x).1 + k, 1int),
        text_value(spec_difference(x, value_texts((k, 1)))) == (text_value(x).0 / text_value(x).1 - k, 1int),
{
    let (n, d) = text_value(x);
    assert(texts_stand_for(x.0, x.1, text_value(x)));
    lemma_value_texts_value((k, 1));
    let q = n / d;
    vstd::arithmetic::div_mod::lemma_fundamental_div_mod(n, d);
    assert(n == d * q);
    lemma_integer_reduced(d, q + k);
    lemma_integer_reduced(d, q - k);
    assert(n * 1 + k * d == d * (q + k)) by (nonlinear_arith)
        requires
            n == d * q,
    ;
    assert(n * 1 - k * d == d * (q - k)) by (nonlinear_arith)
        requires
            n == d * q,
    ;
    lemma_value_texts_value((q + k, 1));
    lemma_value_texts_value((q - k, 1));
}

/// `d * m` over `d` (with `d` positive) is `m` over 1 in lowest terms.
proof fn lemma_integer_reduced(d: int, m: int)
    requires
        d > 0,
    ensures
        reduced(d * m, d * 1) == (m, 1int),
{
    let a = abs(d * m);
    assert(a == abs(m) * d) by (nonlinear_arith)
        requires
            d > 0,
            a == abs(d * m),
    ;
    vstd::arithmetic::div_mod::lemma_mod_multiples_basic(abs(m) as int, d);
    assert(a % (d as nat) == 0);
    assert(gcd(0, (a % (d as nat)) as nat) == 0);
    assert(gcd(d as nat, 0) == d);
    assert(gcd(a, d as nat) == gcd(d as nat, a % (d as nat)));
    assert(gcd(abs(d * m), abs(d * 1)) == d);
    vstd::arithmetic::div_mod::lemma_div_multiples_vanish(m, d);
    vstd::arithmetic::div_mod::lemma_div_by_self(d);
}

/// The greatest common divisor divides both numbers, and is positive unless
/// both are zero.
pub proof fn lemma_gcd_divides(a: nat, b: nat)
    ensures
        a > 0 || b > 0 ==> {
            &&& gcd(a, b) > 0
            &&& a % gcd(a, b) == 0
            &&& b % gcd(a, b) == 0
        },
    decreases b,
{
    if b == 0 {
        if a > 0 {
            vstd::arithmetic::div_mod::lemma_mod_self_0(a as int);
        }
    } else {
        let r = a % b;
        lemma_gcd_divides(b, r);
        let g = gcd(b, r);
        assert(gcd(a, b) == g);
        vstd::arithmetic::div_mod::lemma_fundamental_div_mod(b as int, g as int);
        vstd::arithmetic::div_mod::lemma_fundamental_div_mod(r as int, g as int);
        vstd::arithmetic::div_mod::lemma_fundamental_div_mod(a as int, b as int);
        let k1 = b as int / g as int;
        let k2 = r as int / g as int;
        let q = a as int / b as int;
        assert(a == g * (k1 * q + k2)) by (nonlinear_arith)
            requires
                b == g * k1,
                r == g * k2,
                a == b * q + r,
        ;
        vstd::arithmetic::div_mod::lemma_mod_multiples_basic(k1 * q + k2, g as int);
        assert((k1 * q + k2) * g == a) by (nonlinear_arith)
            requires
                a == g * (k1 * q + k2),
        ;
    }
}

/// A fraction `n/d` and its lowest terms are the same number, and the lowest
/// terms have a positive denominator.
pub proof fn lemma_reduced_same_number(n: int, d: int)
    requires
        d != 0,
    ensures
        reduced(n, d).1 > 0,
        reduced(n, d).0 * d == n * reduced(n, d).1,
{
    lemma_gcd_divides(abs(n), abs(d));
    let g = gcd(abs(n), abs(d)) as int;
    let sign = if d < 0 {
        -1int
    } else {
        1int
    };
    vstd::arithmetic::div_mod::lemma_fundamental_div_mod(abs(n) as int, g);
    vstd::arithmetic::div_mod::lemma_fundamental_div_mod(abs(d) as int, g);
    let p = abs(n) as int / g;
    let q = abs(d) as int / g;
    // sign * n and sign * d are multiples of g: (sign * n) = g * (±p).
    let sp = if sign * n >= 0 {
        p
    } else {
        -p
    };
    let sq = q;
    assert(abs(n) == g * p);
    assert(abs(d) == g * q);
    assert(sign * d == abs(d));
    assert(sign * n == abs(n) || sign * n == -abs(n));
    if sign * n >= 0 {
        assert(sign * n == abs(n)) by {
            if n != 0 {
                assert(sign * n == abs(n) || sign * n == -abs(n));
            }
        }
    } else {
        assert(sign * n == -abs(n));
        assert(-(g * p) == g * (-p)) by (nonlinear_arith);
    }
    assert(sign * n == g * sp);
    assert(sign * d == g * sq);
    vstd::arithmetic::div_mod::lemma_div_multiples_vanish(sp, g);
    vstd::arithmetic::div_mod::lemma_div_multiples_vanish(sq, g);
    assert(g * sp / g == sp) by (nonlinear_arith)
        requires
            (g * sp) / g == sp,
    ;
    assert(reduced(n, d) == (sp, sq));
    assert(sq > 0) by (nonlinear_arith)
        requires
            sign * d > 0,
            sign * d == g * sq,
            g > 0,
    ;
    assert(sp * d == n * sq) by (nonlinear_arith)
        requires
            sign * n == g * sp,
            sign * d == g * sq,
            sign * sign == 1,
            g > 0,
    ;
}

/// Two integers `n` and a positive `d` stand for the fraction `n/d`, which is
/// the number `num/den` (`den` nonzero).
pub open spec fn same_fraction(value: (int, int), num: int, den: int) -> bool {
    &&& value.1 > 0
    &&& value.0 * den == num * value.1
}

/// The arithmetic is exact: the sum, difference, product and quotient (of a
/// nonzero divisor) of `a/b` and `c/d` are `(ad + cb)/bd`, `(ad - cb)/bd`,
/// `ac/bd` and `ad/bc`, and the negation of `a/b` is `-a/b`.
pub proof fn lemma_arithmetic_exact(x: (Seq<char>, Seq<char>), y: (Seq<char>, Seq<char>))
    requires
        texts_wf(x),
        texts_wf(y),
    ensures
        ({
            let (a, b) = text_value(x);
            let (c, d) = text_value(y);
            &&& texts_wf(spec_sum(x, y))
            &&& same_fraction(text_value(spec_sum(x, y)), a * d + c * b, b * d)
            &&& texts_wf(spec_difference(x, y))
            &&& same_fraction(text_value(spec_difference(x, y)), a * d - c * b, b * d)
            &&& texts_wf(spec_product(x, y))
            &&& same_fraction(text_value(spec_product(x, y)), a * c, b * d)
            &&& c != 0 ==> texts_wf(spec_quotient(x, y)) && same_fraction(
                text_value(spec_quotient(x, y)),
                a * d,
                b * c,
            )
            &&& texts_wf(spec_negation(x))
            &&& same_fraction(text_value(spec_negation(x)), -a, b)
        }),
{
    let (a, b) = text_value(x);
    let (c, d) = text_value(y);
    assert(texts_stand_for(x.0, x.1, text_value(x)));
    assert(texts_stand_for(y.0, y.1, text_value(y)));
    assert(b * d != 0) by (nonlinear_arith)
        requires
            b > 0,
            d > 0,
    ;
    lemma_reduced_same_number(a * d + c * b, b * d);
    lemma_value_texts_value(reduced(a * d + c * b, b * d));
    lemma_reduced_same_number(a * d - c * b, b * d);
    lemma_value_texts_value(reduced(a * d - c * b, b * d));
    lemma_reduced_same_number(a * c, b * d);
    lemma_value_texts_value(reduced(a * c, b * d));
    lemma_reduced_same_number(-a, b);
    lemma_value_texts_value(reduced(-a, b));
    if c != 0 {
        assert(b * c != 0) by (nonlinear_arith)
            requires
                b > 0,
                c != 0,
        ;
        lemma_reduced_same_number(a * d, b * c);
        lemma_value_texts_value(reduced(a * d, b * c));
    }
}

/// A rational number: the decimal texts of its numerator and of its
/// (positive) denominator, as `num` prints them.
#[derive(Debug)]
pub struct Rational {
    pub numerator: String,
    pub denominator: String,
}

/// The numerator and denominator that two texts stand for.
pub open spec fn texts_stand_for(numerator: Seq<char>, denominator: Seq<char>, value: (int, int)) -> bool {
    &&& value.1 > 0
    &&& numerator == int_text(value.0)
    &&& denominator == int_text(value.1)
}

impl View for Rational {
    type V = (Seq<char>, Seq<char>);

    open spec fn view(&self) -> (Seq<char>, Seq<char>) {
        (self.numerator@, self.denominator@)
    }
}

impl Rational {
    /// The texts are the decimal texts of an integer and a positive integer.
    pub open spec fn wf(&self) -> bool {
        texts_wf(self@)
    }

    /// A copy of this rational.
    pub fn duplicate(&self) -> (r: Rational)
        ensures
            r@ == self@,
    {
        Rational { numerator: self.numerator.clone(), denominator: self.denominator.clone() }
    }
}

/// `BigRational::from_str` on an integer literal: for a nonempty string of
/// decimal digits it gives that integer (denominator 1).
#[verifier::external_body]
pub(crate) fn rational_from_str(s: &str) -> (r: Rational)
    requires
        is_digits(s@),
    ensures
        r.wf(),
        r@ == value_texts((digits_value(s@), 1)),
{
    let x: BigRational = s.parse().unwrap();
    Rational { numerator: x.numer().to_string(), denominator: x.denom().to_string() }
}

/// `BigRational::one()`: the rational 1.
#[verifier::external_body]
pub(crate) fn rational_one() -> (r: Rational)
    ensures
        r.wf(),
        r@ == one_texts(),
{
    let x = BigRational::one();
    Rational { numerator: x.numer().to_string(), denominator: x.denom().to_string() }
}

/// `+` on `BigRational`: the exact sum, in lowest terms.
#[verifier::external_body]
pub(crate) fn rational_add(a: &Rational, b: &Rational) -> (r: Rational)
    requires
        a.wf(),
        b.wf(),
    ensures
        r.wf(),
        r@ == spec_sum(a@, b@),
{
    let x = BigRational::new(a.numerator.parse::<BigInt>().unwrap(), a.denominator.parse::<BigInt>().unwrap());
    let y = BigRational::new(b.numerator.parse::<BigInt>().unwrap(), b.denominator.parse::<BigInt>().unwrap());
    let z = x + y;
    Rational { numerator: z.numer().to_string(), denominator: z.denom().to_string() }
}

/// `-` on `BigRational`: the exact difference, in lowest terms.
#[verifier::external_body]
pub(crate) fn rational_sub(a: &Rational, b: &Rational) -> (r: Rational)
    requires
        a.wf(),
        b.wf(),
    ensures
        r.wf(),
        r@ == spec_difference(a@, b@),
{
    let x = BigRational::new(a.numerator.parse::<BigInt>().unwrap(), a.denominator.parse::<BigInt>().unwrap());
    let y = BigRational::new(b.numerator.parse::<BigInt>().unwrap(), b.denominator.parse::<BigInt>().unwrap());
    let z = x - y;
    Rational { numerator: z.numer().to_string(), denominator: z.denom().to_string() }
}

/// `*` on `BigRational`: the exact product, in lowest terms.
#[verifier::external_body]
pub(crate) fn rational_mul(a: &Rational, b: &Rational) -> (r: Rational)
    requires
        a.wf(),
        b.wf(),
    ensures
        r.wf(),
        r@ == spec_product(a@, b@),
{
    let x = BigRational::new(a.numerator.parse::<BigInt>().unwrap(), a.denominator.parse::<BigInt>().unwrap());
    let y = BigRational::new(b.numerator.parse::<BigInt>().unwrap(), b.denominator.parse::<BigInt>().unwrap());
    let z = x * y;
    Rational { numerator: z.numer().to_string(), denominator: z.denom().to_string() }
}

/// `/` on `BigRational`: the exact quotient, in lowest terms (it panics on
/// a zero divisor, which is excluded).
#[verifier::external_body]
pub(crate) fn rational_div(a: &Rational, b: &Rational) -> (r: Rational)
    requires
        a.wf(),
        b.wf(),
        text_value(b@).0 != 0,
    ensures
        r.wf(),
        r@ == spec_quotient(a@, b@),
{
    let x = BigRational::new(a.numerator.parse::<BigInt>().unwrap(), a.denominator.parse::<BigInt>().unwrap());
    let y = BigRational::new(b.numerator.parse::<BigInt>().unwrap(), b.denominator.parse::<BigInt>().unwrap());
    let z = x / y;
    Rational { numerator: z.numer().to_string(), denominator: z.denom().to_string() }
}

/// Unary `-` on `BigRational`: the negation, in lowest terms (`BigRational::new`
/// reduces the operand first).
#[verifier::external_body]
pub(crate) fn rational_neg(a: &Rational) -> (r: Rational)
    requires
        a.wf(),
    ensures
        r.wf(),
        r@ == spec_negation(a@),
{
    let x = BigRational::new(a.numerator.parse::<BigInt>().unwrap(), a.denominator.parse::<BigInt>().unwrap());
    let z = -x;
    Rational { numerator: z.numer().to_string(), denominator: z.denom().to_string() }
}

/// `BigRational::is_zero`.
#[verifier::external_body]
pub(crate) fn rational_is_zero(a: &Rational) -> (r: bool)
    requires
        a.wf(),
    ensures
        r == (text_value(a@).0 == 0),
{
    let x = BigRational::new(a.numerator.parse::<BigInt>().unwrap(), a.denominator.parse::<BigInt>().unwrap());
    x.is_zero()
}

/// `BigRational::is_integer`: whether the denominator divides the numerator.
#[verifier::external_body]
pub(crate) fn rational_is_integer(a: &Rational) -> (r: bool)
    requires
        a.wf(),
    ensures
        r == (text_value(a@).0 % text_value(a@).1 == 0),
{
    let x = BigRational::new(a.numerator.parse::<BigInt>().unwrap(), a.denominator.parse::<BigInt>().unwrap());
    x.is_integer()
}

/// `==` on `BigRational`: equal values.
#[verifier::external_body]
pub(crate) fn rational_eq(a: &Rational, b: &Rational) -> (r: bool)
    requires
        a.wf(),
        b.wf(),
    ensures
        r == spec_rational_eq(a@, b@),
{
    let x = BigRational::new(a.numerator.parse::<BigInt>().unwrap(), a.denominator.parse::<BigInt>().unwrap());
    let y = BigRational::new(b.numerator.parse::<BigInt>().unwrap(), b.denominator.parse::<BigInt>().unwrap());
    x == y
}

/// `<` on `BigRational`.
#[verifier::external_body]
pub(crate) fn rational_lt(a: &Rational, b: &Rational) -> (r: bool)
    requires
        a.wf(),
        b.wf(),
    ensures
        r == spec_rational_lt(a@, b@),
{
    let x = BigRational::new(a.numerator.parse::<BigInt>().unwrap(), a.denominator.parse::<BigInt>().unwrap());
    let y = BigRational::new(b.numerator.parse::<BigInt>().unwrap(), b.denominator.parse::<BigInt>().unwrap());
    x < y
}

/// `<=` on `BigRational`.
#[verifier::external_body]
pub(crate) fn rational_le(a: &Rational, b: &Rational) -> (r: bool)
    requires
        a.wf(),
        b.wf(),
    ensures
        r == !spec_rational_lt(b@, a@),
{
    let x = BigRational::new(a.numerator.parse::<BigInt>().unwrap(), a.denominator.parse::<BigInt>().unwrap());
    let y = BigRational::new(b.numerator.parse::<BigInt>().unwrap(), b.denominator.parse::<BigInt>().unwrap());
    x <= y
}

/// `>` on `BigRational`.
#[verifier::external_body]
pub(crate) fn rational_gt(a: &Rational, b: &Rational) -> (r: bool)
    requires
        a.wf(),
        b.wf(),
    ensures
        r == spec_rational_lt(b@, a@),
{
    let x = BigRational::new(a.numerator.parse::<BigInt>().unwrap(), a.denominator.parse::<BigInt>().unwrap());
    let y = BigRational::new(b.numerator.parse::<BigInt>().unwrap(), b.denominator.parse::<BigInt>().unwrap());
    x > y
}

/// `>=` on `BigRational`.
#[verifier::external_body]
pub(crate) fn rational_ge(a: &Rational, b: &Rational) -> (r: bool)
    requires
        a.wf(),
        b.wf(),
    ensures
        r == !spec_rational_lt(a@, b@),
{
    let x = BigRational::new(a.numerator.parse::<BigInt>().unwrap(), a.denominator.parse::<BigInt>().unwrap());
    let y = BigRational::new(b.numerator.parse::<BigInt>().unwrap(), b.denominator.parse::<BigInt>().unwrap());
    x >= y
}

} // verus!
