//! Arithmetic left for the host to carry out.
//!
//! A scene is full of computed measures: a padded rectangle, a rotation row, a
//! stroke width in ems. This crate fixes every one of them as a [`Formula`]
//! over the single-precision numbers of its input, operation by operation and
//! in a fixed order; whoever draws the scene evaluates the formulas with the
//! machine's floating point. What is proved about a formula here is proved of
//! exact arithmetic, through [`Formula::value`].

use crate::geometry::Transform;
use crate::single::Single;
use std::sync::Arc;
use vstd::prelude::*;

verus! {

/// A shared formula.
pub type Expr = Arc<Formula>;

/// One single-precision computation.
#[derive(Debug)]
pub enum Formula {
    /// A number of the input, or a constant.
    Number(Single),
    /// A whole number, rounded to the nearest single.
    Count(u64),
    /// `-a`.
    Negated(Expr),
    /// `a + b`.
    Sum(Expr, Expr),
    /// `a - b`.
    Difference(Expr, Expr),
    /// `a * b`.
    Product(Expr, Expr),
    /// `a / b`.
    Quotient(Expr, Expr),
    /// The larger of two numbers; a NaN gives way to the other operand.
    Larger(Expr, Expr),
    /// The smaller of two numbers; a NaN gives way to the other operand.
    Smaller(Expr, Expr),
    /// `a` held between two bounds; a NaN stays a NaN.
    Clamped(Expr, Single, Single),
    /// Sine of an angle in radians.
    Sine(Expr),
    /// Cosine of an angle in radians.
    Cosine(Expr),
    /// An angle in degrees, converted to radians by one multiplication.
    Radians(Expr),
    /// An entry, in row-major order, of the homogeneous 3x3 matrix of a
    /// transform.
    MatrixEntry(Arc<Transform>, u8),
    /// A channel (red, green, blue, alpha) of an sRGB colour in linear light.
    LinearChannel([u8; 4], u8),
    /// The first formula where the test holds, the second elsewhere.
    Choice(Arc<Test>, Expr, Expr),
}

/// A condition on computed numbers.
#[derive(Debug)]
pub enum Test {
    /// The number is infinite or a NaN.
    NotFinite(Expr),
    /// The absolute value is below a bound.
    Within(Expr, Single),
    /// At least one of two conditions holds.
    Either(Arc<Test>, Arc<Test>),
}

/// The functions that exact arithmetic alone does not give. A statement about
/// [`Formula::value`] for every model holds whatever these functions are.
pub struct Model {
    /// Sine of an angle in radians.
    pub sine: spec_fn(real) -> real,
    /// Cosine of an angle in radians.
    pub cosine: spec_fn(real) -> real,
    /// One degree in radians.
    pub degree: real,
    /// Entry of the homogeneous matrix of a transform.
    pub entry: spec_fn(Transform, int) -> real,
    /// Channel of an sRGB colour in linear light.
    pub channel: spec_fn([u8; 4], int) -> real,
}

/// The larger of two exact numbers.
pub open spec fn real_max(a: real, b: real) -> real {
    if a < b {
        b
    } else {
        a
    }
}

/// The smaller of two exact numbers.
pub open spec fn real_min(a: real, b: real) -> real {
    if b < a {
        b
    } else {
        a
    }
}

impl Formula {
    /// What the formula computes in exact arithmetic.
    pub open spec fn value(&self, m: Model) -> real
        decreases self,
    {
        match *self {
            Formula::Number(n) => n.value(),
            Formula::Count(n) => n as int as real,
            Formula::Negated(a) => 0real - a.value(m),
            Formula::Sum(a, b) => a.value(m) + b.value(m),
            Formula::Difference(a, b) => a.value(m) - b.value(m),
            Formula::Product(a, b) => a.value(m) * b.value(m),
            Formula::Quotient(a, b) => a.value(m) / b.value(m),
            Formula::Larger(a, b) => real_max(a.value(m), b.value(m)),
            Formula::Smaller(a, b) => real_min(a.value(m), b.value(m)),
            Formula::Clamped(a, low, high) => real_min(
                real_max(a.value(m), low.value()),
                high.value(),
            ),
            Formula::Sine(a) => (m.sine)(a.value(m)),
            Formula::Cosine(a) => (m.cosine)(a.value(m)),
            Formula::Radians(a) => a.value(m) * m.degree,
            Formula::MatrixEntry(t, i) => (m.entry)(*t, i as int),
            Formula::LinearChannel(color, i) => (m.channel)(color, i as int),
            Formula::Choice(test, a, b) => if test.holds(m) {
                a.value(m)
            } else {
                b.value(m)
            },
        }
    }
}

impl Test {
    /// Whether the condition holds in exact arithmetic, where every number is
    /// finite.
    pub open spec fn holds(&self, m: Model) -> bool
        decreases self,
    {
        match *self {
            Test::NotFinite(_) => false,
            Test::Within(a, bound) => -bound.value() < a.value(m) < bound.value(),
            Test::Either(s, t) => s.holds(m) || t.holds(m),
        }
    }
}

/// The formula for a number of the input.
#[verifier::allow_in_spec]
pub fn number(n: Single) -> Expr
    returns
        Arc::new(Formula::Number(n)),
{
    Arc::new(Formula::Number(n))
}

/// The formula for the constant with the given bit pattern.
#[verifier::allow_in_spec]
pub fn constant(bits: u32) -> Expr
    returns
        Arc::new(Formula::Number(Single { bits })),
{
    Arc::new(Formula::Number(Single { bits }))
}

/// The formula for a whole number.
#[verifier::allow_in_spec]
pub fn count(n: u64) -> Expr
    returns
        Arc::new(Formula::Count(n)),
{
    Arc::new(Formula::Count(n))
}

/// `-a`.
#[verifier::allow_in_spec]
pub fn negated(a: &Expr) -> Expr
    returns
        Arc::new(Formula::Negated(*a)),
{
    Arc::new(Formula::Negated(a.clone()))
}

/// `a + b`.
#[verifier::allow_in_spec]
pub fn sum(a: &Expr, b: &Expr) -> Expr
    returns
        Arc::new(Formula::Sum(*a, *b)),
{
    Arc::new(Formula::Sum(a.clone(), b.clone()))
}

/// `a - b`.
#[verifier::allow_in_spec]
pub fn difference(a: &Expr, b: &Expr) -> Expr
    returns
        Arc::new(Formula::Difference(*a, *b)),
{
    Arc::new(Formula::Difference(a.clone(), b.clone()))
}

/// `a * b`.
#[verifier::allow_in_spec]
pub fn product(a: &Expr, b: &Expr) -> Expr
    returns
        Arc::new(Formula::Product(*a, *b)),
{
    Arc::new(Formula::Product(a.clone(), b.clone()))
}

/// `a / b`.
#[verifier::allow_in_spec]
pub fn quotient(a: &Expr, b: &Expr) -> Expr
    returns
        Arc::new(Formula::Quotient(*a, *b)),
{
    Arc::new(Formula::Quotient(a.clone(), b.clone()))
}

/// The larger of `a` and `b`.
#[verifier::allow_in_spec]
pub fn larger(a: &Expr, b: &Expr) -> Expr
    returns
        Arc::new(Formula::Larger(*a, *b)),
{
    Arc::new(Formula::Larger(a.clone(), b.clone()))
}

/// The smaller of `a` and `b`.
#[verifier::allow_in_spec]
pub fn smaller(a: &Expr, b: &Expr) -> Expr
    returns
        Arc::new(Formula::Smaller(*a, *b)),
{
    Arc::new(Formula::Smaller(a.clone(), b.clone()))
}

/// `a`, but at least the constant with the given bit pattern.
#[verifier::allow_in_spec]
pub fn at_least(a: &Expr, bits: u32) -> Expr
    returns
        larger(a, &constant(bits)),
{
    larger(a, &constant(bits))
}

/// Sine of `a`.
#[verifier::allow_in_spec]
pub fn sine(a: &Expr) -> Expr
    returns
        Arc::new(Formula::Sine(*a)),
{
    Arc::new(Formula::Sine(a.clone()))
}

/// Cosine of `a`.
#[verifier::allow_in_spec]
pub fn cosine(a: &Expr) -> Expr
    returns
        Arc::new(Formula::Cosine(*a)),
{
    Arc::new(Formula::Cosine(a.clone()))
}

/// Entry `i` of the matrix of `t`.
#[verifier::allow_in_spec]
pub fn matrix_entry(t: &Arc<Transform>, i: u8) -> Expr
    returns
        Arc::new(Formula::MatrixEntry(*t, i)),
{
    Arc::new(Formula::MatrixEntry(t.clone(), i))
}

/// `a` where `test` holds, `b` elsewhere.
#[verifier::allow_in_spec]
pub fn choice(test: &Arc<Test>, a: &Expr, b: &Expr) -> Expr
    returns
        Arc::new(Formula::Choice(*test, *a, *b)),
{
    Arc::new(Formula::Choice(test.clone(), a.clone(), b.clone()))
}

/// Whether `s` or `t` holds.
#[verifier::allow_in_spec]
pub fn either(s: &Arc<Test>, t: &Arc<Test>) -> Arc<Test>
    returns
        Arc::new(Test::Either(*s, *t)),
{
    Arc::new(Test::Either(s.clone(), t.clone()))
}

/// Whether `a` is infinite or a NaN.
#[verifier::allow_in_spec]
pub fn not_finite(a: &Expr) -> Arc<Test>
    returns
        Arc::new(Test::NotFinite(*a)),
{
    Arc::new(Test::NotFinite(a.clone()))
}

} // verus!
