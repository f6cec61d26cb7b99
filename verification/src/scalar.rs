//! The number type that the calculations are carried out in.
//!
//! Every routine of this crate is generic over a [`Scalar`]: a value that can
//! be added, subtracted, multiplied, divided and compared. Each operation has a
//! specification twin, and the contracts of the crate are written over those
//! twins, so that a result is pinned down as an expression of the operations
//! that produced it. The trait demands no algebraic law of them: an
//! implementation may round, saturate, or answer with a value that is not a
//! number, as long as each operation is a function of its operands.

use vstd::prelude::*;

verus! {

pub trait Scalar: Copy + Sized {
    /// The scalar that stands for the whole number `n`.
    spec fn spec_from_int(n: i64) -> Self;

    /// The largest finite scalar.
    spec fn spec_greatest() -> Self;

    /// The smallest (most negative) finite scalar.
    spec fn spec_least() -> Self;

    spec fn spec_plus(self, rhs: Self) -> Self;

    spec fn spec_minus(self, rhs: Self) -> Self;

    spec fn spec_times(self, rhs: Self) -> Self;

    spec fn spec_over(self, rhs: Self) -> Self;

    spec fn spec_neg(self) -> Self;

    spec fn spec_abs(self) -> Self;

    /// The value raised to the power `exponent`.
    spec fn spec_powf(self, exponent: Self) -> Self;

    /// Strict order. False whenever either side is not a number.
    spec fn spec_below(self, rhs: Self) -> bool;

    /// Weak order. False whenever either side is not a number.
    spec fn spec_at_most(self, rhs: Self) -> bool;

    /// Whether the value carries a negative sign.
    spec fn spec_is_negative(self) -> bool;

    /// Whether the value is a number of finite size.
    spec fn spec_is_finite(self) -> bool;

    fn from_int(n: i64) -> (r: Self)
        ensures
            r == Self::spec_from_int(n),
    ;

    fn greatest() -> (r: Self)
        ensures
            r == Self::spec_greatest(),
    ;

    fn least() -> (r: Self)
        ensures
            r == Self::spec_least(),
    ;

    fn plus(self, rhs: Self) -> (r: Self)
        ensures
            r == self.spec_plus(rhs),
    ;

    fn minus(self, rhs: Self) -> (r: Self)
        ensures
            r == self.spec_minus(rhs),
    ;

    fn times(self, rhs: Self) -> (r: Self)
        ensures
            r == self.spec_times(rhs),
    ;

    /// Division never fails: a zero divisor yields whatever the
    /// implementation has for an undefined quotient.
    fn over(self, rhs: Self) -> (r: Self)
        ensures
            r == self.spec_over(rhs),
    ;

    fn neg(self) -> (r: Self)
        ensures
            r == self.spec_neg(),
    ;

    fn abs(self) -> (r: Self)
        ensures
            r == self.spec_abs(),
    ;

    fn powf(self, exponent: Self) -> (r: Self)
        ensures
            r == self.spec_powf(exponent),
    ;

    fn below(self, rhs: Self) -> (r: bool)
        ensures
            r == self.spec_below(rhs),
    ;

    fn at_most(self, rhs: Self) -> (r: bool)
        ensures
            r == self.spec_at_most(rhs),
    ;

    fn is_negative(self) -> (r: bool)
        ensures
            r == self.spec_is_negative(),
    ;

    fn is_finite(self) -> (r: bool)
        ensures
            r == self.spec_is_finite(),
    ;
}

/// The scalar zero.
pub open spec fn zero<R: Scalar>() -> R {
    R::spec_from_int(0)
}

/// The scalar one.
pub open spec fn one<R: Scalar>() -> R {
    R::spec_from_int(1)
}

/// `x` compares equal to zero: it is neither above nor below it.
pub open spec fn is_zero<R: Scalar>(x: R) -> bool {
    x.spec_at_most(zero()) && zero::<R>().spec_at_most(x)
}

/// `x` is strictly positive.
pub open spec fn is_positive<R: Scalar>(x: R) -> bool {
    zero::<R>().spec_below(x)
}

/// `|x| <= tolerance`.
pub open spec fn within<R: Scalar>(x: R, tolerance: R) -> bool {
    x.spec_abs().spec_at_most(tolerance)
}

/// The ratio `numerator / denominator` of two whole numbers.
pub open spec fn ratio<R: Scalar>(numerator: i64, denominator: i64) -> R {
    R::spec_from_int(numerator).spec_over(R::spec_from_int(denominator))
}

/// Computes [`ratio`].
pub fn ratio_of<R: Scalar>(numerator: i64, denominator: i64) -> (r: R)
    ensures
        r == ratio::<R>(numerator, denominator),
{
    R::from_int(numerator).over(R::from_int(denominator))
}

/// Decides [`is_zero`].
pub fn equals_zero<R: Scalar>(x: R) -> (r: bool)
    ensures
        r == is_zero(x),
{
    let z = R::from_int(0);
    x.at_most(z) && z.at_most(x)
}

} // verus!
