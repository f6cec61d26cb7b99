//! A fixed-point scalar: eighteen decimal places, and up to nineteen digits
//! before the point.
//!
//! Sums, differences, products and quotients are exact up to rounding toward
//! zero at the eighteenth decimal place. An operation whose result is out of
//! range, a division by zero, and any operation on an undefined operand give
//! [`Decimal::Undefined`], which compares false with everything. Powers are
//! taken by repeated multiplication, so only whole exponents have one.

use crate::scalar::Scalar;
use crate::scaled::{
    lemma_signed_scaled_product,
    lemma_signed_scaled_quotient,
    magnitude,
    quotient,
    scaled_product,
    scaled_quotient,
};
pub use crate::scaled::{LIMIT, SCALE};
use vstd::prelude::*;

verus! {

#[derive(Clone, Copy, Debug, PartialEq, Eq, Structural)]
pub enum Decimal {
    /// The result of an operation that has no value in range.
    Undefined,
    /// A number, counted in units of `10^-18`. A count beyond [`LIMIT`]
    /// either way is no number.
    Finite(i128),
}

/// The decimal of `units`, if that many are in range.
pub open spec fn pack(units: int) -> Decimal {
    if -LIMIT <= units <= LIMIT {
        Decimal::Finite(units as i128)
    } else {
        Decimal::Undefined
    }
}

/// Computes [`pack`].
fn pack_count(units: i128) -> (r: Decimal)
    ensures
        r == pack(units as int),
{
    if -LIMIT <= units && units <= LIMIT {
        Decimal::Finite(units)
    } else {
        Decimal::Undefined
    }
}

/// `|x|` as a machine number.
fn magnitude_of(x: i128) -> (m: u128)
    requires
        -LIMIT <= x <= LIMIT,
    ensures
        m == magnitude(x as int),
        m <= LIMIT,
{
    if x < 0 {
        (-x) as u128
    } else {
        x as u128
    }
}

/// The decimal of `m` units, negated if asked.
fn pack_signed(negative: bool, m: u128) -> (r: Decimal)
    ensures
        r == pack(
            if negative {
                -(m as int)
            } else {
                m as int
            },
        ),
{
    if m <= LIMIT as u128 {
        if negative {
            Decimal::Finite(-(m as i128))
        } else {
            Decimal::Finite(m as i128)
        }
    } else {
        Decimal::Undefined
    }
}

impl Decimal {
    /// The number of units, where the value is a number.
    pub open spec fn units(self) -> Option<int> {
        match self {
            Decimal::Finite(n) => if -LIMIT <= n <= LIMIT {
                Some(n as int)
            } else {
                None
            },
            Decimal::Undefined => None,
        }
    }

    /// Computes [`Decimal::units`].
    pub fn unpack(self) -> (r: Option<i128>)
        ensures
            match r {
                Some(n) => self.units() == Some(n as int),
                None => self.units() is None,
            },
    {
        match self {
            Decimal::Finite(n) => if -LIMIT <= n && n <= LIMIT {
                Some(n)
            } else {
                None
            },
            Decimal::Undefined => None,
        }
    }

    /// The product of `n` factors `self`, taken one at a time, each product
    /// rounded.
    pub open spec fn power(self, n: nat) -> Decimal
        decreases n,
    {
        if n == 0 {
            Decimal::Finite(SCALE)
        } else {
            self.power((n - 1) as nat).spec_times(self)
        }
    }

    /// Computes [`Decimal::power`].
    pub fn to_the(self, n: u64) -> (r: Decimal)
        ensures
            r == self.power(n as nat),
    {
        let mut acc = Decimal::Finite(SCALE);
        let mut i: u64 = 0;
        while i < n
            invariant
                i <= n,
                acc == self.power(i as nat),
            decreases n - i,
        {
            acc = acc.times(self);
            i = i + 1;
        }
        acc
    }
}

impl Scalar for Decimal {
    open spec fn spec_from_int(n: i64) -> Decimal {
        pack(n * SCALE)
    }

    open spec fn spec_greatest() -> Decimal {
        Decimal::Finite(LIMIT)
    }

    open spec fn spec_least() -> Decimal {
        Decimal::Finite((-LIMIT) as i128)
    }

    open spec fn spec_plus(self, rhs: Decimal) -> Decimal {
        match (self.units(), rhs.units()) {
            (Some(a), Some(b)) => pack(a + b),
            _ => Decimal::Undefined,
        }
    }

    open spec fn spec_minus(self, rhs: Decimal) -> Decimal {
        match (self.units(), rhs.units()) {
            (Some(a), Some(b)) => pack(a - b),
            _ => Decimal::Undefined,
        }
    }

    open spec fn spec_times(self, rhs: Decimal) -> Decimal {
        match (self.units(), rhs.units()) {
            (Some(a), Some(b)) => pack(quotient(a * b, SCALE as int)),
            _ => Decimal::Undefined,
        }
    }

    open spec fn spec_over(self, rhs: Decimal) -> Decimal {
        match (self.units(), rhs.units()) {
            (Some(a), Some(b)) => if b == 0 {
                Decimal::Undefined
            } else {
                pack(quotient(a * SCALE, b))
            },
            _ => Decimal::Undefined,
        }
    }

    open spec fn spec_neg(self) -> Decimal {
        match self.units() {
            Some(a) => pack(-a),
            None => Decimal::Undefined,
        }
    }

    open spec fn spec_abs(self) -> Decimal {
        match self.units() {
            Some(a) => pack(magnitude(a)),
            None => Decimal::Undefined,
        }
    }

    open spec fn spec_powf(self, exponent: Decimal) -> Decimal {
        match exponent.units() {
            Some(e) => {
                let n = (magnitude(e) / (SCALE as int)) as nat;
                if magnitude(e) % (SCALE as int) != 0 {
                    Decimal::Undefined
                } else if e < 0 {
                    Decimal::Finite(SCALE).spec_over(self.power(n))
                } else {
                    self.power(n)
                }
            },
            None => Decimal::Undefined,
        }
    }

    open spec fn spec_below(self, rhs: Decimal) -> bool {
        match (self.units(), rhs.units()) {
            (Some(a), Some(b)) => a < b,
            _ => false,
        }
    }

    open spec fn spec_at_most(self, rhs: Decimal) -> bool {
        match (self.units(), rhs.units()) {
            (Some(a), Some(b)) => a <= b,
            _ => false,
        }
    }

    open spec fn spec_is_negative(self) -> bool {
        match self.units() {
            Some(a) => a < 0,
            None => false,
        }
    }

    open spec fn spec_is_finite(self) -> bool {
        self.units() is Some
    }

    fn from_int(n: i64) -> (r: Decimal) {
        Decimal::Finite(n as i128 * 1_000_000_000_000_000_000)
    }

    fn greatest() -> (r: Decimal) {
        Decimal::Finite(LIMIT)
    }

    fn least() -> (r: Decimal) {
        Decimal::Finite(-LIMIT)
    }

    fn plus(self, rhs: Decimal) -> (r: Decimal) {
        match (self.unpack(), rhs.unpack()) {
            (Some(a), Some(b)) => pack_count(a + b),
            _ => Decimal::Undefined,
        }
    }

    fn minus(self, rhs: Decimal) -> (r: Decimal) {
        match (self.unpack(), rhs.unpack()) {
            (Some(a), Some(b)) => pack_count(a - b),
            _ => Decimal::Undefined,
        }
    }

    fn times(self, rhs: Decimal) -> (r: Decimal) {
        match (self.unpack(), rhs.unpack()) {
            (Some(a), Some(b)) => {
                proof {
                    lemma_signed_scaled_product(a as int, b as int);
                }
                match scaled_product(magnitude_of(a), magnitude_of(b)) {
                    Some(t) => pack_signed((a < 0) != (b < 0), t),
                    None => Decimal::Undefined,
                }
            },
            _ => Decimal::Undefined,
        }
    }

    fn over(self, rhs: Decimal) -> (r: Decimal) {
        match (self.unpack(), rhs.unpack()) {
            (Some(a), Some(b)) => {
                if b == 0 {
                    Decimal::Undefined
                } else {
                    proof {
                        lemma_signed_scaled_quotient(a as int, b as int);
                    }
                    match scaled_quotient(magnitude_of(a), magnitude_of(b)) {
                        Some(t) => pack_signed((a < 0) != (b < 0), t),
                        None => Decimal::Undefined,
                    }
                }
            },
            _ => Decimal::Undefined,
        }
    }

    fn neg(self) -> (r: Decimal) {
        match self.unpack() {
            Some(a) => Decimal::Finite(-a),
            None => Decimal::Undefined,
        }
    }

    fn abs(self) -> (r: Decimal) {
        match self.unpack() {
            Some(a) => pack_signed(false, magnitude_of(a)),
            None => Decimal::Undefined,
        }
    }

    fn powf(self, exponent: Decimal) -> (r: Decimal) {
        match exponent.unpack() {
            Some(e) => {
                let m = magnitude_of(e);
                if m % 1_000_000_000_000_000_000 != 0 {
                    Decimal::Undefined
                } else {
                    let n = (m / 1_000_000_000_000_000_000) as u64;
                    if e < 0 {
                        Decimal::Finite(SCALE).over(self.to_the(n))
                    } else {
                        self.to_the(n)
                    }
                }
            },
            None => Decimal::Undefined,
        }
    }

    fn below(self, rhs: Decimal) -> (r: bool) {
        match (self.unpack(), rhs.unpack()) {
            (Some(a), Some(b)) => a < b,
            _ => false,
        }
    }

    fn at_most(self, rhs: Decimal) -> (r: bool) {
        match (self.unpack(), rhs.unpack()) {
            (Some(a), Some(b)) => a <= b,
            _ => false,
        }
    }

    fn is_negative(self) -> (r: bool) {
        match self.unpack() {
            Some(a) => a < 0,
            None => false,
        }
    }

    fn is_finite(self) -> (r: bool) {
        self.unpack().is_some()
    }
}

} // verus!
