//! Arithmetic on the magnitudes of fixed-point numbers: products and
//! quotients that are scaled by `10^18`, worked out within 128 bits.

use vstd::arithmetic::div_mod::{
    lemma_div_is_ordered,
    lemma_div_multiples_vanish,
    lemma_fundamental_div_mod,
    lemma_fundamental_div_mod_converse,
    lemma_hoist_over_denominator,
};
use vstd::prelude::*;

verus! {

/// How many units make one: `10^18`.
pub const SCALE: i128 = 1_000_000_000_000_000_000;

/// The largest number of units that a fixed-point number holds: `10^37`.
pub const LIMIT: i128 = 10_000_000_000_000_000_000_000_000_000_000_000_000;

/// `|x|`.
pub open spec fn magnitude(x: int) -> int {
    if x < 0 {
        -x
    } else {
        x
    }
}

/// The quotient `x / y` rounded toward zero, for `y` other than zero.
pub open spec fn quotient(x: int, y: int) -> int {
    let q = magnitude(x) / magnitude(y);
    if (x < 0) != (y < 0) {
        -q
    } else {
        q
    }
}

/// `10^n`.
pub open spec fn power_of_ten(n: nat) -> int
    decreases n,
{
    if n == 0 {
        1
    } else {
        10 * power_of_ten((n - 1) as nat)
    }
}

/// `a * b`, as a name that arithmetic does not look into.
#[verifier::opaque]
spec fn product_of(a: int, b: int) -> int {
    a * b
}

/// `(a * b) / 10^18`, as a name that arithmetic does not look into.
#[verifier::opaque]
pub open spec fn scaled_product_of(a: int, b: int) -> int {
    (a * b) / (SCALE as int)
}

/// `(a * 10^18) / b`, as a name that arithmetic does not look into.
#[verifier::opaque]
pub open spec fn scaled_quotient_of(a: int, b: int) -> int {
    (a * SCALE) / b
}

/// Powers of ten multiply by adding their exponents, and are at least one.
proof fn lemma_power_of_ten_adds(m: nat, n: nat)
    ensures
        power_of_ten(m + n) == power_of_ten(m) * power_of_ten(n),
        power_of_ten(n) >= 1,
    decreases n,
{
    if n > 0 {
        lemma_power_of_ten_adds(m, (n - 1) as nat);
        assert(10 * (power_of_ten(m) * power_of_ten((n - 1) as nat)) == power_of_ten(m) * (10
            * power_of_ten((n - 1) as nat))) by (nonlinear_arith);
    }
}

/// The scale is the eighteenth power of ten.
proof fn lemma_scale_is_a_power_of_ten()
    ensures
        power_of_ten(18) == SCALE,
{
    reveal_with_fuel(power_of_ten, 19);
}

/// The magnitude of a product is the product of the magnitudes, and a
/// product is negative where one factor is and neither is zero.
pub proof fn lemma_magnitude_of_product(a: int, b: int)
    ensures
        magnitude(a * b) == magnitude(a) * magnitude(b),
        (a * b < 0) == ((a < 0) != (b < 0) && a != 0 && b != 0),
{
    assert(magnitude(a * b) == magnitude(a) * magnitude(b)) by (nonlinear_arith);
    assert((a * b < 0) == ((a < 0) != (b < 0) && a != 0 && b != 0)) by (nonlinear_arith);
}

/// The rounded product of two counts is the scaled product of their
/// magnitudes, negative where one of the two is.
pub proof fn lemma_signed_scaled_product(a: int, b: int)
    ensures
        quotient(a * b, SCALE as int) == if (a < 0) != (b < 0) {
            -scaled_product_of(magnitude(a), magnitude(b))
        } else {
            scaled_product_of(magnitude(a), magnitude(b))
        },
{
    reveal(scaled_product_of);
    lemma_magnitude_of_product(a, b);
}

/// The rounded quotient of two counts is the scaled quotient of their
/// magnitudes, negative where one of the two is.
pub proof fn lemma_signed_scaled_quotient(a: int, b: int)
    requires
        b != 0,
    ensures
        quotient(a * SCALE, b) == if (a < 0) != (b < 0) {
            -scaled_quotient_of(magnitude(a), magnitude(b))
        } else {
            scaled_quotient_of(magnitude(a), magnitude(b))
        },
{
    reveal(scaled_quotient_of);
    lemma_magnitude_of_product(a, SCALE as int);
}

/// A product splits along the whole and fractional parts of its factors.
proof fn lemma_product_by_parts(wa: int, fa: int, wb: int, fb: int, s: int)
    requires
        s > 0,
        fa >= 0,
        fb >= 0,
    ensures
        ((wa * s + fa) * (wb * s + fb)) / s == wa * wb * s + wa * fb + fa * wb + (fa * fb) / s,
{
    let x = wa * wb * s + wa * fb + fa * wb;
    let y = fa * fb;
    assert((wa * s + fa) * (wb * s + fb) == y + x * s) by (nonlinear_arith)
        requires
            x == wa * wb * s + wa * fb + fa * wb,
            y == fa * fb,
    ;
    lemma_hoist_over_denominator(y, x, s as nat);
}

/// A numerator of at least `q` times the divisor has a quotient of at least
/// `q`.
proof fn lemma_quotient_at_least(x: int, d: int, q: int)
    requires
        d > 0,
        x >= q * d,
    ensures
        x / d >= q,
{
    lemma_div_is_ordered(q * d, x, d);
    lemma_div_multiples_vanish(q, d);
    assert(d * q == q * d) by (nonlinear_arith);
}

/// The product of two numbers that lie between zero and their bounds lies
/// between zero and the product of the bounds.
proof fn lemma_product_in_bounds(a: int, b: int, top_a: int, top_b: int)
    requires
        0 <= a <= top_a,
        0 <= b <= top_b,
    ensures
        0 <= product_of(a, b) <= top_a * top_b,
{
    reveal(product_of);
    assert(0 <= a * b <= top_a * top_b) by (nonlinear_arith)
        requires
            0 <= a <= top_a,
            0 <= b <= top_b,
    ;
}

/// The parts that the scaled product of two magnitudes in range is made of:
/// with each magnitude split into its whole part `w` and its fraction `f`, the
/// quotient `(a * b) / 10^18` is
/// `wa wb 10^18 + wa fb + fa wb + (fa fb) / 10^18`, and each term but the first
/// is in range.
proof fn lemma_scaled_product_by_parts(ma: int, mb: int)
    requires
        0 <= ma <= LIMIT,
        0 <= mb <= LIMIT,
    ensures
        ({
            let wa = ma / 1_000_000_000_000_000_000;
            let fa = ma % 1_000_000_000_000_000_000;
            let wb = mb / 1_000_000_000_000_000_000;
            let fb = mb % 1_000_000_000_000_000_000;
            &&& scaled_product_of(ma, mb) == product_of(wa, wb) * 1_000_000_000_000_000_000
                + product_of(wa, fb) + product_of(fa, wb) + product_of(fa, fb)
                / 1_000_000_000_000_000_000
            &&& 0 <= product_of(wa, wb) <= 100_000_000_000_000_000_000_000_000_000_000_000_000
            &&& 0 <= product_of(wa, fb) <= 10_000_000_000_000_000_000_000_000_000_000_000_000
            &&& 0 <= product_of(fa, wb) <= 10_000_000_000_000_000_000_000_000_000_000_000_000
            &&& 0 <= product_of(fa, fb) <= 1_000_000_000_000_000_000_000_000_000_000_000_000
        }),
{
    let s = 1_000_000_000_000_000_000int;
    let wa = ma / s;
    let fa = ma % s;
    let wb = mb / s;
    let fb = mb % s;
    lemma_product_in_bounds(wa, wb, 10_000_000_000_000_000_000, 10_000_000_000_000_000_000);
    lemma_product_in_bounds(wa, fb, 10_000_000_000_000_000_000, 1_000_000_000_000_000_000);
    lemma_product_in_bounds(fa, wb, 1_000_000_000_000_000_000, 10_000_000_000_000_000_000);
    lemma_product_in_bounds(fa, fb, 1_000_000_000_000_000_000, 1_000_000_000_000_000_000);
    reveal(product_of);
    reveal(scaled_product_of);
    lemma_fundamental_div_mod(ma, s);
    lemma_fundamental_div_mod(mb, s);
    lemma_product_by_parts(wa, fa, wb, fb, s);
}

/// The product of two machine numbers, where it fits.
fn product(a: u128, b: u128) -> (p: u128)
    requires
        product_of(a as int, b as int) <= u128::MAX,
    ensures
        p == product_of(a as int, b as int),
{
    proof {
        reveal(product_of);
    }
    a * b
}

/// The quotient `(a * b) / 10^18` of two magnitudes in range, if it is in
/// range.
pub fn scaled_product(ma: u128, mb: u128) -> (r: Option<u128>)
    requires
        ma <= LIMIT,
        mb <= LIMIT,
    ensures
        match r {
            Some(t) => t == scaled_product_of(ma as int, mb as int),
            None => scaled_product_of(ma as int, mb as int) > LIMIT,
        },
{
    let wa = ma / 1_000_000_000_000_000_000;
    let fa = ma % 1_000_000_000_000_000_000;
    let wb = mb / 1_000_000_000_000_000_000;
    let fb = mb % 1_000_000_000_000_000_000;
    proof {
        lemma_scaled_product_by_parts(ma as int, mb as int);
    }
    let ww = product(wa, wb);
    if ww > 10_000_000_000_000_000_000 {
        return None;
    }
    let wf = product(wa, fb);
    let fw = product(fa, wb);
    let ff = product(fa, fb);
    Some(ww * 1_000_000_000_000_000_000 + wf + fw + ff / 1_000_000_000_000_000_000)
}

/// The quotient `(a * 10^18) / b` of two magnitudes in range, the second not
/// zero, if it is in range. Long division: the whole part first, then one
/// decimal place a round.
pub fn scaled_quotient(ma: u128, mb: u128) -> (r: Option<u128>)
    requires
        ma <= LIMIT,
        0 < mb <= LIMIT,
    ensures
        match r {
            Some(t) => t == scaled_quotient_of(ma as int, mb as int),
            None => scaled_quotient_of(ma as int, mb as int) > LIMIT,
        },
{
    let mut q: u128 = ma / mb;
    let mut r: u128 = ma % mb;
    let mut places: u32 = 0;
    let ghost mut shifted: int = 1;
    proof {
        lemma_fundamental_div_mod(ma as int, mb as int);
        assert(ma * 1 == q * mb + r) by (nonlinear_arith)
            requires
                ma == mb * q + r,
        ;
    }
    while places < 18
        invariant
            places <= 18,
            ma <= LIMIT,
            0 < mb <= LIMIT,
            shifted == power_of_ten(places as nat),
            ma * shifted == q * mb + r,
            r < mb,
            q <= LIMIT + 9,
        decreases 18 - places,
    {
        if q > 1_000_000_000_000_000_000_000_000_000_000_000_000 {
            proof {
                reveal(scaled_quotient_of);
                let rest = power_of_ten((18 - places) as nat);
                lemma_power_of_ten_adds(places as nat, (18 - places) as nat);
                lemma_power_of_ten_adds(1, (17 - places) as nat);
                lemma_scale_is_a_power_of_ten();
                assert(power_of_ten(1) == 10) by {
                    reveal_with_fuel(power_of_ten, 2);
                }
                assert(rest >= 10) by (nonlinear_arith)
                    requires
                        rest == 10 * power_of_ten((17 - places) as nat),
                        power_of_ten((17 - places) as nat) >= 1,
                ;
                assert(ma * SCALE >= (LIMIT + 1) * mb) by (nonlinear_arith)
                    requires
                        SCALE == shifted * rest,
                        ma * shifted == q * mb + r,
                        rest >= 10,
                        q > 1_000_000_000_000_000_000_000_000_000_000_000_000,
                        LIMIT == 10_000_000_000_000_000_000_000_000_000_000_000_000,
                        r >= 0,
                        mb > 0,
                ;
                lemma_quotient_at_least(ma * SCALE, mb as int, LIMIT + 1);
            }
            return None;
        }
        let r10 = r * 10;
        let digit = r10 / mb;
        let next = r10 % mb;
        proof {
            lemma_fundamental_div_mod(r10 as int, mb as int);
            assert(digit <= 9) by (nonlinear_arith)
                requires
                    r10 == mb * digit + next,
                    r10 < 10 * mb,
                    next >= 0,
                    mb > 0,
                    digit >= 0,
            ;
            assert(ma * (10 * shifted) == (q * 10 + digit) * mb + next) by (nonlinear_arith)
                requires
                    ma * shifted == q * mb + r,
                    r10 == r * 10,
                    r10 == mb * digit + next,
            ;
        }
        q = q * 10 + digit;
        r = next;
        places = places + 1;
        proof {
            shifted = 10 * shifted;
        }
    }
    proof {
        reveal(scaled_quotient_of);
        lemma_scale_is_a_power_of_ten();
        lemma_fundamental_div_mod_converse(ma * SCALE, mb as int, q as int, r as int);
    }
    Some(q)
}

} // verus!
