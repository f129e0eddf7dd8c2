//! How near the transformed channel values of the contrast are to the powers that
//! they stand for.
//!
//! A transformed channel value is calculated in steps, each rounded down. What is
//! proved here holds it against the exact power: it is never above it, and less
//! than [`POWER_TOLERANCE`] steps below it.

use vstd::prelude::*;
use vstd::arithmetic::power::{
    lemma_pow0, lemma_pow1, lemma_pow_adds, lemma_pow_distributes, lemma_pow_multiplies,
    lemma_pow_positive, pow,
};
use crate::component::VALUE_MAX;
use crate::contrast::{
    fifth_root, fixed_mul, gamma_base, is_fifth_root, lemma_pow5_increases, pow5,
    transformed_value, twelfth_power, LINEAR_LIMIT, LUMINANCE_ONE, LUMINANCE_ONE_POW4,
};

verus! {

/// The steps that a transformed channel value is at most below the exact power.
pub const POWER_TOLERANCE: u64 = 58;

/// The power of the greater of two numbers that are not below 0 is the greater power.
pub proof fn lemma_pow_base_increases(a: int, b: int, e: nat)
    requires
        0 <= a <= b,
    ensures
        0 <= pow(a, e) <= pow(b, e),
    decreases e,
{
    reveal(pow);
    if e > 0 {
        lemma_pow_base_increases(a, b, (e - 1) as nat);
        let pa = pow(a, (e - 1) as nat);
        let pb = pow(b, (e - 1) as nat);
        assert(0 <= a * pa <= b * pb) by (nonlinear_arith)
            requires
                0 <= a <= b,
                0 <= pa <= pb,
        ;
    }
}

/// The power of the greater of two numbers that are not below 0 is greater, where
/// the exponent is not 0.
pub proof fn lemma_pow_base_strictly_increases(a: int, b: int, e: nat)
    requires
        0 <= a < b,
        e > 0,
    ensures
        pow(a, e) < pow(b, e),
    decreases e,
{
    reveal(pow);
    lemma_pow_base_increases(a, b, (e - 1) as nat);
    lemma_pow_positive(b, (e - 1) as nat);
    let pa = pow(a, (e - 1) as nat);
    let pb = pow(b, (e - 1) as nat);
    assert(a * pa < b * pb) by (nonlinear_arith)
        requires
            0 <= a < b,
            0 <= pa <= pb,
            0 < pb,
    ;
}

/// A power to the second, the fourth and the fifth as a product.
pub proof fn lemma_pow_small(b: int)
    ensures
        pow(b, 2) == b * b,
        pow(b, 3) == b * b * b,
        pow(b, 4) == b * b * b * b,
        pow(b, 5) == b * b * b * b * b,
{
    reveal(pow);
    lemma_pow0(b);
    lemma_pow1(b);
    assert(pow(b, 2) == b * pow(b, 1));
    assert(pow(b, 3) == b * pow(b, 2));
    assert(pow(b, 4) == b * pow(b, 3));
    assert(pow(b, 5) == b * pow(b, 4));
    assert(b * (b * b) == b * b * b) by (nonlinear_arith);
    assert(b * (b * b * b) == b * b * b * b) by (nonlinear_arith);
    assert(b * (b * b * b * b) == b * b * b * b * b) by (nonlinear_arith);
}

/// What is taken off both sides of a comparison of products.
pub proof fn lemma_cancel(a: int, b: int, c: int)
    requires
        c > 0,
    ensures
        a * c <= b * c ==> a <= b,
        a * c < b * c ==> a < b,
{
    assert(a * c <= b * c ==> a <= b) by (nonlinear_arith)
        requires
            c > 0,
    ;
    assert(a * c < b * c ==> a < b) by (nonlinear_arith)
        requires
            c > 0,
    ;
}

/// A product of two values in steps, rounded down, is not above the product and
/// less than a step below it.
pub proof fn lemma_fixed_mul(a: nat, b: nat)
    ensures
        fixed_mul(a, b) * LUMINANCE_ONE <= a * b < (fixed_mul(a, b) + 1) * LUMINANCE_ONE,
{
    let one = LUMINANCE_ONE as int;
    let product = (a * b) as int;
    vstd::arithmetic::div_mod::lemma_fundamental_div_mod(product, one);
    assert(fixed_mul(a, b) == product / one);
    assert(one * (product / one) == (product / one) * one) by (nonlinear_arith);
    assert((product / one + 1) * one == (product / one) * one + one) by (nonlinear_arith);
}

/// There is a fifth root rounded down of every value that is not above 1.
pub proof fn lemma_fifth_root_exists(x: nat)
    requires
        x <= LUMINANCE_ONE,
    ensures
        is_fifth_root(fifth_root(x), x),
        fifth_root(x) <= LUMINANCE_ONE,
{
    assert(pow5((LUMINANCE_ONE + 1) as nat) > LUMINANCE_ONE * LUMINANCE_ONE_POW4) by {
        assert(pow5(10_000_001) == 10_000_001 * 10_000_001 * 10_000_001 * 10_000_001
            * 10_000_001);
    }
    assert(x * LUMINANCE_ONE_POW4 <= LUMINANCE_ONE * LUMINANCE_ONE_POW4) by (nonlinear_arith)
        requires
            x <= LUMINANCE_ONE,
    ;
    lemma_root_not_above(x, LUMINANCE_ONE as nat);
    let root = choose|root: nat| root <= LUMINANCE_ONE && is_fifth_root(root, x);
    crate::contrast::lemma_fifth_root_unique(root, x);
}

/// There is a fifth root rounded down that is not above `limit`, where the fifth
/// power of what follows `limit` is above the value.
proof fn lemma_root_not_above(x: nat, limit: nat)
    requires
        x * LUMINANCE_ONE_POW4 < pow5(limit + 1),
    ensures
        exists|root: nat| root <= limit && is_fifth_root(root, x),
    decreases limit,
{
    if pow5(limit) <= x * LUMINANCE_ONE_POW4 {
        assert(limit <= limit && is_fifth_root(limit, x));
    } else {
        assert(limit > 0) by {
            assert(pow5(0) == 0);
        }
        lemma_root_not_above(x, (limit - 1) as nat);
        let root = choose|root: nat| root <= limit - 1 && is_fifth_root(root, x);
        assert(root <= limit && is_fifth_root(root, x));
    }
}

/// The twelfth power in steps, with each of its products rounded down, is not
/// above the twelfth power, and [`POWER_TOLERANCE`] steps above it it is not below
/// the twelfth power of what is 3 above the value.
pub proof fn lemma_twelfth_power_bounds(r: nat)
    requires
        r <= LUMINANCE_ONE,
    ensures
        twelfth_power(r) * pow(LUMINANCE_ONE as int, 11) <= pow(r as int, 12),
        pow((r + 3) as int, 12) <= (twelfth_power(r) + POWER_TOLERANCE) * pow(
            LUMINANCE_ONE as int,
            11,
        ),
{
    let one = LUMINANCE_ONE as int;
    let a2 = fixed_mul(r, r) as int;
    let a4 = fixed_mul(a2 as nat, a2 as nat) as int;
    let a8 = fixed_mul(a4 as nat, a4 as nat) as int;
    let y = fixed_mul(a8 as nat, a4 as nat) as int;
    assert(y == twelfth_power(r));
    lemma_fixed_mul(r, r);
    lemma_fixed_mul(a2 as nat, a2 as nat);
    lemma_fixed_mul(a4 as nat, a4 as nat);
    lemma_fixed_mul(a8 as nat, a4 as nat);
    let rr = r as int;
    assert(a2 <= one) by (nonlinear_arith)
        requires
            a2 * one <= rr * rr,
            0 <= rr <= one,
            one > 0,
    ;
    assert(a4 <= one) by (nonlinear_arith)
        requires
            a4 * one <= a2 * a2,
            0 <= a2 <= one,
            one > 0,
    ;
    assert(a8 <= one) by (nonlinear_arith)
        requires
            a8 * one <= a4 * a4,
            0 <= a4 <= one,
            one > 0,
    ;

    // The powers of a step.
    let p3 = pow(one, 3);
    let p4 = pow(one, 4);
    let p7 = pow(one, 7);
    let p11 = pow(one, 11);
    lemma_pow_small(one);
    lemma_pow_adds(one, 3, 4);
    lemma_pow_adds(one, 7, 4);
    assert(p3 == one * one * one);
    assert(p4 == p3 * one) by (nonlinear_arith)
        requires
            p3 == one * one * one,
            p4 == one * one * one * one,
    ;
    assert(p7 == p3 * p4);
    assert(p11 == p7 * p4);
    assert(p3 > 0 && p4 > 0 && p7 > 0 && p11 > 0) by {
        lemma_pow_positive(one, 3);
        lemma_pow_positive(one, 4);
        lemma_pow_positive(one, 7);
        lemma_pow_positive(one, 11);
    }

    // From below.
    let r2 = pow(rr, 2);
    let r4 = pow(rr, 4);
    let r8 = pow(rr, 8);
    let r12 = pow(rr, 12);
    lemma_pow_small(rr);
    lemma_pow_adds(rr, 2, 2);
    lemma_pow_adds(rr, 4, 4);
    lemma_pow_adds(rr, 8, 4);
    assert(r2 == rr * rr);
    assert(a4 * p3 <= r4) by (nonlinear_arith)
        requires
            a4 * one <= a2 * a2,
            a2 * one <= r2,
            0 <= a2,
            0 <= a4,
            one > 0,
            p3 == one * one * one,
            r4 == r2 * r2,
    ;
    assert(a8 * p7 <= r8) by (nonlinear_arith)
        requires
            a8 * one <= a4 * a4,
            a4 * p3 <= r4,
            0 <= a4,
            0 <= a8,
            one > 0,
            p3 > 0,
            p7 == p3 * (p3 * one),
            r8 == r4 * r4,
    ;
    assert(y * p11 <= r12) by (nonlinear_arith)
        requires
            y * one <= a8 * a4,
            a8 * p7 <= r8,
            a4 * p3 <= r4,
            0 <= a4,
            0 <= a8,
            0 <= y,
            one > 0,
            p3 > 0,
            p7 > 0,
            p11 == p7 * (p3 * one),
            r12 == r8 * r4,
    ;

    // From above.
    let q = rr + 3;
    let q2 = pow(q, 2);
    let q4 = pow(q, 4);
    let q8 = pow(q, 8);
    let q12 = pow(q, 12);
    lemma_pow_small(q);
    lemma_pow_adds(q, 2, 2);
    lemma_pow_adds(q, 4, 4);
    lemma_pow_adds(q, 8, 4);
    let b2 = a2 + 8;
    let b4 = a4 + 18;
    let b8 = a8 + 38;
    let b12 = y + 58;
    assert(q2 <= b2 * one) by (nonlinear_arith)
        requires
            q2 == (rr + 3) * (rr + 3),
            rr * rr < (a2 + 1) * one,
            0 <= rr <= one,
            one >= 8,
            b2 == a2 + 8,
    ;
    assert(b2 * b2 <= b4 * one) by (nonlinear_arith)
        requires
            a2 * a2 < (a4 + 1) * one,
            0 <= a2 <= one,
            one >= 63,
            b2 == a2 + 8,
            b4 == a4 + 18,
    ;
    assert(b4 * b4 <= b8 * one) by (nonlinear_arith)
        requires
            a4 * a4 < (a8 + 1) * one,
            0 <= a4 <= one,
            one >= 323,
            b4 == a4 + 18,
            b8 == a8 + 38,
    ;
    assert(b8 * b4 <= b12 * one) by (nonlinear_arith)
        requires
            a8 * a4 < (y + 1) * one,
            0 <= a4 <= one,
            0 <= a8 <= one,
            one >= 683,
            b4 == a4 + 18,
            b8 == a8 + 38,
            b12 == y + 58,
    ;
    assert(q4 <= b4 * p3) by (nonlinear_arith)
        requires
            q4 == q2 * q2,
            0 <= q2 <= b2 * one,
            b2 * b2 <= b4 * one,
            one > 0,
            p3 == one * one * one,
    ;
    assert(q8 <= b8 * p7) by (nonlinear_arith)
        requires
            q8 == q4 * q4,
            0 <= q4 <= b4 * p3,
            b4 * b4 <= b8 * one,
            p3 > 0,
            p7 == p3 * (p3 * one),
    ;
    assert(q12 <= b12 * p11) by (nonlinear_arith)
        requires
            q12 == q8 * q4,
            0 <= q8 <= b8 * p7,
            0 <= q4 <= b4 * p3,
            b8 * b4 <= b12 * one,
            0 <= b4,
            0 <= b8,
            p3 > 0,
            p7 > 0,
            p11 == p7 * (p3 * one),
    ;
}

/// The least value whose power is held against the exact power.
pub const POWER_BASE_MIN: u64 = 562_342;

/// The twelfth power of the fifth root in steps, each of them rounded down, is not
/// above the exact power of 12/5, and [`POWER_TOLERANCE`] steps above it it is not
/// below the exact power of what is a step above the value: with `y` for the power
/// in steps and `x` for the value, `y^5 * one^7 <= x^12` and
/// `(x + 1)^12 <= (y + 58)^5 * one^7`.
pub proof fn lemma_power_bounds(x: nat)
    requires
        POWER_BASE_MIN <= x <= LUMINANCE_ONE,
    ensures
        pow(twelfth_power(fifth_root(x)) as int, 5) * pow(LUMINANCE_ONE as int, 7) <= pow(
            x as int,
            12,
        ),
        pow((x + 1) as int, 12) <= pow(
            (twelfth_power(fifth_root(x)) + POWER_TOLERANCE) as int,
            5,
        ) * pow(LUMINANCE_ONE as int, 7),
{
    let one = LUMINANCE_ONE as int;
    let one4 = LUMINANCE_ONE_POW4 as int;
    let r = fifth_root(x) as int;
    let y = twelfth_power(fifth_root(x)) as int;
    let above = y + POWER_TOLERANCE;
    let xi = x as int;
    lemma_fifth_root_exists(x);
    lemma_twelfth_power_bounds(fifth_root(x));
    let p7 = pow(one, 7);
    let p11 = pow(one, 11);
    let p48 = pow(one, 48);
    let p55 = pow(one, 55);
    lemma_pow_small(one);
    assert(pow(one, 4) == one4);
    lemma_pow_multiplies(one, 4, 12);
    lemma_pow_multiplies(one, 11, 5);
    lemma_pow_adds(one, 7, 48);
    assert(pow(one4, 12) == p48);
    assert(pow(p11, 5) == p55);
    assert(p55 == p7 * p48);
    lemma_pow_positive(one, 7);
    lemma_pow_positive(one, 11);
    lemma_pow_positive(one, 48);

    // From below.
    lemma_pow_small(r);
    assert(pow(r, 5) == pow5(r as nat));
    lemma_pow_base_increases(0, r, 12);
    lemma_pow_base_increases(0, xi, 12);
    lemma_pow_base_increases(0, y, 5);
    assert(0 <= y * p11) by (nonlinear_arith)
        requires
            0 <= y,
            0 < p11,
    ;
    lemma_pow_base_increases(y * p11, pow(r, 12), 5);
    lemma_pow_distributes(y, p11, 5);
    lemma_pow_multiplies(r, 12, 5);
    lemma_pow_multiplies(r, 5, 12);
    assert(pow(r, 5) <= xi * one4);
    lemma_pow_base_increases(0, r, 5);
    lemma_pow_base_increases(pow(r, 5), xi * one4, 12);
    lemma_pow_distributes(xi, one4, 12);
    assert(pow(y, 5) * p55 <= pow(xi, 12) * p48);
    assert((pow(y, 5) * p7) * p48 == pow(y, 5) * p55) by (nonlinear_arith)
        requires
            p55 == p7 * p48,
    ;
    lemma_cancel(pow(y, 5) * p7, pow(xi, 12), p48);

    // From above.
    let q = r + 1;
    assert(pow5(q as nat) >= xi * one4 + 1);
    assert(q >= 5_623_414) by {
        if q <= 5_623_413 {
            lemma_pow5_increases(q as nat, 5_623_413);
            assert(pow5(5_623_413) == 5_623_413 * 5_623_413 * 5_623_413 * 5_623_413 * 5_623_413);
            assert(562_342 * one4 <= xi * one4) by (nonlinear_arith)
                requires
                    562_342 <= xi,
                    one4 > 0,
            ;
        }
    }
    lemma_pow_small(q);
    lemma_pow_small(5_623_414);
    lemma_pow_base_increases(5_623_414, q, 4);
    assert(10 * pow(q, 4) >= one4);
    lemma_pow_small(r + 3);
    let q4 = pow(q, 4);
    let q5 = pow(q, 5);
    assert(q5 == q * q4) by (nonlinear_arith)
        requires
            q5 == q * q * q * q * q,
            q4 == q * q * q * q,
    ;
    assert((q + 2) * (q + 2) * (q + 2) * (q + 2) * (q + 2) >= q * q * q * q * q + 10 * (q * q
        * q * q)) by (nonlinear_arith)
        requires
            q >= 0,
    ;
    assert(pow(r + 3, 5) >= (xi + 1) * one4) by (nonlinear_arith)
        requires
            pow(r + 3, 5) >= q5 + 10 * q4,
            q5 >= xi * one4 + 1,
            10 * q4 >= one4,
    ;
    assert(0 <= (xi + 1) * one4) by (nonlinear_arith)
        requires
            0 <= xi,
            0 < one4,
    ;
    lemma_pow_base_increases((xi + 1) * one4, pow(r + 3, 5), 12);
    lemma_pow_distributes(xi + 1, one4, 12);
    lemma_pow_multiplies(r + 3, 5, 12);
    lemma_pow_multiplies(r + 3, 12, 5);
    lemma_pow_base_increases(0, r + 3, 12);
    lemma_pow_base_increases(pow(r + 3, 12), above * p11, 5);
    lemma_pow_distributes(above, p11, 5);
    assert(pow(xi + 1, 12) * p48 <= pow(above, 5) * p55);
    assert((pow(above, 5) * p7) * p48 == pow(above, 5) * p55) by (nonlinear_arith)
        requires
            p55 == p7 * p48,
    ;
    lemma_cancel(pow(xi + 1, 12), pow(above, 5) * p7, p48);
}

/// `c + 0.055` for a channel value `c`, in units of which `gamma_denominator` make
/// up 1.055.
pub open spec fn gamma_numerator(units: nat) -> int {
    1000 * units + 55 * VALUE_MAX
}

/// 1.055, in units of which `gamma_numerator` has `c + 0.055`.
pub open spec fn gamma_denominator() -> int {
    1055 * VALUE_MAX
}

/// Whether `value` steps are not above `(numerator / denominator)` to the power of
/// 2.4, and `value + tolerance` steps are above it: the fifth power of the value in
/// steps is held against the twelfth power of the quotient.
pub open spec fn is_power_within(value: nat, numerator: int, denominator: int, tolerance: nat) -> bool {
    &&& pow(value as int, 5) * pow(denominator, 12) <= pow(LUMINANCE_ONE as int, 5) * pow(
        numerator,
        12,
    )
    &&& pow(LUMINANCE_ONE as int, 5) * pow(numerator, 12) < pow(
        (value + tolerance) as int,
        5,
    ) * pow(denominator, 12)
}

/// The transformed value of a channel value `c` that is not above 0.03928 is `c /
/// 12.92` rounded down to a whole number of steps. The transformed value of a
/// greater channel value is not above `((c + 0.055) / 1.055)` to the power of 2.4, and
/// less than [`POWER_TOLERANCE`] steps, that is 0.0000058, below it.
pub proof fn lemma_transformed_value_accuracy(units: nat)
    requires
        units <= VALUE_MAX,
    ensures
        units <= LINEAR_LIMIT ==> transformed_value(units) * (1292 * VALUE_MAX) <= 100 * units
            * LUMINANCE_ONE < (transformed_value(units) + 1) * (1292 * VALUE_MAX),
        units > LINEAR_LIMIT ==> is_power_within(
            transformed_value(units),
            gamma_numerator(units),
            gamma_denominator(),
            POWER_TOLERANCE as nat,
        ),
{
    let one = LUMINANCE_ONE as int;
    if units <= LINEAR_LIMIT {
        let divisor = (1292 * VALUE_MAX) as int;
        let scaled = (100 * units * LUMINANCE_ONE) as int;
        vstd::arithmetic::div_mod::lemma_fundamental_div_mod(scaled, divisor);
        let quotient = scaled / divisor;
        assert(transformed_value(units) == quotient);
        assert(divisor * quotient == quotient * divisor) by (nonlinear_arith);
        assert((quotient + 1) * divisor == quotient * divisor + divisor) by (nonlinear_arith);
    } else {
        let numerator = gamma_numerator(units);
        let denominator = gamma_denominator();
        let scaled = numerator * one;
        let x = gamma_base(units) as int;
        let y = transformed_value(units) as int;
        let above = y + POWER_TOLERANCE;
        assert(denominator == 2_690_250_000_000_000_000_000);
        assert(scaled == numerator * 10_000_000);
        vstd::arithmetic::div_mod::lemma_fundamental_div_mod(scaled, denominator);
        assert(x == scaled / denominator);
        assert(denominator * x == x * denominator) by (nonlinear_arith);
        assert((x + 1) * denominator == x * denominator + denominator) by (nonlinear_arith);
        assert(x * denominator <= scaled < (x + 1) * denominator);
        assert(POWER_BASE_MIN <= x <= LUMINANCE_ONE);
        lemma_power_bounds(x as nat);
        let p5 = pow(one, 5);
        let p7 = pow(one, 7);
        let p12 = pow(one, 12);
        let d12 = pow(denominator, 12);
        let n12 = pow(numerator, 12);
        lemma_pow_adds(one, 5, 7);
        lemma_pow_positive(one, 7);
        lemma_pow_positive(denominator, 12);
        lemma_pow_distributes(numerator, one, 12);
        assert(pow(scaled, 12) == n12 * p12);
        assert(n12 * p12 == (p5 * n12) * p7) by (nonlinear_arith)
            requires
                p12 == p5 * p7,
        ;

        // From below.
        assert(0 <= x * denominator) by (nonlinear_arith)
            requires
                0 <= x,
                0 < denominator,
        ;
        lemma_pow_base_increases(x * denominator, scaled, 12);
        lemma_pow_distributes(x, denominator, 12);
        assert(pow(y, 5) * p7 * d12 <= pow(x, 12) * d12) by (nonlinear_arith)
            requires
                pow(y, 5) * p7 <= pow(x, 12),
                d12 > 0,
        ;
        assert((pow(y, 5) * d12) * p7 == pow(y, 5) * p7 * d12) by (nonlinear_arith);
        lemma_cancel(pow(y, 5) * d12, p5 * n12, p7);

        // From above.
        assert(0 <= scaled) by (nonlinear_arith)
            requires
                0 <= numerator,
                0 < one,
                scaled == numerator * one,
        ;
        lemma_pow_base_strictly_increases(scaled, (x + 1) * denominator, 12);
        lemma_pow_distributes(x + 1, denominator, 12);
        assert(pow(x + 1, 12) * d12 <= pow(above, 5) * p7 * d12) by (nonlinear_arith)
            requires
                pow(x + 1, 12) <= pow(above, 5) * p7,
                d12 > 0,
        ;
        assert((pow(above, 5) * d12) * p7 == pow(above, 5) * p7 * d12) by (nonlinear_arith);
        lemma_cancel(p5 * n12, pow(above, 5) * d12, p7);
    }
}

} // verus!
