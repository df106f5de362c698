//! Exact arithmetic on amounts of money held as whole minor units.
use vstd::arithmetic::div_mod::lemma_fundamental_div_mod_converse;
use vstd::prelude::*;

verus! {

/// Basis points that make up a rate of one, that is one hundred percent.
pub const BASIS_POINTS: u32 = 10_000;

/// The quotient `n / d` rounded to the nearest integer, a tie going up.
pub open spec fn round_half_up(n: int, d: int) -> int
    recommends
        0 <= n,
        0 < d,
{
    if 2 * (n % d) >= d {
        n / d + 1
    } else {
        n / d
    }
}

/// Ten to the power `k`.
pub open spec fn pow10(k: nat) -> nat
    decreases k,
{
    if k == 0 {
        1
    } else {
        10 * pow10((k - 1) as nat)
    }
}

/// `pow10` grows with its argument and is never zero.
pub proof fn lemma_pow10_monotonic(a: nat, b: nat)
    requires
        a <= b,
    ensures
        1 <= pow10(a) <= pow10(b),
    decreases b,
{
    if a < b {
        lemma_pow10_monotonic(a, (b - 1) as nat);
    } else if a > 0 {
        lemma_pow10_monotonic((a - 1) as nat, (b - 1) as nat);
    }
}

/// Rounding a non-negative quotient half-up moves it by less than one:
/// twice the distance between `d * round_half_up(n, d)` and `n` is at most `d`.
pub proof fn lemma_round_half_up_is_nearest(n: int, d: int)
    requires
        0 <= n,
        0 < d,
    ensures
        0 <= round_half_up(n, d),
        2 * (d * round_half_up(n, d) - n) <= d,
        2 * (n - d * round_half_up(n, d)) < d,
{
    let q = n / d;
    let r = n % d;
    assert(n == d * q + r && 0 <= r < d && 0 <= q) by (nonlinear_arith)
        requires
            0 <= n,
            0 < d,
            q == n / d,
            r == n % d,
    ;
    assert(d * (q + 1) == d * q + d) by (nonlinear_arith);
}

/// Rounding half-up keeps the order of the numerators.
pub proof fn lemma_round_half_up_monotonic(a: int, b: int, d: int)
    requires
        0 <= a <= b,
        0 < d,
    ensures
        round_half_up(a, d) <= round_half_up(b, d),
{
    let qa = a / d;
    let ra = a % d;
    let qb = b / d;
    let rb = b % d;
    assert(a == d * qa + ra && 0 <= ra < d) by (nonlinear_arith)
        requires
            0 < d,
            qa == a / d,
            ra == a % d,
    ;
    assert(b == d * qb + rb && 0 <= rb < d) by (nonlinear_arith)
        requires
            0 < d,
            qb == b / d,
            rb == b % d,
    ;
    if qa > qb {
        assert(d * qa >= d * (qb + 1)) by (nonlinear_arith)
            requires
                0 < d,
                qa >= qb + 1,
        ;
        assert(d * (qb + 1) == d * qb + d) by (nonlinear_arith);
    } else if qa < qb {
    } else {
        assert(ra <= rb);
    }
}

/// The quotient of `n` by `d`, rounded half-up.
pub fn round_half_up_div(n: u128, d: u128) -> (q: u128)
    requires
        0 < d,
    ensures
        q == round_half_up(n as int, d as int),
{
    let whole: u128 = n / d;
    let rest: u128 = n % d;
    if rest >= d - rest {
        assert(whole < u128::MAX) by (nonlinear_arith)
            requires
                whole == n / d,
                2 <= d,
                n <= u128::MAX,
        ;
        whole + 1
    } else {
        whole
    }
}

/// Scaling numerator and denominator alike leaves the rounded quotient
/// unchanged.
pub proof fn lemma_round_half_up_scaled(n: int, d: int, c: int)
    requires
        0 <= n,
        0 < d,
        0 < c,
    ensures
        round_half_up(c * n, c * d) == round_half_up(n, d),
{
    let q = n / d;
    let r = n % d;
    assert(n == q * d + r && 0 <= r < d) by (nonlinear_arith)
        requires
            0 < d,
            q == n / d,
            r == n % d,
    ;
    assert(c * n == q * (c * d) + c * r && 0 <= c * r < c * d && c * d > 0) by (nonlinear_arith)
        requires
            n == q * d + r,
            0 <= r < d,
            0 < c,
    ;
    lemma_fundamental_div_mod_converse(c * n, c * d, q, c * r);
    assert((2 * (c * r) >= c * d) == (2 * r >= d)) by (nonlinear_arith)
        requires
            0 < c,
    ;
}

/// A whole multiple of the denominator is divided without rounding.
pub proof fn lemma_round_half_up_exact(q: int, d: int)
    requires
        0 < d,
    ensures
        round_half_up(q * d, d) == q,
{
    lemma_fundamental_div_mod_converse(q * d, d, q, 0);
}

/// A numerator below half the denominator rounds to zero.
pub proof fn lemma_round_half_up_small(n: int, d: int)
    requires
        0 <= n,
        2 * n < d,
    ensures
        round_half_up(n, d) == 0,
{
    lemma_fundamental_div_mod_converse(n, d, 0, n);
}

/// The decimal number `mantissa / 10^scale` of major units, expressed in
/// minor units and rounded half-up to a whole one.
pub open spec fn decimal_in_minor_units(mantissa: int, scale: nat) -> int {
    round_half_up(mantissa * 100, pow10(scale) as int)
}

/// The amount that a decimal number of major units stands for: none when
/// the number is negative or its minor units do not fit the amount type.
pub open spec fn amount_of_decimal(mantissa: int, scale: nat) -> Option<u64> {
    if mantissa < 0 || decimal_in_minor_units(mantissa, scale) > u64::MAX {
        None
    } else {
        Some(decimal_in_minor_units(mantissa, scale) as u64)
    }
}

/// The largest power of ten below half the range of `u128`.
pub proof fn lemma_pow10_38()
    ensures
        pow10(38) == 100_000_000_000_000_000_000_000_000_000_000_000_000,
{
    reveal_with_fuel(pow10, 39);
}

/// Ten to the power `k`, for a `k` whose power fits.
fn pow10_exec(k: u32) -> (p: u128)
    requires
        k <= 38,
    ensures
        p == pow10(k as nat),
        1 <= p <= 100_000_000_000_000_000_000_000_000_000_000_000_000,
{
    let mut p: u128 = 1;
    let mut j: u32 = 0;
    while j < k
        invariant
            j <= k <= 38,
            p == pow10(j as nat),
        decreases k - j,
    {
        proof {
            lemma_pow10_monotonic((j + 1) as nat, 38);
            lemma_pow10_38();
        }
        p = p * 10;
        j = j + 1;
    }
    proof {
        lemma_pow10_monotonic(k as nat, 38);
        lemma_pow10_38();
    }
    p
}

/// Turns the decimal number `mantissa / 10^scale` of major units into an
/// amount of minor units, rounding a fraction of a minor unit half-up.
/// There is no amount for a negative number, nor for one whose minor units
/// exceed `u64::MAX`.
pub fn amount_from_decimal(mantissa: i128, scale: u32) -> (amount: Option<u64>)
    ensures
        amount == amount_of_decimal(mantissa as int, scale as nat),
{
    if mantissa < 0 {
        return None;
    }
    let units: u128 = mantissa as u128;
    let rounded: u128 = if scale <= 2 {
        let factor: u128 = if scale == 0 {
            100
        } else if scale == 1 {
            10
        } else {
            1
        };
        proof {
            reveal_with_fuel(pow10, 3);
            assert(pow10(0) == 1 && pow10(1) == 10 && pow10(2) == 100);
            assert(factor * pow10(scale as nat) == 100);
            assert(units * 100 == (units * factor) * pow10(scale as nat)) by (nonlinear_arith)
                requires
                    factor * pow10(scale as nat) == 100,
            ;
            lemma_round_half_up_exact(units * factor, pow10(scale as nat) as int);
            assert(units <= units * factor <= units * 100) by (nonlinear_arith)
                requires
                    0 <= units,
                    1 <= factor <= 100,
            ;
        }
        if units > u64::MAX as u128 {
            return None;
        }
        units * factor
    } else if scale - 2 > 38 {
        proof {
            lemma_pow10_monotonic(41, scale as nat);
            lemma_pow10_38();
            reveal_with_fuel(pow10, 4);
            assert(pow10(41) == 1000 * pow10(38));
            lemma_round_half_up_small(units * 100, pow10(scale as nat) as int);
        }
        0
    } else {
        let divisor: u128 = pow10_exec(scale - 2);
        proof {
            reveal_with_fuel(pow10, 3);
            assert(pow10(scale as nat) == 100 * pow10((scale - 2) as nat));
            lemma_round_half_up_scaled(units as int, divisor as int, 100);
            assert(units / divisor <= units) by (nonlinear_arith)
                requires
                    0 <= units,
                    1 <= divisor,
            ;
        }
        round_half_up_div(units, divisor)
    };
    if rounded > u64::MAX as u128 {
        None
    } else {
        Some(rounded as u64)
    }
}

} // verus!
