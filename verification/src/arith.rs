//! Checked arithmetic on contract amounts.
//!
//! Amounts are `i128`. Every intermediate result has to fit; one that does not makes
//! the whole computation fail, and so does a division by zero.

use vstd::prelude::*;

verus! {

/// Basis points in one whole.
pub const BPS_DENOMINATOR: i128 = 10_000;

/// The scale of rates and prices: one is written as `10^7`.
pub const RATE_PRECISION: i128 = 10_000_000;

/// Whether `x` is an `i128`.
pub open spec fn fits(x: int) -> bool {
    i128::MIN <= x <= i128::MAX
}

/// The quotient of `a` by `d`, rounded toward zero.
pub open spec fn quot(a: int, d: int) -> int {
    if a >= 0 {
        if d > 0 {
            a / d
        } else {
            -(a / (-d))
        }
    } else {
        if d > 0 {
            -((-a) / d)
        } else {
            (-a) / (-d)
        }
    }
}

/// `a * b / d`, if `d` is not zero and both steps fit.
pub open spec fn spec_mul_div(a: i128, b: i128, d: i128) -> Option<i128> {
    if d != 0 && fits(a * b) && fits(quot(a * b, d as int)) {
        Some(quot(a * b, d as int) as i128)
    } else {
        None
    }
}

/// `a * b / d`, rounded toward zero.
#[verifier::when_used_as_spec(spec_mul_div)]
pub fn mul_div(a: i128, b: i128, d: i128) -> (r: Option<i128>)
    ensures
        r == mul_div(a, b, d),
{
    match a.checked_mul(b) {
        None => None,
        Some(p) => p.checked_div(d),
    }
}

/// `a * b * c / d`, if `d` is not zero and every step fits.
pub open spec fn spec_mul_mul_div(a: i128, b: i128, c: i128, d: i128) -> Option<i128> {
    if fits(a * b) {
        mul_div((a * b) as i128, c, d)
    } else {
        None
    }
}

/// `a * b * c / d`, rounded toward zero.
#[verifier::when_used_as_spec(spec_mul_mul_div)]
pub fn mul_mul_div(a: i128, b: i128, c: i128, d: i128) -> (r: Option<i128>)
    ensures
        r == mul_mul_div(a, b, c, d),
{
    match a.checked_mul(b) {
        None => None,
        Some(p) => mul_div(p, c, d),
    }
}

/// What a quotient of numbers that are not negative leaves is less than the divisor.
pub proof fn lemma_mul_div(a: i128, b: i128, d: i128)
    requires
        a >= 0,
        b >= 0,
        d > 0,
        mul_div(a, b, d) is Some,
    ensures
        mul_div(a, b, d)->Some_0 >= 0,
        mul_div(a, b, d)->Some_0 * d <= a * b < (mul_div(a, b, d)->Some_0 + 1) * d,
{
    let p = a * b;
    let q = p / d as int;
    assert(p >= 0) by (nonlinear_arith)
        requires
            a >= 0,
            b >= 0,
            p == a * b,
    ;
    assert(q * d <= p < (q + 1) * d && q >= 0) by (nonlinear_arith)
        requires
            d > 0,
            p >= 0,
            q == p / d as int,
    ;
}

/// The number that leaves less than the divisor is the quotient, if the product fits.
pub proof fn lemma_mul_div_is(a: i128, b: i128, d: i128, q: int)
    requires
        a >= 0,
        b >= 0,
        d > 0,
        q * d <= a * b < (q + 1) * d,
        fits(a * b),
    ensures
        0 <= q <= a * b,
        mul_div(a, b, d) == Some(q as i128),
{
    let p = a * b;
    assert(p >= 0) by (nonlinear_arith)
        requires
            a >= 0,
            b >= 0,
            p == a * b,
    ;
    assert(0 <= q <= p && q == p / d as int) by (nonlinear_arith)
        requires
            d > 0,
            p >= 0,
            q * d <= p < (q + 1) * d,
    ;
}

/// Where `q * d + r` is at most `a * n` and `n` is at most `d`, `q` is at most `a`.
proof fn lemma_portion_bound(q: int, r: int, d: int, a: int, n: int)
    requires
        q * d + r <= a * n,
        0 <= r,
        0 <= a,
        0 <= n <= d,
        0 < d,
    ensures
        q <= a,
{
    assert(q <= a) by (nonlinear_arith)
        requires
            q * d + r <= a * n,
            0 <= r,
            0 <= a,
            0 <= n <= d,
            0 < d,
    ;
}

/// `n` parts of `a` cut into `d` parts: `a * n / d`, rounded down. The product need not fit; it
/// is added up bit by bit, as a quotient and a remainder by `d`.
pub fn portion(a: i128, n: i128, d: i128) -> (r: i128)
    requires
        0 <= a,
        0 <= n < d,
    ensures
        r == (a * n) / (d as int),
        0 <= r <= a,
{
    let whole: u128 = d as u128;
    let mut left: u128 = a as u128;
    // `left` times `step_q * d + step_r` is still to be added to `sum_q * d + sum_r`.
    let mut step_q: u128 = 0;
    let mut step_r: u128 = n as u128;
    let mut sum_q: u128 = 0;
    let mut sum_r: u128 = 0;
    proof {
        assert(step_q * whole == 0 && sum_q * whole == 0) by (nonlinear_arith)
            requires
                step_q == 0,
                sum_q == 0,
        ;
        assert(left * (step_q * whole + step_r) == a * n) by (nonlinear_arith)
            requires
                left == a,
                step_q * whole == 0,
                step_r == n,
        ;
        assert(a * n >= 0) by (nonlinear_arith)
            requires
                a >= 0,
                n >= 0,
        ;
    }
    while left > 0
        invariant
            0 <= a,
            0 <= n < d,
            whole == d,
            left <= a,
            step_r < whole,
            sum_r < whole,
            sum_q <= a,
            sum_q * whole + sum_r + left * (step_q * whole + step_r) == a * n,
        decreases left,
    {
        let half: u128 = left / 2;
        let odd: bool = left % 2 == 1;
        let ghost v = step_q * whole + step_r;
        let ghost u = sum_q * whole + sum_r;
        proof {
            assert(v >= 0 && u >= 0) by (nonlinear_arith)
                requires
                    v == step_q * whole + step_r,
                    u == sum_q * whole + sum_r,
            ;
            assert(v <= left * v) by (nonlinear_arith)
                requires
                    v >= 0,
                    left >= 1,
            ;
            lemma_portion_bound(step_q as int, step_r as int, whole as int, a as int, n as int);
            assert(left * v == half * (2 * v) + (if odd {
                v
            } else {
                0
            })) by (nonlinear_arith)
                requires
                    left == 2 * half + (if odd {
                        1int
                    } else {
                        0
                    }),
            ;
        }
        if odd {
            let ghost q0 = sum_q as int;
            proof {
                assert(q0 * whole + step_q * whole == (q0 + step_q) * whole) by (nonlinear_arith);
                assert(half * (2 * v) >= 0) by (nonlinear_arith)
                    requires
                        v >= 0,
                ;
                lemma_portion_bound(
                    q0 + step_q,
                    sum_r + step_r,
                    whole as int,
                    a as int,
                    n as int,
                );
            }
            sum_q = sum_q + step_q;
            sum_r = sum_r + step_r;
            if sum_r >= whole {
                proof {
                    assert((q0 + step_q + 1) * whole == (q0 + step_q) * whole + whole)
                        by (nonlinear_arith);
                    lemma_portion_bound(
                        q0 + step_q + 1,
                        sum_r - whole,
                        whole as int,
                        a as int,
                        n as int,
                    );
                }
                sum_r = sum_r - whole;
                sum_q = sum_q + 1;
            }
        }
        let ghost p0 = step_q as int;
        proof {
            assert((2 * p0) * whole == 2 * (p0 * whole)) by (nonlinear_arith);
            assert((2 * p0 + 1) * whole == 2 * (p0 * whole) + whole) by (nonlinear_arith);
        }
        step_q = step_q * 2;
        step_r = step_r * 2;
        if step_r >= whole {
            step_r = step_r - whole;
            step_q = step_q + 1;
        }
        left = half;
    }
    proof {
        let p = a * n;
        assert(left * (step_q * whole + step_r) == 0) by (nonlinear_arith)
            requires
                left == 0,
        ;
        assert(p / (d as int) == sum_q) by (nonlinear_arith)
            requires
                p == sum_q * d + sum_r,
                0 <= sum_r < d,
        ;
    }
    sum_q as i128
}

/// The largest number whose square is at most `n`.
pub open spec fn floor_sqrt(n: nat) -> nat {
    choose|r: nat| is_floor_sqrt(n, r)
}

/// Whether `r` is the largest number whose square is at most `n`.
pub open spec fn is_floor_sqrt(n: nat, r: nat) -> bool {
    r * r <= n < (r + 1) * (r + 1)
}

/// A number that is the integer square root of `n` is `floor_sqrt(n)`.
pub proof fn lemma_floor_sqrt(n: nat, r: nat)
    requires
        is_floor_sqrt(n, r),
    ensures
        floor_sqrt(n) == r,
{
    let s = floor_sqrt(n);
    assert(is_floor_sqrt(n, s));
    assert(r == s) by (nonlinear_arith)
        requires
            r * r <= n < (r + 1) * (r + 1),
            s * s <= n < (s + 1) * (s + 1),
    ;
}

/// The mean of `x` and `n / x` is at least the integer square root of `n`: if it fell
/// to `y`, then `n < (y + 1) * (y + 1)`.
proof fn lemma_newton_step(n: int, x: int, y: int)
    requires
        n > 0,
        x > 0,
        y == (x + n / x) / 2,
    ensures
        n < (y + 1) * (y + 1),
{
    let q = n / x;
    assert(n < x * (q + 1)) by (nonlinear_arith)
        requires
            x > 0,
            q == n / x,
    ;
    assert(2 * (y + 1) >= x + q + 1);
    assert(4 * (x * (q + 1)) <= (x + q + 1) * (x + q + 1)) by (nonlinear_arith);
    assert((x + q + 1) * (x + q + 1) <= (2 * (y + 1)) * (2 * (y + 1))) by (nonlinear_arith)
        requires
            0 <= x + q + 1 <= 2 * (y + 1),
    ;
    assert((2 * (y + 1)) * (2 * (y + 1)) == 4 * ((y + 1) * (y + 1))) by (nonlinear_arith);
}

/// Integer square root using Newton's method; zero for a number that is not positive.
///
/// The largest `i128` is left out: the first Newton step adds one to it.
pub fn isqrt(n: i128) -> (r: i128)
    requires
        n < i128::MAX,
    ensures
        n <= 0 ==> r == 0,
        n > 0 ==> r == floor_sqrt(n as nat),
        n > 0 ==> r > 0 && is_floor_sqrt(n as nat, r as nat),
{
    if n <= 0 {
        return 0;
    }
    let mut x: i128 = n;
    let mut y: i128 = (x + 1) / 2;
    proof {
        assert(n / n == 1) by (nonlinear_arith)
            requires
                n > 0,
        ;
        assert(n < (n + 1) * (n + 1)) by (nonlinear_arith)
            requires
                n > 0,
        ;
    }
    while y < x
        invariant
            0 < n < i128::MAX,
            0 < x <= n,
            0 < y <= n,
            y == (x + n as int / x as int) / 2,
            n < (x + 1) * (x + 1),
        decreases x,
    {
        proof {
            lemma_newton_step(n as int, x as int, y as int);
        }
        x = y;
        proof {
            assert(1 <= n as int / x as int <= n) by (nonlinear_arith)
                requires
                    0 < x <= n,
            ;
            assert(x + n as int / x as int <= n + 1) by (nonlinear_arith)
                requires
                    0 < x <= n,
            ;
        }
        y = (x + n / x) / 2;
    }
    proof {
        let q = n as int / x as int;
        assert(q >= x);
        assert(x * x <= n) by (nonlinear_arith)
            requires
                x > 0,
                q == n as int / x as int,
                q >= x,
        ;
        assert(is_floor_sqrt(n as nat, x as nat));
        lemma_floor_sqrt(n as nat, x as nat);
    }
    x
}

} // verus!
