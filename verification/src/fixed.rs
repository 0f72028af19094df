//! Binary fixed-point scalars.
//!
//! Every physical quantity in this crate (position, velocity, time,
//! tolerance, step size) is an `i128` holding the quantity multiplied by
//! `SCALE`, i.e. a two's-complement value with 32 fractional bits.
//! All operations truncate toward zero; an operation whose intermediate
//! product leaves the `i128` range reports `None`, which callers surface
//! as a non-finite result.

use vstd::prelude::*;

verus! {

use vstd::arithmetic::div_mod::lemma_div_pos_is_pos;
use vstd::arithmetic::div_mod::lemma_div_nonincreasing;
use vstd::arithmetic::div_mod::lemma_div_is_ordered;

/// Number of fixed-point units per physical unit: 2^32.
pub const SCALE: i128 = 4294967296;

/// Truncating (round-toward-zero) division of `p` by a positive `d`.
pub open spec fn tdiv(p: int, d: int) -> int
    recommends
        d > 0,
{
    if p >= 0 {
        p / d
    } else {
        -((-p) / d)
    }
}

/// Fixed-point product `a * b / SCALE`, or `None` when the intermediate
/// product leaves the `i128` range.
pub open spec fn fmul_o(a: int, b: int) -> Option<i128> {
    if i128::MIN <= a * b <= i128::MAX {
        Some(tdiv(a * b, SCALE as int) as i128)
    } else {
        None
    }
}

/// Fixed-point quotient `a * SCALE / b` for `b > 0`, or `None` when the
/// scaled numerator leaves the `i128` range.
pub open spec fn fdiv_o(a: int, b: int) -> Option<i128>
    recommends
        b > 0,
{
    if i128::MIN <= a * (SCALE as int) <= i128::MAX {
        Some(tdiv(a * (SCALE as int), b) as i128)
    } else {
        None
    }
}

/// Checked plain product (no rescaling).
pub open spec fn prod_o(a: int, b: int) -> Option<i128> {
    if i128::MIN <= a * b <= i128::MAX {
        Some((a * b) as i128)
    } else {
        None
    }
}

/// Checked addition.
pub open spec fn add_o(a: int, b: int) -> Option<i128> {
    if i128::MIN <= a + b <= i128::MAX {
        Some((a + b) as i128)
    } else {
        None
    }
}

/// Checked subtraction.
pub open spec fn sub_o(a: int, b: int) -> Option<i128> {
    if i128::MIN <= a - b <= i128::MAX {
        Some((a - b) as i128)
    } else {
        None
    }
}

/// Truncation never grows a value: `|tdiv(p, d)| <= |p|`.
pub proof fn lemma_tdiv_bounds(p: int, d: int)
    requires
        d >= 1,
    ensures
        p >= 0 ==> 0 <= tdiv(p, d) <= p,
        p < 0 ==> p <= tdiv(p, d) <= 0,
{
    if p >= 0 {
        lemma_div_pos_is_pos(p, d);
        lemma_div_nonincreasing(p, d);
    } else {
        lemma_div_pos_is_pos(-p, d);
        lemma_div_nonincreasing(-p, d);
    }
}

/// Truncating division is monotone in the numerator (positive divisor).
pub proof fn lemma_tdiv_ordered(p: int, q: int, d: int)
    requires
        d >= 1,
        p <= q,
    ensures
        tdiv(p, d) <= tdiv(q, d),
{
    if p >= 0 {
        lemma_div_is_ordered(p, q, d);
    } else if q < 0 {
        lemma_div_is_ordered(-q, -p, d);
    } else {
        lemma_div_pos_is_pos(-p, d);
        lemma_div_pos_is_pos(q, d);
    }
}

/// Floor of the square root of `n`.
pub open spec fn sqrt_f(n: nat) -> nat
    decreases n,
{
    if n == 0 {
        0
    } else {
        let p = sqrt_f((n - 1) as nat);
        if (p + 1) * (p + 1) <= n {
            p + 1
        } else {
            p
        }
    }
}

/// `sqrt_f` is the floor of the square root.
pub proof fn lemma_sqrt_f_props(n: nat)
    ensures
        sqrt_f(n) * sqrt_f(n) <= n,
        n < (sqrt_f(n) + 1) * (sqrt_f(n) + 1),
    decreases n,
{
    let s = sqrt_f(n);
    if n > 0 {
        lemma_sqrt_f_props((n - 1) as nat);
        let p = sqrt_f((n - 1) as nat);
        if (p + 1) * (p + 1) <= n {
            assert(s == p + 1);
            assert(s * s <= n && n < (s + 1) * (s + 1)) by (nonlinear_arith)
                requires
                    s == p + 1,
                    (p + 1) * (p + 1) <= n,
                    n - 1 < (p + 1) * (p + 1),
            ;
        } else {
            assert(s == p);
            assert(s * s <= n && n < (s + 1) * (s + 1)) by (nonlinear_arith)
                requires
                    s == p,
                    p * p <= n - 1,
                    !((p + 1) * (p + 1) <= n),
            ;
        }
    } else {
        assert(s == 0);
        assert(s * s <= n && n < (s + 1) * (s + 1)) by (nonlinear_arith)
            requires
                s == 0,
                n == 0,
        ;
    }
}

/// Any `r` with `r^2 <= n < (r+1)^2` is `sqrt_f(n)`.
pub proof fn lemma_sqrt_unique(n: nat, r: nat)
    requires
        r * r <= n,
        n < (r + 1) * (r + 1),
    ensures
        r == sqrt_f(n),
{
    lemma_sqrt_f_props(n);
    let s = sqrt_f(n);
    if r < s {
        assert((r + 1) * (r + 1) <= s * s) by (nonlinear_arith)
            requires r + 1 <= s;
    }
    if s < r {
        assert((s + 1) * (s + 1) <= r * r) by (nonlinear_arith)
            requires s + 1 <= r;
    }
}

/// A bound on the radicand bounds the root.
pub proof fn lemma_sqrt_f_le(n: nat, b: nat)
    requires
        n <= b * b,
    ensures
        sqrt_f(n) <= b,
{
    lemma_sqrt_f_props(n);
    let s = sqrt_f(n);
    if s > b {
        assert(b * b < s * s) by (nonlinear_arith)
            requires
                b + 1 <= s,
        ;
    }
}

/// Monotonicity of the floor square root.
pub proof fn lemma_sqrt_f_mono(a: nat, b: nat)
    requires
        a <= b,
    ensures
        sqrt_f(a) <= sqrt_f(b),
{
    lemma_sqrt_f_props(a);
    lemma_sqrt_f_props(b);
    if sqrt_f(b) < sqrt_f(a) {
        assert((sqrt_f(b) + 1) * (sqrt_f(b) + 1) <= sqrt_f(a) * sqrt_f(a)) by (nonlinear_arith)
            requires sqrt_f(b) + 1 <= sqrt_f(a);
    }
}

/// Fifth power.
pub open spec fn p5(r: int) -> int {
    r * r * r * r * r
}

/// Fifth powers of non-negatives are monotone.
pub proof fn lemma_p5_mono(a: int, b: int)
    requires
        0 <= a <= b,
    ensures
        p5(a) <= p5(b),
        0 <= p5(a),
{
    assert(a * a * a * a * a <= b * b * b * b * b && 0 <= a * a * a * a * a)
        by (nonlinear_arith)
        requires 0 <= a <= b;
}

/// Floor of the fifth root of `n`.
pub open spec fn rt5_f(n: nat) -> nat
    decreases n,
{
    if n == 0 {
        0
    } else {
        let p = rt5_f((n - 1) as nat);
        if p5(p as int + 1) <= n {
            p + 1
        } else {
            p
        }
    }
}

/// `rt5_f` is the floor of the fifth root.
pub proof fn lemma_rt5_f_props(n: nat)
    ensures
        p5(rt5_f(n) as int) <= n,
        n < p5(rt5_f(n) as int + 1),
    decreases n,
{
    let s = rt5_f(n);
    if n > 0 {
        lemma_rt5_f_props((n - 1) as nat);
        let p = rt5_f((n - 1) as nat);
        if p5(p as int + 1) <= n {
            assert(s == p + 1);
            assert(p5(s as int) <= n && n < p5(s as int + 1)) by (nonlinear_arith)
                requires
                    s == p + 1,
                    p5(p as int + 1) <= n,
                    n - 1 < p5(p as int + 1),
                    p5(s as int) == (s as int) * (s as int) * (s as int) * (s as int) * (s as int),
                    p5(s as int + 1) == (s as int + 1) * (s as int + 1) * (s as int + 1) * (s as int + 1) * (s as int + 1),
                    p5(p as int + 1) == (p as int + 1) * (p as int + 1) * (p as int + 1) * (p as int + 1) * (p as int + 1),
            ;
        } else {
            assert(s == p);
            assert(p5(s as int) <= n && n < p5(s as int + 1)) by (nonlinear_arith)
                requires
                    s == p,
                    p5(p as int) <= n - 1,
                    !(p5(p as int + 1) <= n),
                    p5(s as int) == p5(p as int),
                    p5(s as int + 1) == p5(p as int + 1),
            ;
        }
    } else {
        assert(s == 0);
        assert(p5(s as int) <= n && n < p5(s as int + 1)) by (nonlinear_arith)
            requires
                s == 0,
                n == 0,
                p5(s as int) == (s as int) * (s as int) * (s as int) * (s as int) * (s as int),
                p5(s as int + 1) == (s as int + 1) * (s as int + 1) * (s as int + 1) * (s as int + 1) * (s as int + 1),
        ;
    }
}

/// Any `r` with `r^5 <= n < (r+1)^5` is `rt5_f(n)`.
pub proof fn lemma_rt5_unique(n: nat, r: nat)
    requires
        p5(r as int) <= n,
        n < p5(r as int + 1),
    ensures
        r == rt5_f(n),
{
    lemma_rt5_f_props(n);
    let s = rt5_f(n);
    if r < s {
        lemma_p5_mono(r as int + 1, s as int);
    }
    if s < r {
        lemma_p5_mono(s as int + 1, r as int);
    }
}

/// Monotonicity of the floor fifth root.
pub proof fn lemma_rt5_f_mono(a: nat, b: nat)
    requires
        a <= b,
    ensures
        rt5_f(a) <= rt5_f(b),
{
    lemma_rt5_f_props(a);
    lemma_rt5_f_props(b);
    if rt5_f(b) < rt5_f(a) {
        lemma_p5_mono(rt5_f(b) as int + 1, rt5_f(a) as int);
    }
}

/// Integer square root, binary search on the answer.
pub fn isqrt(n: u128) -> (r: u128)
    ensures
        r == sqrt_f(n as nat),
{
    let mut lo: u128 = 0;
    let mut hi: u128 = 18446744073709551616;
    proof {
        assert((hi as int) * (hi as int) > n as int) by (nonlinear_arith)
            requires hi == 18446744073709551616u128 && n <= u128::MAX;
    }
    while lo + 1 < hi
        invariant
            (lo as int) * (lo as int) <= n as int,
            (n as int) < (hi as int) * (hi as int),
            lo < hi <= 18446744073709551616,
        decreases hi - lo,
    {
        let mid = lo + (hi - lo) / 2;
        assert(lo < mid < hi);
        assert((mid as int) * (mid as int) <= u128::MAX as int) by (nonlinear_arith)
            requires mid < 18446744073709551616u128;
        if mid * mid <= n {
            lo = mid;
        } else {
            hi = mid;
        }
    }
    proof {
        lemma_sqrt_unique(n as nat, lo as nat);
    }
    lo
}

/// Largest argument accepted by `iroot5`: 2^115 = (2^23)^5.
pub const ROOT5_BOUND: u128 = 41538374868278621028243970633760768;

/// Integer fifth root, binary search on the answer.
pub fn iroot5(n: u128) -> (r: u128)
    requires
        n < ROOT5_BOUND,
    ensures
        r == rt5_f(n as nat),
{
    let mut lo: u128 = 0;
    let mut hi: u128 = 8388608;
    proof {
        assert(p5(hi as int) == ROOT5_BOUND as int);
    }
    while lo + 1 < hi
        invariant
            p5(lo as int) <= n as int,
            (n as int) < p5(hi as int),
            lo < hi <= 8388608,
        decreases hi - lo,
    {
        let mid = lo + (hi - lo) / 2;
        assert(lo < mid < hi);
        proof {
            assert((mid as int) * (mid as int) <= 70368744177664) by (nonlinear_arith)
                requires mid <= 8388608u128;
        }
        let m2 = mid * mid;
        proof {
            assert((m2 as int) * (m2 as int) <= 70368744177664 * 70368744177664int)
                by (nonlinear_arith)
                requires 0 <= m2 <= 70368744177664u128;
        }
        let m4 = m2 * m2;
        proof {
            assert((m4 as int) * (mid as int)
                <= 70368744177664 * 70368744177664int * 8388608)
                by (nonlinear_arith)
                requires 0 <= m4 <= 70368744177664 * 70368744177664u128 && mid <= 8388608u128;
        }
        let m5 = m4 * mid;
        assert(m5 == p5(mid as int)) by (nonlinear_arith)
            requires m2 == mid * mid && m4 == m2 * m2 && m5 == m4 * mid;
        if m5 <= n {
            lo = mid;
        } else {
            hi = mid;
        }
    }
    proof {
        lemma_rt5_unique(n as nat, lo as nat);
    }
    lo
}

/// A larger positive divisor moves a truncating quotient toward zero.
pub proof fn lemma_tdiv_denominator(p: int, d1: int, d2: int)
    requires
        1 <= d1 <= d2,
    ensures
        p >= 0 ==> tdiv(p, d2) <= tdiv(p, d1),
        p < 0 ==> tdiv(p, d1) <= tdiv(p, d2),
{
    if p >= 0 {
        vstd::arithmetic::div_mod::lemma_div_is_ordered_by_denominator(p, d1, d2);
    } else {
        vstd::arithmetic::div_mod::lemma_div_is_ordered_by_denominator(-p, d1, d2);
    }
}

/// Exec form of `fmul_o`.
pub fn fx_mul(a: i128, b: i128) -> (r: Option<i128>)
    ensures
        r == fmul_o(a as int, b as int),
{
    match a.checked_mul(b) {
        None => None,
        Some(p) => {
            proof {
                lemma_tdiv_bounds(p as int, SCALE as int);
            }
            match p.checked_div(SCALE) {
                None => None,
                Some(q) => Some(q),
            }
        },
    }
}

/// Exec form of `fdiv_o`.
pub fn fx_div(a: i128, b: i128) -> (r: Option<i128>)
    requires
        b >= 1,
    ensures
        r == fdiv_o(a as int, b as int),
{
    match a.checked_mul(SCALE) {
        None => None,
        Some(p) => {
            proof {
                lemma_tdiv_bounds(p as int, b as int);
            }
            match p.checked_div(b) {
                None => None,
                Some(q) => Some(q),
            }
        },
    }
}

/// Exec form of `prod_o`.
pub fn fx_prod(a: i128, b: i128) -> (r: Option<i128>)
    ensures
        r == prod_o(a as int, b as int),
{
    a.checked_mul(b)
}

/// Exec form of `add_o`.
pub fn fx_add(a: i128, b: i128) -> (r: Option<i128>)
    ensures
        r == add_o(a as int, b as int),
{
    a.checked_add(b)
}

/// Exec form of `sub_o`.
pub fn fx_sub(a: i128, b: i128) -> (r: Option<i128>)
    ensures
        r == sub_o(a as int, b as int),
{
    a.checked_sub(b)
}

} // verus!
