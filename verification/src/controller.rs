//! Step-size control for the embedded Runge-Kutta pair.
//!
//! A trial step is accepted exactly when the scaled error norm is at most
//! one. The next step size is `h * clamp(safety * err^(-1/5), fac_min,
//! fac_max)`, with `safety = 0.9`, `fac_min = 0.2`, and `fac_max = 5.0`
//! after an accepted step but `1.0` right after a rejection, so that the
//! step cannot oscillate between growth and rejection. Factors are held
//! at 20 fractional bits.

use vstd::prelude::*;

verus! {

use crate::fixed::SCALE;
use crate::fixed::iroot5;
use crate::fixed::lemma_p5_mono;
use crate::fixed::lemma_rt5_f_mono;
use crate::fixed::lemma_rt5_f_props;
use crate::fixed::p5;
use crate::fixed::rt5_f;
use vstd::arithmetic::div_mod::lemma_div_is_ordered;
use vstd::arithmetic::div_mod::lemma_div_is_ordered_by_denominator;
use vstd::arithmetic::div_mod::lemma_div_pos_is_pos;

/// One, at 20 fractional bits.
pub const FONE20: i128 = 1048576;

/// The safety factor 0.9, at 20 fractional bits.
pub const SAFETY20: i128 = 943718;

/// The smallest step-size factor 0.2, at 20 fractional bits.
pub const FMIN20: i128 = 209715;

/// The largest step-size factor after an accepted step: 5.0.
pub const FMAX20: i128 = 5242880;

/// Largest error norm a trial step can report: 2^12 units.
pub const ERR_CAP: i128 = 17592186044416;

/// Largest step size the controller accepts: 2^63 fixed-point units.
pub const H_CAP: i128 = 9223372036854775808;

/// 2^80, lifting a 20-bit-scaled error norm to the argument of the
/// fifth root.
pub const LIFT80: i128 = 1208925819614629174706176;

/// The numerator of the raw factor: `SAFETY20 * FONE20`.
pub const SF20: i128 = 989560045568;

/// The factor limit: growth up to 5.0 normally, no growth right after a
/// rejected step.
pub open spec fn fac_max_spec(last_rejected: bool) -> int {
    if last_rejected {
        FONE20 as int
    } else {
        FMAX20 as int
    }
}

/// The step-size factor `clamp(safety * err^(-1/5), fac_min, fac_max)`
/// at 20 fractional bits, for a non-negative error norm at 32
/// fractional bits.
pub open spec fn factor_spec(err: i128, last_rejected: bool) -> int {
    let fmax = fac_max_spec(last_rejected);
    let e20 = err as int / 4096;
    if e20 == 0 {
        fmax
    } else {
        let root = rt5_f((e20 * LIFT80 as int) as nat) as int;
        let raw = SF20 as int / root;
        if raw < FMIN20 as int {
            FMIN20 as int
        } else if raw > fmax {
            fmax
        } else {
            raw
        }
    }
}

/// The next step size `h * factor`, truncated.
pub open spec fn next_h_spec(err: i128, h: i128, last_rejected: bool) -> int {
    (h as int) * factor_spec(err, last_rejected) / (FONE20 as int)
}

/// Decide a trial step from its scaled error norm: accept exactly when
/// the norm is at most one, and compute the next step size from the
/// clamped inverse fifth root of the norm. Pure; deterministic in its
/// arguments.
pub fn evaluate(err: i128, h: i128, last_rejected: bool) -> (r: (bool, i128))
    requires
        0 <= err <= ERR_CAP,
        1 <= h <= H_CAP,
    ensures
        r.0 == (err <= SCALE),
        r.1 == next_h_spec(err, h, last_rejected),
        err > SCALE ==> r.1 < h,
        0 <= r.1 <= 5 * h,
{
    let fmax: u128 = if last_rejected {
        FONE20 as u128
    } else {
        FMAX20 as u128
    };
    let e20: u128 = (err as u128) / 4096;
    let factor: u128 = if e20 == 0 {
        fmax
    } else {
        proof {
            assert(e20 * (LIFT80 as u128) < 41538374868278621028243970633760768u128)
                by (nonlinear_arith)
                requires
                    e20 <= (ERR_CAP as u128) / 4096,
            ;
        }
        let root = iroot5(e20 * (LIFT80 as u128));
        proof {
            lemma_rt5_f_props((e20 * (LIFT80 as u128)) as nat);
            if root == 0 {
                assert(p5(0int + 1) == 1) by (nonlinear_arith);
                assert(e20 * (LIFT80 as u128) >= LIFT80 as u128) by (nonlinear_arith)
                    requires
                        e20 >= 1,
                ;
            }
            assert(root >= 1);
        }
        let raw = (SF20 as u128) / root;
        if raw < FMIN20 as u128 {
            FMIN20 as u128
        } else if raw > fmax {
            fmax
        } else {
            raw
        }
    };
    proof {
        let fi = factor as int;
        let hi = h as int;
        assert(fi <= 5 * (FONE20 as int));
        assert(0 <= hi * fi && hi * fi <= (5 * hi) * (FONE20 as int) && hi * fi <= (5 * (H_CAP
            as int)) * (FONE20 as int)) by (nonlinear_arith)
            requires
                1 <= hi <= H_CAP as int,
                0 <= fi,
                fi <= 5 * (FONE20 as int),
        ;
        lemma_div_pos_is_pos(hi * fi, FONE20 as int);
        lemma_div_is_ordered(hi * fi, (5 * hi) * (FONE20 as int), FONE20 as int);
        vstd::arithmetic::div_mod::lemma_div_by_multiple(5 * hi, FONE20 as int);
        if err > SCALE {
            lemma_next_h_shrinks(err, h, last_rejected);
        }
    }
    let next_h = (h as u128) * factor / (FONE20 as u128);
    (err <= SCALE, next_h as i128)
}

/// When the error norm exceeds one, the factor is at most the safety
/// factor, so the next step is strictly smaller.
pub proof fn lemma_next_h_shrinks(err: i128, h: i128, last_rejected: bool)
    requires
        SCALE < err <= ERR_CAP,
        1 <= h <= H_CAP,
    ensures
        factor_spec(err, last_rejected) <= SAFETY20 as int,
        next_h_spec(err, h, last_rejected) < h,
{
    let e20 = err as int / 4096;
    lemma_div_is_ordered(SCALE as int + 1, err as int, 4096);
    assert(e20 >= FONE20 as int);
    let n = (e20 * LIFT80 as int) as nat;
    assert(e20 * LIFT80 as int >= FONE20 as int * LIFT80 as int) by (nonlinear_arith)
        requires
            e20 >= FONE20 as int,
    ;
    lemma_rt5_f_props(n);
    let root = rt5_f(n) as int;
    assert(p5(FONE20 as int) == FONE20 as int * LIFT80 as int) by (nonlinear_arith);
    if root < FONE20 as int {
        lemma_p5_mono(root + 1, FONE20 as int);
        assert(false);
    }
    lemma_div_is_ordered_by_denominator(SF20 as int, FONE20 as int, root);
    assert(SF20 as int / (FONE20 as int) == SAFETY20 as int) by {
        vstd::arithmetic::div_mod::lemma_div_by_multiple(SAFETY20 as int, FONE20 as int);
        assert(SF20 as int == (SAFETY20 as int) * (FONE20 as int)) by (nonlinear_arith);
    }
    assert(factor_spec(err, last_rejected) <= SAFETY20 as int);
    let f = factor_spec(err, last_rejected);
    assert(h as int * f <= h as int * SAFETY20 as int) by (nonlinear_arith)
        requires
            f <= SAFETY20 as int,
            h >= 1,
    ;
    lemma_div_is_ordered(h as int * f, h as int * SAFETY20 as int, FONE20 as int);
    vstd::arithmetic::div_mod::lemma_multiply_divide_lt(
        h as int * SAFETY20 as int,
        FONE20 as int,
        h as int,
    );
    assert((h as int) * (SAFETY20 as int) < (h as int) * (FONE20 as int)) by (nonlinear_arith)
        requires
            h >= 1,
    ;
}

/// Tolerance monotonicity at the controller: a larger error norm never
/// yields a larger next step, and a step accepted at the larger norm is
/// accepted at the smaller.
pub proof fn lemma_step_control_monotone(err1: i128, err2: i128, h: i128, last_rejected: bool)
    requires
        0 <= err1 <= err2 <= ERR_CAP,
        1 <= h <= H_CAP,
    ensures
        next_h_spec(err2, h, last_rejected) <= next_h_spec(err1, h, last_rejected),
        err2 <= SCALE ==> err1 <= SCALE,
{
    let fmax = fac_max_spec(last_rejected);
    let e1 = err1 as int / 4096;
    let e2 = err2 as int / 4096;
    lemma_div_is_ordered(err1 as int, err2 as int, 4096);
    lemma_div_pos_is_pos(err1 as int, 4096);
    assert(0 <= e1 <= e2);
    let f1 = factor_spec(err1, last_rejected);
    let f2 = factor_spec(err2, last_rejected);
    assert(f2 <= f1) by {
        if e1 == 0 {
            assert(f1 == fmax);
            lemma_factor_le_fmax(err2, last_rejected);
        } else {
            let n1 = (e1 * LIFT80 as int) as nat;
            let n2 = (e2 * LIFT80 as int) as nat;
            assert(e1 * LIFT80 as int <= e2 * LIFT80 as int && e1 * LIFT80 as int >= LIFT80 as int)
                by (nonlinear_arith)
                requires
                    1 <= e1 <= e2,
            ;
            lemma_rt5_f_mono(n1, n2);
            lemma_rt5_f_props(n1);
            lemma_p5_mono(1, rt5_f(n1) as int);
            if rt5_f(n1) == 0 {
                assert(p5(0int + 1) == 1);
                assert(false);
            }
            lemma_div_is_ordered_by_denominator(
                SF20 as int,
                rt5_f(n1) as int,
                rt5_f(n2) as int,
            );
        }
    }
    assert(h as int * f2 <= h as int * f1) by (nonlinear_arith)
        requires
            f2 <= f1,
            h >= 1,
    ;
    lemma_div_is_ordered(h as int * f2, h as int * f1, FONE20 as int);
}

/// The factor never exceeds its configured limit.
proof fn lemma_factor_le_fmax(err: i128, last_rejected: bool)
    requires
        0 <= err <= ERR_CAP,
    ensures
        factor_spec(err, last_rejected) <= fac_max_spec(last_rejected),
{
    let e20 = err as int / 4096;
    if e20 != 0 {
        lemma_div_pos_is_pos(err as int, 4096);
    }
}

} // verus!

