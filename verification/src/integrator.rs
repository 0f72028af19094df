//! The adaptive embedded Runge-Kutta integrator, Dormand-Prince 5(4).
//!
//! A trial step of size `h` evaluates seven stage derivatives through the
//! fixed Butcher tableau, forms the fifth-order solution and the
//! fourth-order embedded estimate from the same evaluations, and reports
//! the RMS of the componentwise error scaled by `atol + rtol * max(|y|,
//! |y_new|)`. The step-size controller accepts the step exactly when that
//! norm is at most one. Zero tableau entries are not evaluated.

use vstd::prelude::*;

verus! {

use crate::controller::ERR_CAP;
use crate::controller::evaluate;
use crate::controller::next_h_spec;
use crate::dynamics::DynamicsParameters;
use crate::dynamics::deriv_o;
use crate::dynamics::singular_o;
use crate::error::IntegrationError;
use crate::fixed::SCALE;
use crate::fixed::add_o;
use crate::fixed::fdiv_o;
use crate::fixed::fmul_o;
use crate::fixed::fx_add;
use crate::fixed::fx_div;
use crate::fixed::fx_mul;
use crate::fixed::fx_sub;
use crate::fixed::isqrt;
use crate::fixed::lemma_sqrt_f_le;
use crate::fixed::lemma_sqrt_f_mono;
use crate::fixed::lemma_tdiv_bounds;
use crate::fixed::lemma_tdiv_denominator;
use crate::fixed::lemma_tdiv_ordered;
use crate::fixed::sqrt_f;
use crate::fixed::sub_o;
use crate::state::StateVector;
use crate::state::hax_o;
use crate::state::sv_hax;
use crate::trajectory::Trajectory;
use crate::trajectory::TrajectorySample;

// Dormand-Prince 5(4) tableau, 32 fractional bits, rounded to nearest.
pub const A21: i128 = 858993459;  // 1/5
pub const A31: i128 = 322122547;  // 3/40
pub const A32: i128 = 966367642;  // 9/40
pub const A41: i128 = 4199523578;  // 44/45
pub const A42: i128 = -16034544572;  // -56/15
pub const A43: i128 = 15270994830;  // 32/9
pub const A51: i128 = 12681314808;  // 19372/6561
pub const A52: i128 = -49803553099;  // -25360/2187
pub const A53: i128 = 42189003550;  // 64448/6561
pub const A54: i128 = -1249016552;  // -212/729
pub const A61: i128 = 12224659125;  // 9017/3168
pub const A62: i128 = -46203436063;  // -355/33
pub const A63: i128 = 38252794297;  // 46732/5247
pub const A64: i128 = 1195757940;  // 49/176
pub const A65: i128 = -1174808003;  // -5103/18656
pub const B1: i128 = 391468373;  // 35/384
pub const B3: i128 = 1929455209;  // 500/1113
pub const B4: i128 = 2796202667;  // 125/192
pub const B5: i128 = -1384595147;  // -2187/6784
pub const B6: i128 = 562436194;  // 11/84
pub const BS1: i128 = 386174230;  // 5179/57600
pub const BS3: i128 = 1947720719;  // 7571/16695
pub const BS4: i128 = 2637378355;  // 393/640
pub const BS5: i128 = -1166136801;  // -92097/339200
pub const BS6: i128 = 382456612;  // 187/2100
pub const BS7: i128 = 107374182;  // 1/40

/// Largest time magnitude a propagation accepts: 2^62 fixed-point
/// units, so that a time span always fits the controller's step cap.
pub const T_LIM: i128 = 4611686018427387904;

/// Tolerances, initial step, minimum step and step ceiling for one
/// propagation. Read-only for its duration.
#[derive(Clone, Copy, PartialEq, Eq, Structural, Debug)]
pub struct IntegrationConfig {
    /// Relative error tolerance.
    pub rtol: i128,
    /// Absolute error tolerance.
    pub atol: i128,
    /// Initial trial step size.
    pub h0: i128,
    /// Smallest step size the controller may reach before the
    /// propagation fails with `StepSizeUnderflow`.
    pub h_min: i128,
    /// Largest number of accepted steps.
    pub max_steps: u32,
}

impl IntegrationConfig {
    /// All bounds must be positive (at least one fixed-point unit).
    pub open spec fn valid(self) -> bool {
        self.rtol >= 1 && self.atol >= 1 && self.h0 >= 1 && self.h_min >= 1 && self.max_steps
            >= 1
    }
}

/// Magnitude, `None` only for the one unrepresentable case.
pub open spec fn abs_o(c: i128) -> Option<i128> {
    if c >= 0 {
        Some(c)
    } else {
        sub_o(0, c as int)
    }
}

/// The scaled error of one component: `|y5 - y4| / (atol + rtol *
/// max(|y|, |y5|))`, truncated, capped at `ERR_CAP`; an overflowing
/// quotient counts as maximal error. `None` when the error scale itself
/// cannot be formed.
pub open spec fn comp_ratio_o(cfg: IntegrationConfig, yc: i128, y5c: i128, y4c: i128) -> Option<
    i128,
> {
    match sub_o(y5c as int, y4c as int) {
        None => None,
        Some(e) => match abs_o(yc) {
            None => None,
            Some(a1) => match abs_o(y5c) {
                None => None,
                Some(a2) => {
                    let m = if a1 >= a2 {
                        a1
                    } else {
                        a2
                    };
                    match fmul_o(cfg.rtol as int, m as int) {
                        None => None,
                        Some(rm) => match add_o(cfg.atol as int, rm as int) {
                            None => None,
                            Some(sc) => match fdiv_o(e as int, sc as int) {
                                None => Some(ERR_CAP),
                                Some(q) => if q >= ERR_CAP || q <= -ERR_CAP {
                                    Some(ERR_CAP)
                                } else if q < 0 {
                                    Some((-(q as int)) as i128)
                                } else {
                                    Some(q)
                                },
                            },
                        },
                    }
                },
            },
        },
    }
}

/// The RMS error norm of a trial step, fixed point.
pub open spec fn err_o(cfg: IntegrationConfig, y: StateVector, y5: StateVector, y4: StateVector)
    -> Option<i128> {
    let r1 = comp_ratio_o(cfg, y.x, y5.x, y4.x);
    let r2 = comp_ratio_o(cfg, y.y, y5.y, y4.y);
    let r3 = comp_ratio_o(cfg, y.z, y5.z, y4.z);
    let r4 = comp_ratio_o(cfg, y.vx, y5.vx, y4.vx);
    let r5 = comp_ratio_o(cfg, y.vy, y5.vy, y4.vy);
    let r6 = comp_ratio_o(cfg, y.vz, y5.vz, y4.vz);
    if r1 is Some && r2 is Some && r3 is Some && r4 is Some && r5 is Some && r6 is Some {
        let s1 = r1.unwrap() as int;
        let s2 = r2.unwrap() as int;
        let s3 = r3.unwrap() as int;
        let s4 = r4.unwrap() as int;
        let s5 = r5.unwrap() as int;
        let s6 = r6.unwrap() as int;
        let mean = (s1 * s1 + s2 * s2 + s3 * s3 + s4 * s4 + s5 * s5 + s6 * s6) / 6;
        Some(sqrt_f(mean as nat) as i128)
    } else {
        None
    }
}

/// `Err(NonFiniteResult)` for an overflowed stage combination.
pub open spec fn to_finite(o: Option<StateVector>) -> Result<StateVector, IntegrationError> {
    match o {
        None => Err(IntegrationError::NonFiniteResult),
        Some(s) => Ok(s),
    }
}

/// Second-stage state `y + h * a21 * k1`.
pub open spec fn s2_o(p: DynamicsParameters, y: StateVector, h: i128) -> Result<
    StateVector,
    IntegrationError,
> {
    match deriv_o(p, y) {
        Err(e) => Err(e),
        Ok(k1) => to_finite(hax_o(Some(y), h, A21, k1)),
    }
}

pub open spec fn k2_o(p: DynamicsParameters, y: StateVector, h: i128) -> Result<
    StateVector,
    IntegrationError,
> {
    match s2_o(p, y, h) {
        Err(e) => Err(e),
        Ok(s2) => deriv_o(p, s2),
    }
}

pub open spec fn s3_o(p: DynamicsParameters, y: StateVector, h: i128) -> Result<
    StateVector,
    IntegrationError,
> {
    match deriv_o(p, y) {
        Err(e) => Err(e),
        Ok(k1) => match k2_o(p, y, h) {
            Err(e) => Err(e),
            Ok(k2) => to_finite(hax_o(hax_o(Some(y), h, A31, k1), h, A32, k2)),
        },
    }
}

pub open spec fn k3_o(p: DynamicsParameters, y: StateVector, h: i128) -> Result<
    StateVector,
    IntegrationError,
> {
    match s3_o(p, y, h) {
        Err(e) => Err(e),
        Ok(s3) => deriv_o(p, s3),
    }
}

pub open spec fn s4_o(p: DynamicsParameters, y: StateVector, h: i128) -> Result<
    StateVector,
    IntegrationError,
> {
    match deriv_o(p, y) {
        Err(e) => Err(e),
        Ok(k1) => match k2_o(p, y, h) {
            Err(e) => Err(e),
            Ok(k2) => match k3_o(p, y, h) {
                Err(e) => Err(e),
                Ok(k3) => to_finite(
                    hax_o(hax_o(hax_o(Some(y), h, A41, k1), h, A42, k2), h, A43, k3),
                ),
            },
        },
    }
}

pub open spec fn k4_o(p: DynamicsParameters, y: StateVector, h: i128) -> Result<
    StateVector,
    IntegrationError,
> {
    match s4_o(p, y, h) {
        Err(e) => Err(e),
        Ok(s4) => deriv_o(p, s4),
    }
}

pub open spec fn s5_o(p: DynamicsParameters, y: StateVector, h: i128) -> Result<
    StateVector,
    IntegrationError,
> {
    match deriv_o(p, y) {
        Err(e) => Err(e),
        Ok(k1) => match k2_o(p, y, h) {
            Err(e) => Err(e),
            Ok(k2) => match k3_o(p, y, h) {
                Err(e) => Err(e),
                Ok(k3) => match k4_o(p, y, h) {
                    Err(e) => Err(e),
                    Ok(k4) => to_finite(
                        hax_o(
                            hax_o(hax_o(hax_o(Some(y), h, A51, k1), h, A52, k2), h, A53, k3),
                            h,
                            A54,
                            k4,
                        ),
                    ),
                },
            },
        },
    }
}

pub open spec fn k5_o(p: DynamicsParameters, y: StateVector, h: i128) -> Result<
    StateVector,
    IntegrationError,
> {
    match s5_o(p, y, h) {
        Err(e) => Err(e),
        Ok(s5) => deriv_o(p, s5),
    }
}

pub open spec fn s6_o(p: DynamicsParameters, y: StateVector, h: i128) -> Result<
    StateVector,
    IntegrationError,
> {
    match deriv_o(p, y) {
        Err(e) => Err(e),
        Ok(k1) => match k2_o(p, y, h) {
            Err(e) => Err(e),
            Ok(k2) => match k3_o(p, y, h) {
                Err(e) => Err(e),
                Ok(k3) => match k4_o(p, y, h) {
                    Err(e) => Err(e),
                    Ok(k4) => match k5_o(p, y, h) {
                        Err(e) => Err(e),
                        Ok(k5) => to_finite(
                            hax_o(
                                hax_o(
                                    hax_o(
                                        hax_o(hax_o(Some(y), h, A61, k1), h, A62, k2),
                                        h,
                                        A63,
                                        k3,
                                    ),
                                    h,
                                    A64,
                                    k4,
                                ),
                                h,
                                A65,
                                k5,
                            ),
                        ),
                    },
                },
            },
        },
    }
}

pub open spec fn k6_o(p: DynamicsParameters, y: StateVector, h: i128) -> Result<
    StateVector,
    IntegrationError,
> {
    match s6_o(p, y, h) {
        Err(e) => Err(e),
        Ok(s6) => deriv_o(p, s6),
    }
}

/// The fifth-order solution `y + h * (b1 k1 + b3 k3 + b4 k4 + b5 k5 +
/// b6 k6)`; the tableau's second and seventh weights are zero.
pub open spec fn y5_o(p: DynamicsParameters, y: StateVector, h: i128) -> Result<
    StateVector,
    IntegrationError,
> {
    match deriv_o(p, y) {
        Err(e) => Err(e),
        Ok(k1) => match k3_o(p, y, h) {
            Err(e) => Err(e),
            Ok(k3) => match k4_o(p, y, h) {
                Err(e) => Err(e),
                Ok(k4) => match k5_o(p, y, h) {
                    Err(e) => Err(e),
                    Ok(k5) => match k6_o(p, y, h) {
                        Err(e) => Err(e),
                        Ok(k6) => to_finite(
                            hax_o(
                                hax_o(
                                    hax_o(
                                        hax_o(hax_o(Some(y), h, B1, k1), h, B3, k3),
                                        h,
                                        B4,
                                        k4,
                                    ),
                                    h,
                                    B5,
                                    k5,
                                ),
                                h,
                                B6,
                                k6,
                            ),
                        ),
                    },
                },
            },
        },
    }
}

pub open spec fn k7_o(p: DynamicsParameters, y: StateVector, h: i128) -> Result<
    StateVector,
    IntegrationError,
> {
    match y5_o(p, y, h) {
        Err(e) => Err(e),
        Ok(s7) => deriv_o(p, s7),
    }
}

/// The fourth-order embedded estimate, from the same stage derivatives
/// and the seventh stage at the fifth-order solution.
pub open spec fn y4_o(p: DynamicsParameters, y: StateVector, h: i128) -> Result<
    StateVector,
    IntegrationError,
> {
    match deriv_o(p, y) {
        Err(e) => Err(e),
        Ok(k1) => match k3_o(p, y, h) {
            Err(e) => Err(e),
            Ok(k3) => match k4_o(p, y, h) {
                Err(e) => Err(e),
                Ok(k4) => match k5_o(p, y, h) {
                    Err(e) => Err(e),
                    Ok(k5) => match k6_o(p, y, h) {
                        Err(e) => Err(e),
                        Ok(k6) => match k7_o(p, y, h) {
                            Err(e) => Err(e),
                            Ok(k7) => to_finite(
                                hax_o(
                                    hax_o(
                                        hax_o(
                                            hax_o(
                                                hax_o(
                                                    hax_o(Some(y), h, BS1, k1),
                                                    h,
                                                    BS3,
                                                    k3,
                                                ),
                                                h,
                                                BS4,
                                                k4,
                                            ),
                                            h,
                                            BS5,
                                            k5,
                                        ),
                                        h,
                                        BS6,
                                        k6,
                                    ),
                                    h,
                                    BS7,
                                    k7,
                                ),
                            ),
                        },
                    },
                },
            },
        },
    }
}

/// One full trial step: the fifth-order solution and the scaled error
/// norm of the embedded pair. Opaque: callers reason through the
/// contract of `trial_step`, not through this definition.
#[verifier::opaque]
pub open spec fn step_o(
    p: DynamicsParameters,
    cfg: IntegrationConfig,
    y: StateVector,
    h: i128,
) -> Result<(StateVector, i128), IntegrationError> {
    match y5_o(p, y, h) {
        Err(e) => Err(e),
        Ok(y5) => match y4_o(p, y, h) {
            Err(e) => Err(e),
            Ok(y4) => match err_o(cfg, y, y5, y4) {
                None => Err(IntegrationError::NonFiniteResult),
                Some(err) => Ok((y5, err)),
            },
        },
    }
}

/// Two consecutive trajectory samples are related by one accepted
/// Dormand-Prince trial step of some positive size.
pub open spec fn accepted_step_o(
    p: DynamicsParameters,
    cfg: IntegrationConfig,
    s0: TrajectorySample,
    s1: TrajectorySample,
) -> bool {
    exists|h: i128|
        1 <= h && s1.t == s0.t + h && match #[trigger] step_o(p, cfg, s0.state, h) {
            Ok(pair) => pair.0 == s1.state && pair.1 <= SCALE,
            Err(_) => false,
        }
}

/// All inputs a propagation call accepts: positive tolerances and step
/// bounds, a forward (or empty) time span within the representable
/// window, and valid dynamics parameters.
pub open spec fn inputs_valid(
    p: DynamicsParameters,
    cfg: IntegrationConfig,
    t_start: i128,
    t_end: i128,
) -> bool {
    cfg.valid() && p.valid() && t_start <= t_end && -T_LIM <= t_start && t_end <= T_LIM
}

fn fx_abs(c: i128) -> (r: Option<i128>)
    ensures
        r == abs_o(c),
{
    if c >= 0 {
        Some(c)
    } else {
        let z: i128 = 0;
        z.checked_sub(c)
    }
}

fn comp_ratio(cfg: &IntegrationConfig, yc: i128, y5c: i128, y4c: i128) -> (r: Option<i128>)
    requires
        cfg.valid(),
    ensures
        r == comp_ratio_o(*cfg, yc, y5c, y4c),
        r is Some ==> 0 <= r.unwrap() <= ERR_CAP,
{
    let e = match fx_sub(y5c, y4c) {
        None => return None,
        Some(v) => v,
    };
    let a1 = match fx_abs(yc) {
        None => return None,
        Some(v) => v,
    };
    let a2 = match fx_abs(y5c) {
        None => return None,
        Some(v) => v,
    };
    let m = if a1 >= a2 {
        a1
    } else {
        a2
    };
    let rm = match fx_mul(cfg.rtol, m) {
        None => return None,
        Some(v) => v,
    };
    proof {
        crate::fixed::lemma_tdiv_bounds((cfg.rtol as int) * (m as int), SCALE as int);
        assert((cfg.rtol as int) * (m as int) >= 0) by (nonlinear_arith)
            requires
                cfg.rtol >= 1,
                m >= 0,
        ;
    }
    let sc = match fx_add(cfg.atol, rm) {
        None => return None,
        Some(v) => v,
    };
    match fx_div(e, sc) {
        None => Some(ERR_CAP),
        Some(q) => if q >= ERR_CAP || q <= -ERR_CAP {
            Some(ERR_CAP)
        } else if q < 0 {
            Some(-q)
        } else {
            Some(q)
        },
    }
}

fn error_norm(cfg: &IntegrationConfig, y: &StateVector, y5: &StateVector, y4: &StateVector) -> (r:
    Option<i128>)
    requires
        cfg.valid(),
    ensures
        r == err_o(*cfg, *y, *y5, *y4),
        r is Some ==> 0 <= r.unwrap() <= ERR_CAP,
{
    let r1 = match comp_ratio(cfg, y.x, y5.x, y4.x) {
        None => return None,
        Some(v) => v,
    };
    let r2 = match comp_ratio(cfg, y.y, y5.y, y4.y) {
        None => return None,
        Some(v) => v,
    };
    let r3 = match comp_ratio(cfg, y.z, y5.z, y4.z) {
        None => return None,
        Some(v) => v,
    };
    let r4 = match comp_ratio(cfg, y.vx, y5.vx, y4.vx) {
        None => return None,
        Some(v) => v,
    };
    let r5 = match comp_ratio(cfg, y.vy, y5.vy, y4.vy) {
        None => return None,
        Some(v) => v,
    };
    let r6 = match comp_ratio(cfg, y.vz, y5.vz, y4.vz) {
        None => return None,
        Some(v) => v,
    };
    proof {
        lemma_sq_cap(r1 as int);
        lemma_sq_cap(r2 as int);
        lemma_sq_cap(r3 as int);
        lemma_sq_cap(r4 as int);
        lemma_sq_cap(r5 as int);
        lemma_sq_cap(r6 as int);
    }
    let q1 = (r1 as u128) * (r1 as u128);
    let q2 = (r2 as u128) * (r2 as u128);
    let q3 = (r3 as u128) * (r3 as u128);
    let q4 = (r4 as u128) * (r4 as u128);
    let q5 = (r5 as u128) * (r5 as u128);
    let q6 = (r6 as u128) * (r6 as u128);
    let mean = (q1 + q2 + q3 + q4 + q5 + q6) / 6;
    proof {
        assert((ERR_CAP as int) * (ERR_CAP as int) == 309485009821345068724781056int)
            by (nonlinear_arith);
        vstd::arithmetic::div_mod::lemma_div_is_ordered(
            mean as int,
            6 * 309485009821345068724781056int,
            6,
        );
        vstd::arithmetic::div_mod::lemma_div_by_multiple(309485009821345068724781056int, 6);
        lemma_sqrt_f_le(mean as nat, ERR_CAP as nat);
    }
    let e = isqrt(mean);
    Some(e as i128)
}

/// A capped ratio squares to at most `ERR_CAP^2`.
proof fn lemma_sq_cap(r: int)
    requires
        0 <= r <= ERR_CAP as int,
    ensures
        0 <= r * r <= 309485009821345068724781056int,
{
    assert(0 <= r * r <= 309485009821345068724781056int) by (nonlinear_arith)
        requires
            0 <= r <= 17592186044416int,
    ;
}

/// One trial step of size `h` from state `y`: seven stage evaluations,
/// the embedded pair, and its scaled error norm.
fn trial_step(p: &DynamicsParameters, cfg: &IntegrationConfig, y: &StateVector, h: i128) -> (r:
    Result<(StateVector, i128), IntegrationError>)
    requires
        p.valid(),
        cfg.valid(),
    ensures
        r == step_o(*p, *cfg, *y, h),
        singular_o(*p, *y) ==> r == Err::<(StateVector, i128), IntegrationError>(
            IntegrationError::SingularState,
        ),
        r is Ok ==> 0 <= r.unwrap().1 <= ERR_CAP,
        r is Err ==> r->Err_0 == IntegrationError::SingularState || r->Err_0
            == IntegrationError::NonFiniteResult,
{
    proof {
        reveal(crate::integrator::step_o);
    }
    let k1 = match p.derivative(0, y) {
        Err(e) => return Err(e),
        Ok(v) => v,
    };
    let s2 = match sv_hax(Some(*y), h, A21, &k1) {
        None => return Err(IntegrationError::NonFiniteResult),
        Some(v) => v,
    };
    let k2 = match p.derivative(0, &s2) {
        Err(e) => return Err(e),
        Ok(v) => v,
    };
    let s3 = match sv_hax(sv_hax(Some(*y), h, A31, &k1), h, A32, &k2) {
        None => return Err(IntegrationError::NonFiniteResult),
        Some(v) => v,
    };
    let k3 = match p.derivative(0, &s3) {
        Err(e) => return Err(e),
        Ok(v) => v,
    };
    let s4 = match sv_hax(sv_hax(sv_hax(Some(*y), h, A41, &k1), h, A42, &k2), h, A43, &k3) {
        None => return Err(IntegrationError::NonFiniteResult),
        Some(v) => v,
    };
    let k4 = match p.derivative(0, &s4) {
        Err(e) => return Err(e),
        Ok(v) => v,
    };
    let s5 = match sv_hax(
        sv_hax(sv_hax(sv_hax(Some(*y), h, A51, &k1), h, A52, &k2), h, A53, &k3),
        h,
        A54,
        &k4,
    ) {
        None => return Err(IntegrationError::NonFiniteResult),
        Some(v) => v,
    };
    let k5 = match p.derivative(0, &s5) {
        Err(e) => return Err(e),
        Ok(v) => v,
    };
    let s6 = match sv_hax(
        sv_hax(
            sv_hax(sv_hax(sv_hax(Some(*y), h, A61, &k1), h, A62, &k2), h, A63, &k3),
            h,
            A64,
            &k4,
        ),
        h,
        A65,
        &k5,
    ) {
        None => return Err(IntegrationError::NonFiniteResult),
        Some(v) => v,
    };
    let k6 = match p.derivative(0, &s6) {
        Err(e) => return Err(e),
        Ok(v) => v,
    };
    let ynew = match sv_hax(
        sv_hax(
            sv_hax(sv_hax(sv_hax(Some(*y), h, B1, &k1), h, B3, &k3), h, B4, &k4),
            h,
            B5,
            &k5,
        ),
        h,
        B6,
        &k6,
    ) {
        None => return Err(IntegrationError::NonFiniteResult),
        Some(v) => v,
    };
    let k7 = match p.derivative(0, &ynew) {
        Err(e) => return Err(e),
        Ok(v) => v,
    };
    let y4 = match sv_hax(
        sv_hax(
            sv_hax(
                sv_hax(sv_hax(sv_hax(Some(*y), h, BS1, &k1), h, BS3, &k3), h, BS4, &k4),
                h,
                BS5,
                &k5,
            ),
            h,
            BS6,
            &k6,
        ),
        h,
        BS7,
        &k7,
    ) {
        None => return Err(IntegrationError::NonFiniteResult),
        Some(v) => v,
    };
    match error_norm(cfg, y, &ynew, &y4) {
        None => Err(IntegrationError::NonFiniteResult),
        Some(err) => Ok((ynew, err)),
    }
}

/// Propagate `initial_state` from `t_start` to `t_end` under two-body
/// gravity, recording every accepted sample.
///
/// On success the trajectory starts with `(t_start, initial_state)`,
/// its times are strictly increasing, the last time is exactly `t_end`,
/// and every consecutive pair of samples is one accepted Dormand-Prince
/// trial step whose scaled error norm was at most one. On failure the
/// partial trajectory is discarded and only the error is returned.
///
/// A span running backward in time is refused as invalid: the dynamics
/// are time-symmetric, so a caller propagates backward by negating the
/// velocity components.
pub fn propagate(
    initial_state: &StateVector,
    params: &DynamicsParameters,
    t_start: i128,
    t_end: i128,
    config: &IntegrationConfig,
) -> (r: Result<Trajectory, IntegrationError>)
    ensures
        r is Err && r->Err_0 == IntegrationError::InvalidConfig <==> !inputs_valid(
            *params,
            *config,
            t_start,
            t_end,
        ),
        r is Ok ==> {
            let tr = r->Ok_0;
            &&& tr.wf()
            &&& tr@.len() >= 1
            &&& tr@.len() <= config.max_steps + 1
            &&& tr@[0].t == t_start
            &&& tr@[0].state == *initial_state
            &&& tr@.last().t == t_end
            &&& forall|i: int|
                0 <= i < tr@.len() - 1 ==> #[trigger] accepted_step_o(
                    *params,
                    *config,
                    tr@[i],
                    tr@[i + 1],
                )
        },
        inputs_valid(*params, *config, t_start, t_end) && t_start < t_end && singular_o(
            *params,
            *initial_state,
        ) ==> r == Err::<Trajectory, IntegrationError>(IntegrationError::SingularState),
        inputs_valid(*params, *config, t_start, t_end) && t_start < t_end ==> (match outcome_o(
            *params,
            *config,
            t_end,
            t_start,
            *initial_state,
            config.h0,
            0,
            false,
        ) {
            Ok(fin) => r is Ok && r->Ok_0@.last().state == fin,
            Err(e) => r is Err && r->Err_0 == e,
        }),
{
    let valid = config.rtol >= 1 && config.atol >= 1 && config.h0 >= 1 && config.h_min >= 1
        && config.max_steps >= 1 && params.mu >= 1 && params.min_radius >= 1 && t_start <= t_end
        && -T_LIM <= t_start && t_end <= T_LIM;
    if !valid {
        return Err(IntegrationError::InvalidConfig);
    }
    let mut traj = Trajectory::new();
    traj.push(t_start, *initial_state);
    if t_start == t_end {
        return Ok(traj);
    }
    let mut t = t_start;
    let mut y = *initial_state;
    let mut h = config.h0;
    let mut naccepted: u32 = 0;
    let mut last_rejected = false;
    let ghost base = outcome_o(
        *params,
        *config,
        t_end,
        t_start,
        *initial_state,
        config.h0,
        0,
        false,
    );
    loop
        invariant
            inputs_valid(*params, *config, t_start, t_end),
            t_start <= t < t_end,
            h >= 1,
            naccepted <= config.max_steps,
            traj.wf(),
            traj@.len() == naccepted + 1,
            traj@[0].t == t_start,
            traj@[0].state == *initial_state,
            traj@.last().t == t,
            traj@.last().state == y,
            forall|i: int|
                0 <= i < traj@.len() - 1 ==> #[trigger] accepted_step_o(
                    *params,
                    *config,
                    traj@[i],
                    traj@[i + 1],
                ),
            singular_o(*params, *initial_state) ==> naccepted == 0,
            naccepted == 0 ==> y == *initial_state && t == t_start,
            outcome_o(*params, *config, t_end, t, y, h, naccepted, last_rejected) == base,
            base == outcome_o(
                *params,
                *config,
                t_end,
                t_start,
                *initial_state,
                config.h0,
                0,
                false,
            ),
        decreases config.max_steps - naccepted, h,
    {
        if naccepted >= config.max_steps {
            proof {
                assert(base == Err::<StateVector, IntegrationError>(
                    IntegrationError::MaxStepsExceeded,
                ));
            }
            return Err(IntegrationError::MaxStepsExceeded);
        }
        let rem = t_end - t;
        let hc = if h > rem {
            rem
        } else {
            h
        };
        proof {
            assert(hc == (if h > (t_end - t) as i128 {
                (t_end - t) as i128
            } else {
                h
            }));
        }
        match trial_step(params, config, &y, hc) {
            Err(e) => {
                proof {
                    assert(base == Err::<StateVector, IntegrationError>(e));
                }
                return Err(e);
            },
            Ok((ynew, err)) => {
                let (acc, hn) = evaluate(err, hc, last_rejected);
                if acc {
                    let t2 = t + hc;
                    proof {
                        if t2 == t_end {
                            assert(base == Ok::<StateVector, IntegrationError>(ynew));
                        } else {
                            assert(base == outcome_o(
                                *params,
                                *config,
                                t_end,
                                t2,
                                ynew,
                                if next_h_spec(err, hc, last_rejected) < 1 {
                                    1i128
                                } else {
                                    next_h_spec(err, hc, last_rejected) as i128
                                },
                                (naccepted + 1) as u32,
                                false,
                            ));
                        }
                    }
                    let ghost s0 = traj@.last();
                    t = t2;
                    y = ynew;
                    traj.push(t, y);
                    naccepted = naccepted + 1;
                    proof {
                        let s1 = TrajectorySample { t, state: y };
                        assert(step_o(*params, *config, s0.state, hc) == Ok::<
                            (StateVector, i128),
                            IntegrationError,
                        >((ynew, err)));
                        assert(accepted_step_o(*params, *config, s0, s1));
                    }
                    if t == t_end {
                        return Ok(traj);
                    }
                    // Truncation can round a tiny grown step to zero;
                    // keep at least one unit so time always advances.
                    h = if hn < 1 {
                        1
                    } else {
                        hn
                    };
                    last_rejected = false;
                } else {
                    proof {
                        if hn < config.h_min {
                            assert(base == Err::<StateVector, IntegrationError>(
                                IntegrationError::StepSizeUnderflow,
                            ));
                        } else {
                            assert(base == outcome_o(
                                *params,
                                *config,
                                t_end,
                                t,
                                y,
                                hn,
                                naccepted,
                                true,
                            ));
                        }
                    }
                    if hn < config.h_min {
                        return Err(IntegrationError::StepSizeUnderflow);
                    }
                    h = hn;
                    last_rejected = true;
                }
            },
        }
    }
}

/// A tighter tolerance pair never shrinks one component's scaled error.
proof fn lemma_comp_ratio_tol_mono(
    cfg1: IntegrationConfig,
    cfg2: IntegrationConfig,
    yc: i128,
    y5c: i128,
    y4c: i128,
)
    requires
        cfg1.valid(),
        cfg2.valid(),
        cfg1.rtol <= cfg2.rtol,
        cfg1.atol <= cfg2.atol,
        comp_ratio_o(cfg1, yc, y5c, y4c) is Some,
        comp_ratio_o(cfg2, yc, y5c, y4c) is Some,
    ensures
        0 <= comp_ratio_o(cfg2, yc, y5c, y4c).unwrap(),
        comp_ratio_o(cfg2, yc, y5c, y4c).unwrap() <= comp_ratio_o(cfg1, yc, y5c, y4c).unwrap(),
        comp_ratio_o(cfg1, yc, y5c, y4c).unwrap() <= ERR_CAP,
{
    let e = sub_o(y5c as int, y4c as int).unwrap();
    let a1 = abs_o(yc).unwrap();
    let a2 = abs_o(y5c).unwrap();
    let m = if a1 >= a2 {
        a1
    } else {
        a2
    };
    assert(m >= 0);
    assert((cfg1.rtol as int) * (m as int) <= (cfg2.rtol as int) * (m as int) && 0 <= (cfg1.rtol
        as int) * (m as int)) by (nonlinear_arith)
        requires
            1 <= cfg1.rtol <= cfg2.rtol,
            0 <= m,
    ;
    lemma_tdiv_ordered((cfg1.rtol as int) * (m as int), (cfg2.rtol as int) * (m as int), SCALE as int);
    lemma_tdiv_bounds((cfg1.rtol as int) * (m as int), SCALE as int);
    lemma_tdiv_bounds((cfg2.rtol as int) * (m as int), SCALE as int);
    let rm1 = fmul_o(cfg1.rtol as int, m as int).unwrap();
    let rm2 = fmul_o(cfg2.rtol as int, m as int).unwrap();
    assert(0 <= rm1 <= rm2);
    let sc1 = add_o(cfg1.atol as int, rm1 as int).unwrap();
    let sc2 = add_o(cfg2.atol as int, rm2 as int).unwrap();
    assert(1 <= sc1 <= sc2);
    if fdiv_o(e as int, sc1 as int) is Some {
        let q1 = fdiv_o(e as int, sc1 as int).unwrap();
        let q2 = fdiv_o(e as int, sc2 as int).unwrap();
        lemma_tdiv_denominator((e as int) * (SCALE as int), sc1 as int, sc2 as int);
        lemma_tdiv_bounds((e as int) * (SCALE as int), sc1 as int);
        lemma_tdiv_bounds((e as int) * (SCALE as int), sc2 as int);
    }
}

/// Tolerance monotonicity of the error norm: tightening `rtol` and
/// `atol`, with the states held fixed, never shrinks the scaled error
/// norm of a trial step, so a step accepted under the tighter
/// tolerances is accepted under the looser ones.
pub proof fn lemma_error_norm_tolerance_monotone(
    cfg1: IntegrationConfig,
    cfg2: IntegrationConfig,
    y: StateVector,
    y5: StateVector,
    y4: StateVector,
)
    requires
        cfg1.valid(),
        cfg2.valid(),
        cfg1.rtol <= cfg2.rtol,
        cfg1.atol <= cfg2.atol,
        err_o(cfg1, y, y5, y4) is Some,
        err_o(cfg2, y, y5, y4) is Some,
    ensures
        err_o(cfg2, y, y5, y4).unwrap() <= err_o(cfg1, y, y5, y4).unwrap(),
{
    lemma_comp_ratio_tol_mono(cfg1, cfg2, y.x, y5.x, y4.x);
    lemma_comp_ratio_tol_mono(cfg1, cfg2, y.y, y5.y, y4.y);
    lemma_comp_ratio_tol_mono(cfg1, cfg2, y.z, y5.z, y4.z);
    lemma_comp_ratio_tol_mono(cfg1, cfg2, y.vx, y5.vx, y4.vx);
    lemma_comp_ratio_tol_mono(cfg1, cfg2, y.vy, y5.vy, y4.vy);
    lemma_comp_ratio_tol_mono(cfg1, cfg2, y.vz, y5.vz, y4.vz);
    let a1 = comp_ratio_o(cfg1, y.x, y5.x, y4.x).unwrap() as int;
    let a2 = comp_ratio_o(cfg1, y.y, y5.y, y4.y).unwrap() as int;
    let a3 = comp_ratio_o(cfg1, y.z, y5.z, y4.z).unwrap() as int;
    let a4 = comp_ratio_o(cfg1, y.vx, y5.vx, y4.vx).unwrap() as int;
    let a5 = comp_ratio_o(cfg1, y.vy, y5.vy, y4.vy).unwrap() as int;
    let a6 = comp_ratio_o(cfg1, y.vz, y5.vz, y4.vz).unwrap() as int;
    let b1 = comp_ratio_o(cfg2, y.x, y5.x, y4.x).unwrap() as int;
    let b2 = comp_ratio_o(cfg2, y.y, y5.y, y4.y).unwrap() as int;
    let b3 = comp_ratio_o(cfg2, y.z, y5.z, y4.z).unwrap() as int;
    let b4 = comp_ratio_o(cfg2, y.vx, y5.vx, y4.vx).unwrap() as int;
    let b5 = comp_ratio_o(cfg2, y.vy, y5.vy, y4.vy).unwrap() as int;
    let b6 = comp_ratio_o(cfg2, y.vz, y5.vz, y4.vz).unwrap() as int;
    assert(b1 * b1 <= a1 * a1 && b2 * b2 <= a2 * a2 && b3 * b3 <= a3 * a3 && b4 * b4 <= a4 * a4
        && b5 * b5 <= a5 * a5 && b6 * b6 <= a6 * a6 && 0 <= b1 * b1 + b2 * b2 + b3 * b3 + b4 * b4
        + b5 * b5 + b6 * b6) by (nonlinear_arith)
        requires
            0 <= b1 <= a1,
            0 <= b2 <= a2,
            0 <= b3 <= a3,
            0 <= b4 <= a4,
            0 <= b5 <= a5,
            0 <= b6 <= a6,
    ;
    vstd::arithmetic::div_mod::lemma_div_is_ordered(
        b1 * b1 + b2 * b2 + b3 * b3 + b4 * b4 + b5 * b5 + b6 * b6,
        a1 * a1 + a2 * a2 + a3 * a3 + a4 * a4 + a5 * a5 + a6 * a6,
        6,
    );
    vstd::arithmetic::div_mod::lemma_div_pos_is_pos(
        b1 * b1 + b2 * b2 + b3 * b3 + b4 * b4 + b5 * b5 + b6 * b6,
        6,
    );
    let mean_a = (a1 * a1 + a2 * a2 + a3 * a3 + a4 * a4 + a5 * a5 + a6 * a6) / 6;
    let mean_b = (b1 * b1 + b2 * b2 + b3 * b3 + b4 * b4 + b5 * b5 + b6 * b6) / 6;
    lemma_sqrt_f_mono(mean_b as nat, mean_a as nat);
    lemma_sq_cap(a1);
    lemma_sq_cap(a2);
    lemma_sq_cap(a3);
    lemma_sq_cap(a4);
    lemma_sq_cap(a5);
    lemma_sq_cap(a6);
    vstd::arithmetic::div_mod::lemma_div_is_ordered(
        a1 * a1 + a2 * a2 + a3 * a3 + a4 * a4 + a5 * a5 + a6 * a6,
        6 * 309485009821345068724781056int,
        6,
    );
    vstd::arithmetic::div_mod::lemma_div_by_multiple(309485009821345068724781056int, 6);
    lemma_sqrt_f_le(mean_a as nat, ERR_CAP as nat);
}

/// A component ratio, when formed, lies in `[0, ERR_CAP]`.
proof fn lemma_comp_ratio_in_cap(cfg: IntegrationConfig, yc: i128, y5c: i128, y4c: i128)
    ensures
        comp_ratio_o(cfg, yc, y5c, y4c) is Some ==> 0 <= comp_ratio_o(
            cfg,
            yc,
            y5c,
            y4c,
        ).unwrap() <= ERR_CAP,
{
}

/// An error norm, when formed, lies in `[0, ERR_CAP]`.
proof fn lemma_err_o_in_cap(cfg: IntegrationConfig, y: StateVector, y5: StateVector, y4: StateVector)
    ensures
        err_o(cfg, y, y5, y4) is Some ==> 0 <= err_o(cfg, y, y5, y4).unwrap() <= ERR_CAP,
{
    if err_o(cfg, y, y5, y4) is Some {
        lemma_comp_ratio_in_cap(cfg, y.x, y5.x, y4.x);
        lemma_comp_ratio_in_cap(cfg, y.y, y5.y, y4.y);
        lemma_comp_ratio_in_cap(cfg, y.z, y5.z, y4.z);
        lemma_comp_ratio_in_cap(cfg, y.vx, y5.vx, y4.vx);
        lemma_comp_ratio_in_cap(cfg, y.vy, y5.vy, y4.vy);
        lemma_comp_ratio_in_cap(cfg, y.vz, y5.vz, y4.vz);
        let a1 = comp_ratio_o(cfg, y.x, y5.x, y4.x).unwrap() as int;
        let a2 = comp_ratio_o(cfg, y.y, y5.y, y4.y).unwrap() as int;
        let a3 = comp_ratio_o(cfg, y.z, y5.z, y4.z).unwrap() as int;
        let a4 = comp_ratio_o(cfg, y.vx, y5.vx, y4.vx).unwrap() as int;
        let a5 = comp_ratio_o(cfg, y.vy, y5.vy, y4.vy).unwrap() as int;
        let a6 = comp_ratio_o(cfg, y.vz, y5.vz, y4.vz).unwrap() as int;
        lemma_sq_cap(a1);
        lemma_sq_cap(a2);
        lemma_sq_cap(a3);
        lemma_sq_cap(a4);
        lemma_sq_cap(a5);
        lemma_sq_cap(a6);
        let sum = a1 * a1 + a2 * a2 + a3 * a3 + a4 * a4 + a5 * a5 + a6 * a6;
        vstd::arithmetic::div_mod::lemma_div_pos_is_pos(sum, 6);
        vstd::arithmetic::div_mod::lemma_div_is_ordered(
            sum,
            6 * 309485009821345068724781056int,
            6,
        );
        vstd::arithmetic::div_mod::lemma_div_by_multiple(309485009821345068724781056int, 6);
        lemma_sqrt_f_le((sum / 6) as nat, ERR_CAP as nat);
    }
}

/// The error norm a successful trial step reports lies in `[0, ERR_CAP]`.
proof fn lemma_step_err_in_cap(p: DynamicsParameters, cfg: IntegrationConfig, y: StateVector, h: i128)
    ensures
        step_o(p, cfg, y, h) is Ok ==> 0 <= step_o(p, cfg, y, h).unwrap().1 <= ERR_CAP,
{
    reveal(crate::integrator::step_o);
    if step_o(p, cfg, y, h) is Ok {
        let y5 = y5_o(p, y, h).unwrap();
        let y4 = y4_o(p, y, h).unwrap();
        lemma_err_o_in_cap(cfg, y, y5, y4);
    }
}

/// The arguments on which one stepping-loop turn is specified.
pub open spec fn loop_domain(
    p: DynamicsParameters,
    cfg: IntegrationConfig,
    t_end: i128,
    t: i128,
    h: i128,
) -> bool {
    p.valid() && cfg.valid() && 1 <= h && t < t_end && -T_LIM <= t && t_end <= T_LIM
}

/// The outcome of the whole stepping loop from a given loop state: the
/// final state reached at exactly `t_end`, or the error that aborts the
/// propagation. This pins the integrator's entire control flow: which
/// trial steps are taken, how the step size evolves, and which failure
/// is reported.
pub open spec fn outcome_o(
    p: DynamicsParameters,
    cfg: IntegrationConfig,
    t_end: i128,
    t: i128,
    y: StateVector,
    h: i128,
    n: u32,
    rej: bool,
) -> Result<StateVector, IntegrationError>
    decreases cfg.max_steps - n, h,
        when loop_domain(p, cfg, t_end, t, h)
        via outcome_o_dec
{
    if n >= cfg.max_steps {
        Err(IntegrationError::MaxStepsExceeded)
    } else {
        let rem = (t_end - t) as i128;
        let hc: i128 = if h > rem {
            rem
        } else {
            h
        };
        match step_o(p, cfg, y, hc) {
            Err(e) => Err(e),
            Ok(pair) => {
                if pair.1 <= SCALE {
                    let t2 = (t + hc) as i128;
                    if t2 == t_end {
                        Ok(pair.0)
                    } else {
                        let hn = next_h_spec(pair.1, hc, rej);
                        let h2: i128 = if hn < 1 {
                            1
                        } else {
                            hn as i128
                        };
                        outcome_o(p, cfg, t_end, t2, pair.0, h2, (n + 1) as u32, false)
                    }
                } else {
                    let hn = next_h_spec(pair.1, hc, rej);
                    if hn < cfg.h_min {
                        Err(IntegrationError::StepSizeUnderflow)
                    } else {
                        outcome_o(p, cfg, t_end, t, y, hn as i128, n, true)
                    }
                }
            },
        }
    }
}

#[via_fn]
proof fn outcome_o_dec(
    p: DynamicsParameters,
    cfg: IntegrationConfig,
    t_end: i128,
    t: i128,
    y: StateVector,
    h: i128,
    n: u32,
    rej: bool,
) {
    if n < cfg.max_steps {
        let rem = (t_end - t) as i128;
        let hc: i128 = if h > rem {
            rem
        } else {
            h
        };
        if step_o(p, cfg, y, hc) is Ok {
            let pair = step_o(p, cfg, y, hc).unwrap();
            lemma_step_err_in_cap(p, cfg, y, hc);
            if pair.1 > SCALE {
                crate::controller::lemma_next_h_shrinks(pair.1, hc, rej);
            }
        }
    }
}

} // verus!
