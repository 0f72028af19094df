//! Two-body gravitational dynamics: the derivative of the state under a
//! central attractor, `dy/dt = (v, -mu * r_vec / |r|^3)`.

use vstd::prelude::*;

verus! {

use crate::error::IntegrationError;
use crate::fixed::SCALE;
use crate::fixed::add_o;
use crate::fixed::fdiv_o;
use crate::fixed::fmul_o;
use crate::fixed::fx_add;
use crate::fixed::fx_div;
use crate::fixed::fx_mul;
use crate::fixed::fx_prod;
use crate::fixed::isqrt;
use crate::fixed::lemma_sqrt_f_props;
use crate::fixed::lemma_tdiv_bounds;
use crate::fixed::prod_o;
use crate::fixed::sqrt_f;
use crate::fixed::sub_o;
use crate::state::StateVector;

/// The gravitational model: `mu` is the standard gravitational parameter
/// of the central body; `min_radius` is the safe radius below which a
/// derivative evaluation reports a singular state. Immutable per
/// propagation.
#[derive(Clone, Copy, PartialEq, Eq, Structural, Debug)]
pub struct DynamicsParameters {
    pub mu: i128,
    pub min_radius: i128,
}

impl DynamicsParameters {
    /// Both parameters must be positive (at least one fixed-point unit).
    pub open spec fn valid(self) -> bool {
        self.mu >= 1 && self.min_radius >= 1
    }
}

/// Squared position magnitude, fixed point, `None` on overflow.
pub open spec fn sq_norm_o(y: StateVector) -> Option<i128> {
    match fmul_o(y.x as int, y.x as int) {
        None => None,
        Some(xx) => match fmul_o(y.y as int, y.y as int) {
            None => None,
            Some(yy) => match fmul_o(y.z as int, y.z as int) {
                None => None,
                Some(zz) => match add_o(xx as int, yy as int) {
                    None => None,
                    Some(s) => add_o(s as int, zz as int),
                },
            },
        },
    }
}

/// Position magnitude, fixed point: `sqrt(sq_norm * SCALE)` restores the
/// fixed-point scale. `None` on overflow.
pub open spec fn radius_o(y: StateVector) -> Option<i128> {
    match sq_norm_o(y) {
        None => None,
        Some(r2) => match prod_o(r2 as int, SCALE as int) {
            None => None,
            Some(rs) => Some(sqrt_f(rs as nat) as i128),
        },
    }
}

/// The state is inside the configured safe radius: a derivative
/// evaluation on it must report `SingularState`.
pub open spec fn singular_o(p: DynamicsParameters, y: StateVector) -> bool {
    &&& radius_o(y) is Some
    &&& radius_o(y).unwrap() < p.min_radius
}

/// One acceleration component `-mu * c / r^3`, evaluated as
/// `-(((mu * (c/r)) / r) / r)` to stay in range. `None` on overflow.
pub open spec fn accel_comp_o(mu: i128, c: i128, r: i128) -> Option<i128>
    recommends
        r >= 1,
{
    match fdiv_o(c as int, r as int) {
        None => None,
        Some(u) => match fmul_o(mu as int, u as int) {
            None => None,
            Some(t1) => match fdiv_o(t1 as int, r as int) {
                None => None,
                Some(t2) => match fdiv_o(t2 as int, r as int) {
                    None => None,
                    Some(t3) => sub_o(0, t3 as int),
                },
            },
        },
    }
}

/// The derivative of the state: velocity, then gravitational
/// acceleration. `Err(SingularState)` inside the safe radius,
/// `Err(NonFiniteResult)` when a value leaves the representable range.
pub open spec fn deriv_o(p: DynamicsParameters, y: StateVector) -> Result<
    StateVector,
    IntegrationError,
> {
    match radius_o(y) {
        None => Err(IntegrationError::NonFiniteResult),
        Some(r) => if r < p.min_radius {
            Err(IntegrationError::SingularState)
        } else {
            let ax = accel_comp_o(p.mu, y.x, r);
            let ay = accel_comp_o(p.mu, y.y, r);
            let az = accel_comp_o(p.mu, y.z, r);
            if ax is Some && ay is Some && az is Some {
                Ok(StateVector {
                    x: y.vx,
                    y: y.vy,
                    z: y.vz,
                    vx: ax.unwrap(),
                    vy: ay.unwrap(),
                    vz: az.unwrap(),
                })
            } else {
                Err(IntegrationError::NonFiniteResult)
            }
        },
    }
}

/// Exec form of `radius_o`.
fn radius(y: &StateVector) -> (r: Option<i128>)
    ensures
        r == radius_o(*y),
        r is Some ==> r.unwrap() >= 0,
{
    let xx = match fx_mul(y.x, y.x) {
        None => return None,
        Some(v) => v,
    };
    let yy = match fx_mul(y.y, y.y) {
        None => return None,
        Some(v) => v,
    };
    let zz = match fx_mul(y.z, y.z) {
        None => return None,
        Some(v) => v,
    };
    let s = match fx_add(xx, yy) {
        None => return None,
        Some(v) => v,
    };
    let r2 = match fx_add(s, zz) {
        None => return None,
        Some(v) => v,
    };
    let rs = match fx_prod(r2, SCALE) {
        None => return None,
        Some(v) => v,
    };
    proof {
        assert((y.x as int) * (y.x as int) >= 0 && (y.y as int) * (y.y as int) >= 0 && (y.z
            as int) * (y.z as int) >= 0) by (nonlinear_arith);
        lemma_tdiv_bounds((y.x as int) * (y.x as int), SCALE as int);
        lemma_tdiv_bounds((y.y as int) * (y.y as int), SCALE as int);
        lemma_tdiv_bounds((y.z as int) * (y.z as int), SCALE as int);
        assert(rs >= 0);
        lemma_sqrt_f_props(rs as nat);
        let sq = sqrt_f(rs as nat);
        assert(sq <= 18446744073709551615) by (nonlinear_arith)
            requires
                sq * sq <= rs as int,
                rs <= i128::MAX,
        ;
    }
    let root = isqrt(rs as u128);
    Some(root as i128)
}

impl DynamicsParameters {
    /// The time-invariant Kepler equations of motion: `dy[0..3]` is the
    /// velocity, `dy[3..6]` the gravitational acceleration toward the
    /// attractor. The time argument is accepted for the standard
    /// derivative shape but does not influence the result.
    pub fn derivative(&self, _t: i128, y: &StateVector) -> (r: Result<
        StateVector,
        IntegrationError,
    >)
        requires
            self.valid(),
        ensures
            r == deriv_o(*self, *y),
            singular_o(*self, *y) <==> r == Err::<StateVector, IntegrationError>(
                IntegrationError::SingularState,
            ),
    {
        let r = match radius(y) {
            None => return Err(IntegrationError::NonFiniteResult),
            Some(v) => v,
        };
        if r < self.min_radius {
            return Err(IntegrationError::SingularState);
        }
        let ax = match fx_div(y.x, r) {
            None => None,
            Some(u) => match fx_mul(self.mu, u) {
                None => None,
                Some(t1) => match fx_div(t1, r) {
                    None => None,
                    Some(t2) => match fx_div(t2, r) {
                        None => None,
                        Some(t3) => fx_sub_zero(t3),
                    },
                },
            },
        };
        let ay = match fx_div(y.y, r) {
            None => None,
            Some(u) => match fx_mul(self.mu, u) {
                None => None,
                Some(t1) => match fx_div(t1, r) {
                    None => None,
                    Some(t2) => match fx_div(t2, r) {
                        None => None,
                        Some(t3) => fx_sub_zero(t3),
                    },
                },
            },
        };
        let az = match fx_div(y.z, r) {
            None => None,
            Some(u) => match fx_mul(self.mu, u) {
                None => None,
                Some(t1) => match fx_div(t1, r) {
                    None => None,
                    Some(t2) => match fx_div(t2, r) {
                        None => None,
                        Some(t3) => fx_sub_zero(t3),
                    },
                },
            },
        };
        match (ax, ay, az) {
            (Some(vx), Some(vy), Some(vz)) => Ok(StateVector {
                x: y.vx,
                y: y.vy,
                z: y.vz,
                vx,
                vy,
                vz,
            }),
            _ => Err(IntegrationError::NonFiniteResult),
        }
    }
}

/// Negation through checked subtraction from zero.
fn fx_sub_zero(a: i128) -> (r: Option<i128>)
    ensures
        r == sub_o(0, a as int),
{
    let z: i128 = 0;
    z.checked_sub(a)
}

} // verus!
