//! Cartesian state of the propagated body.

use vstd::prelude::*;

verus! {

use crate::fixed::add_o;
use crate::fixed::fmul_o;
use crate::fixed::fx_add;
use crate::fixed::fx_mul;

/// Position (x, y, z) and velocity (vx, vy, vz), fixed point, in a
/// consistent unit pair such as km and km/s. Componentwise arithmetic.
#[derive(Clone, Copy, PartialEq, Eq, Structural, Debug)]
pub struct StateVector {
    pub x: i128,
    pub y: i128,
    pub z: i128,
    pub vx: i128,
    pub vy: i128,
    pub vz: i128,
}

/// One component of `a + c * k`, fixed point, `None` on overflow.
pub open spec fn comp_axpy_o(av: i128, c: i128, kv: i128) -> Option<i128> {
    match fmul_o(c as int, kv as int) {
        None => None,
        Some(p) => add_o(av as int, p as int),
    }
}

/// `a + c * k` componentwise, `None` if any component overflows.
pub open spec fn sv_axpy_o(a: StateVector, c: i128, k: StateVector) -> Option<StateVector> {
    let ox = comp_axpy_o(a.x, c, k.x);
    let oy = comp_axpy_o(a.y, c, k.y);
    let oz = comp_axpy_o(a.z, c, k.z);
    let ovx = comp_axpy_o(a.vx, c, k.vx);
    let ovy = comp_axpy_o(a.vy, c, k.vy);
    let ovz = comp_axpy_o(a.vz, c, k.vz);
    if ox is Some && oy is Some && oz is Some && ovx is Some && ovy is Some && ovz is Some {
        Some(StateVector {
            x: ox.unwrap(),
            y: oy.unwrap(),
            z: oz.unwrap(),
            vx: ovx.unwrap(),
            vy: ovy.unwrap(),
            vz: ovz.unwrap(),
        })
    } else {
        None
    }
}

/// One term of a Runge-Kutta linear combination: `acc + (h * c) * k`,
/// threading overflow through the accumulator.
pub open spec fn hax_o(acc: Option<StateVector>, h: i128, c: i128, k: StateVector) -> Option<
    StateVector,
> {
    match acc {
        None => None,
        Some(a) => match fmul_o(h as int, c as int) {
            None => None,
            Some(hc) => sv_axpy_o(a, hc, k),
        },
    }
}

fn comp_axpy(av: i128, c: i128, kv: i128) -> (r: Option<i128>)
    ensures
        r == comp_axpy_o(av, c, kv),
{
    match fx_mul(c, kv) {
        None => None,
        Some(p) => fx_add(av, p),
    }
}

fn sv_axpy(a: &StateVector, c: i128, k: &StateVector) -> (r: Option<StateVector>)
    ensures
        r == sv_axpy_o(*a, c, *k),
{
    let ox = comp_axpy(a.x, c, k.x);
    let oy = comp_axpy(a.y, c, k.y);
    let oz = comp_axpy(a.z, c, k.z);
    let ovx = comp_axpy(a.vx, c, k.vx);
    let ovy = comp_axpy(a.vy, c, k.vy);
    let ovz = comp_axpy(a.vz, c, k.vz);
    match (ox, oy, oz, ovx, ovy, ovz) {
        (Some(x), Some(y), Some(z), Some(vx), Some(vy), Some(vz)) => Some(
            StateVector { x, y, z, vx, vy, vz },
        ),
        _ => None,
    }
}

/// Exec form of `hax_o`.
pub fn sv_hax(acc: Option<StateVector>, h: i128, c: i128, k: &StateVector) -> (r: Option<
    StateVector,
>)
    ensures
        r == hax_o(acc, h, c, *k),
{
    match acc {
        None => None,
        Some(a) => match fx_mul(h, c) {
            None => None,
            Some(hc) => sv_axpy(&a, hc, k),
        },
    }
}

} // verus!
