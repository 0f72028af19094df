//! Physical invariants of accepted trajectories: energy and angular
//! momentum conservation, tolerance monotonicity, and the time-reversal
//! round trip.

use orbit_prop::dynamics::DynamicsParameters;
use orbit_prop::integrator::propagate;
use orbit_prop::integrator::IntegrationConfig;
use orbit_prop::state::StateVector;
use orbit_prop::trajectory::Trajectory;

const SCALE_F: f64 = 4294967296.0;
const MU: f64 = 1.327e11;

fn fx(v: f64) -> i128 {
    (v * SCALE_F) as i128
}

fn fl(v: i128) -> f64 {
    (v as f64) / SCALE_F
}

fn state(px: f64, py: f64, pz: f64, vx: f64, vy: f64, vz: f64) -> StateVector {
    StateVector {
        x: fx(px),
        y: fx(py),
        z: fx(pz),
        vx: fx(vx),
        vy: fx(vy),
        vz: fx(vz),
    }
}

fn sun_params() -> DynamicsParameters {
    DynamicsParameters {
        mu: 132700000000i128 * 4294967296i128,
        min_radius: fx(1.0e-3),
    }
}

fn config(rtol: f64, atol: f64) -> IntegrationConfig {
    IntegrationConfig {
        rtol: fx(rtol),
        atol: fx(atol),
        h0: fx(10.0),
        h_min: 1,
        max_steps: 1_000_000,
    }
}

fn start() -> StateVector {
    state(
        -1.236327193104345E+08,
        -1.683146780978357E+08,
        -1.716864100448400E+07,
        1.732704689147723E+01,
        -1.411175177586654E+01,
        -1.496047022540958E+00,
    )
}

fn sample_f64(tr: &Trajectory, i: usize) -> [f64; 6] {
    let s = tr.get(i).state;
    [fl(s.x), fl(s.y), fl(s.z), fl(s.vx), fl(s.vy), fl(s.vz)]
}

/// Specific orbital energy `v^2/2 - mu/r`.
fn energy(s: [f64; 6]) -> f64 {
    let r = (s[0] * s[0] + s[1] * s[1] + s[2] * s[2]).sqrt();
    let v2 = s[3] * s[3] + s[4] * s[4] + s[5] * s[5];
    v2 / 2.0 - MU / r
}

/// Specific angular momentum `r x v`.
fn angular_momentum(s: [f64; 6]) -> [f64; 3] {
    [
        s[1] * s[5] - s[2] * s[4],
        s[2] * s[3] - s[0] * s[5],
        s[0] * s[4] - s[1] * s[3],
    ]
}

fn norm3(v: [f64; 3]) -> f64 {
    (v[0] * v[0] + v[1] * v[1] + v[2] * v[2]).sqrt()
}

#[test]
fn energy_is_conserved_along_the_trajectory() {
    let tr = propagate(
        &start(),
        &sun_params(),
        0,
        fx(2.0 * 86400.0),
        &config(1.0e-6, 1.0e-8),
    )
    .unwrap();
    let e0 = energy(sample_f64(&tr, 0));
    for i in 0..tr.len() {
        let e = energy(sample_f64(&tr, i));
        assert!(
            ((e - e0) / e0).abs() <= 1.0e-5,
            "energy drifted at sample {}: {} vs {}",
            i,
            e,
            e0
        );
    }
}

#[test]
fn angular_momentum_is_conserved_along_the_trajectory() {
    let tr = propagate(
        &start(),
        &sun_params(),
        0,
        fx(2.0 * 86400.0),
        &config(1.0e-6, 1.0e-8),
    )
    .unwrap();
    let l0 = angular_momentum(sample_f64(&tr, 0));
    let n0 = norm3(l0);
    for i in 0..tr.len() {
        let l = angular_momentum(sample_f64(&tr, i));
        // Constant magnitude...
        assert!(((norm3(l) - n0) / n0).abs() <= 1.0e-5);
        // ... and constant direction: the difference vector is tiny.
        let d = [l[0] - l0[0], l[1] - l0[1], l[2] - l0[2]];
        assert!(norm3(d) / n0 <= 1.0e-5);
    }
}

#[test]
fn tighter_tolerances_never_lose_steps() {
    let t_end = fx(86400.0);
    let loose = propagate(&start(), &sun_params(), 0, t_end, &config(1.0e-6, 1.0e-8))
        .unwrap();
    let tight = propagate(&start(), &sun_params(), 0, t_end, &config(1.0e-7, 1.0e-9))
        .unwrap();
    assert!(tight.len() >= loose.len());
}

#[test]
fn time_reversal_round_trip_returns_to_the_start() {
    // Two-body gravity is time-symmetric: running forward with the
    // velocity negated retraces the trajectory backward.
    let rtol = 1.0e-6;
    let t_end = fx(86400.0);
    let forward = propagate(&start(), &sun_params(), 0, t_end, &config(rtol, 1.0e-8))
        .unwrap();
    let fs = forward.last().state;
    let turned = StateVector {
        x: fs.x,
        y: fs.y,
        z: fs.z,
        vx: -fs.vx,
        vy: -fs.vy,
        vz: -fs.vz,
    };
    let back = propagate(&turned, &sun_params(), 0, t_end, &config(rtol, 1.0e-8)).unwrap();
    let bs = back.last().state;
    let y0 = start();
    let eps_pos = 2.0e8 * rtol;
    let eps_vel = 2.0e4 * rtol;
    assert!((fl(bs.x) - fl(y0.x)).abs() <= eps_pos);
    assert!((fl(bs.y) - fl(y0.y)).abs() <= eps_pos);
    assert!((fl(bs.z) - fl(y0.z)).abs() <= eps_pos);
    assert!((fl(bs.vx) + fl(y0.vx)).abs() <= eps_vel);
    assert!((fl(bs.vy) + fl(y0.vy)).abs() <= eps_vel);
    assert!((fl(bs.vz) + fl(y0.vz)).abs() <= eps_vel);
}
