//! End-to-end propagation scenarios and the library's error cases.

use orbit_prop::dynamics::DynamicsParameters;
use orbit_prop::error::IntegrationError;
use orbit_prop::integrator::propagate;
use orbit_prop::integrator::IntegrationConfig;
use orbit_prop::state::StateVector;
use orbit_prop::trajectory::Trajectory;

const SCALE_F: f64 = 4294967296.0;

fn fx(v: f64) -> i128 {
    (v * SCALE_F) as i128
}

fn fl(v: i128) -> f64 {
    (v as f64) / SCALE_F
}

fn state(px: f64, py: f64, pz: f64, vx: f64, vy: f64, vz: f64) -> StateVector {
    StateVector {
        x: fx(px),
        y: fx(py),
        z: fx(pz),
        vx: fx(vx),
        vy: fx(vy),
        vz: fx(vz),
    }
}

/// The Sun's gravitational parameter used by the mission scenarios,
/// km^3/s^2, exact in fixed point.
fn sun_params() -> DynamicsParameters {
    DynamicsParameters {
        mu: 132700000000i128 * 4294967296i128,
        min_radius: fx(1.0e-3),
    }
}

fn default_config() -> IntegrationConfig {
    IntegrationConfig {
        rtol: fx(1.0e-6),
        atol: fx(1.0e-8),
        h0: fx(10.0),
        h_min: 1,
        max_steps: 1_000_000,
    }
}

fn final_state(tr: &Trajectory) -> [f64; 6] {
    let s = tr.last().state;
    [fl(s.x), fl(s.y), fl(s.z), fl(s.vx), fl(s.vy), fl(s.vz)]
}

fn assert_close(actual: [f64; 6], expected: [f64; 6], eps_pos: f64, eps_vel: f64) {
    for i in 0..3 {
        assert!(
            (actual[i] - expected[i]).abs() <= eps_pos,
            "position component {} off: {} vs {}",
            i,
            actual[i],
            expected[i]
        );
    }
    for i in 3..6 {
        assert!(
            (actual[i] - expected[i]).abs() <= eps_vel,
            "velocity component {} off: {} vs {}",
            i,
            actual[i],
            expected[i]
        );
    }
}

fn heliocentric_start() -> StateVector {
    state(
        -1.236327193104345E+08,
        -1.683146780978357E+08,
        -1.716864100448400E+07,
        1.732704689147723E+01,
        -1.411175177586654E+01,
        -1.496047022540958E+00,
    )
}

#[test]
fn propagates_one_day_scenario() {
    let tr = propagate(
        &heliocentric_start(),
        &sun_params(),
        0,
        fx(1440.0 * 60.0),
        &default_config(),
    )
    .unwrap();
    assert_close(
        final_state(&tr),
        [
            -1.221290282017822E+08,
            -1.695247481033071E+08,
            -1.729696027041973E+07,
            1.748026039062854E+01,
            -1.389893159180101E+01,
            -1.474285282341534E+00,
        ],
        200.0,
        0.5,
    );
}

#[test]
fn propagates_two_day_scenario() {
    let tr = propagate(
        &heliocentric_start(),
        &sun_params(),
        0,
        fx(2.0 * 1440.0 * 60.0),
        &default_config(),
    )
    .unwrap();
    assert_close(
        final_state(&tr),
        [
            -1.206121920408666E+08,
            -1.707163797188062E+08,
            -1.742339387827656E+07,
            1.763133062266370E+01,
            -1.368493924400783E+01,
            -1.452397742856931E+00,
        ],
        500.0,
        0.5,
    );
}

#[test]
fn propagates_six_day_scenario() {
    let y0 = state(
        -131386230.977293,
        69971484.9501445,
        -718889.822774674,
        -1.745306e+01,
        -2.843202e+01,
        -6.151334e-01,
    );
    let tr = propagate(
        &y0,
        &sun_params(),
        0,
        fx(6.189400 * 86400.0),
        &default_config(),
    )
    .unwrap();
    assert_close(
        final_state(&tr),
        [
            -139952726.88639712,
            54397052.70895448,
            -1043117.4394616715,
            -14.567781976116068,
            -29.755390699878056,
            -0.5964095238080424,
        ],
        2000.0,
        0.5,
    );
}

#[test]
fn first_sample_is_the_initial_state() {
    let y0 = heliocentric_start();
    let tr = propagate(&y0, &sun_params(), fx(100.0), fx(86500.0), &default_config()).unwrap();
    let first = tr.get(0);
    assert_eq!(first.t, fx(100.0));
    assert_eq!(first.state, y0);
}

#[test]
fn sample_times_strictly_increase_to_exactly_t_end() {
    let t_end = fx(1440.0 * 60.0);
    let tr = propagate(&heliocentric_start(), &sun_params(), 0, t_end, &default_config())
        .unwrap();
    let samples = tr.to_samples();
    assert_eq!(samples.len(), tr.len());
    assert!(samples.len() >= 2);
    for i in 0..samples.len() - 1 {
        assert!(samples[i].t < samples[i + 1].t);
    }
    assert_eq!(tr.last().t, t_end);
    assert_eq!(samples[samples.len() - 1].t, t_end);
}

#[test]
fn empty_span_yields_single_sample() {
    let y0 = heliocentric_start();
    let tr = propagate(&y0, &sun_params(), fx(5.0), fx(5.0), &default_config()).unwrap();
    assert_eq!(tr.len(), 1);
    assert_eq!(tr.last().t, fx(5.0));
    assert_eq!(tr.last().state, y0);
}

#[test]
fn controller_grows_accepts_and_shrinks() {
    let h = fx(10.0);
    // A vanishing error norm grows the step by the full factor of five.
    let (accept, next) = orbit_prop::controller::evaluate(0, h, false);
    assert!(accept);
    assert_eq!(next, 5 * h);
    // Right after a rejection the step may not grow at all.
    let (accept, next) = orbit_prop::controller::evaluate(0, h, true);
    assert!(accept);
    assert_eq!(next, h);
    // An error norm above one rejects the step and shrinks it, by no
    // more than the factor floor of 0.2.
    let err = 2 * 4294967296i128;
    let (accept, next) = orbit_prop::controller::evaluate(err, h, false);
    assert!(!accept);
    assert!(next < h);
    assert!(next >= h / 5 - 1);
}

#[test]
fn derivative_is_velocity_then_central_acceleration() {
    let y = state(1.5e8, 0.0, 0.0, 0.0, 29.8, 0.0);
    let dy = sun_params().derivative(0, &y).unwrap();
    // The position slots of the derivative are exactly the velocity.
    assert_eq!(dy.x, y.vx);
    assert_eq!(dy.y, y.vy);
    assert_eq!(dy.z, y.vz);
    // The acceleration points back along the position axis with
    // magnitude mu / r^2.
    let expected = -1.327e11 / (1.5e8 * 1.5e8);
    assert!((fl(dy.vx) - expected).abs() <= 1.0e-8);
    assert_eq!(dy.vy, 0);
    assert_eq!(dy.vz, 0);
}

#[test]
fn rejects_non_positive_tolerances() {
    let mut cfg = default_config();
    cfg.rtol = 0;
    let r = propagate(&heliocentric_start(), &sun_params(), 0, fx(60.0), &cfg);
    assert_eq!(r.unwrap_err(), IntegrationError::InvalidConfig);

    let mut cfg = default_config();
    cfg.atol = -1;
    let r = propagate(&heliocentric_start(), &sun_params(), 0, fx(60.0), &cfg);
    assert_eq!(r.unwrap_err(), IntegrationError::InvalidConfig);
}

#[test]
fn rejects_non_positive_steps_and_counts() {
    let mut cfg = default_config();
    cfg.h0 = 0;
    let r = propagate(&heliocentric_start(), &sun_params(), 0, fx(60.0), &cfg);
    assert_eq!(r.unwrap_err(), IntegrationError::InvalidConfig);

    let mut cfg = default_config();
    cfg.max_steps = 0;
    let r = propagate(&heliocentric_start(), &sun_params(), 0, fx(60.0), &cfg);
    assert_eq!(r.unwrap_err(), IntegrationError::InvalidConfig);
}

#[test]
fn rejects_backward_time_span() {
    let r = propagate(
        &heliocentric_start(),
        &sun_params(),
        fx(60.0),
        0,
        &default_config(),
    );
    assert_eq!(r.unwrap_err(), IntegrationError::InvalidConfig);
}

#[test]
fn near_zero_position_is_singular() {
    let y0 = state(0.0, 0.0, 0.0, 1.0, 2.0, 3.0);
    let r = propagate(&y0, &sun_params(), 0, fx(60.0), &default_config());
    assert_eq!(r.unwrap_err(), IntegrationError::SingularState);
}

#[test]
fn overflowing_state_is_non_finite() {
    let y0 = StateVector {
        x: 1i128 << 100,
        y: 0,
        z: 0,
        vx: 0,
        vy: 0,
        vz: 0,
    };
    let r = propagate(&y0, &sun_params(), 0, fx(60.0), &default_config());
    assert_eq!(r.unwrap_err(), IntegrationError::NonFiniteResult);
}

#[test]
fn step_ceiling_is_enforced() {
    let mut cfg = default_config();
    cfg.max_steps = 1;
    let r = propagate(
        &heliocentric_start(),
        &sun_params(),
        0,
        fx(1440.0 * 60.0),
        &cfg,
    );
    assert_eq!(r.unwrap_err(), IntegrationError::MaxStepsExceeded);
}

#[test]
fn relentless_rejection_underflows_the_step() {
    // One fixed-point unit of tolerance forces rejection of any large
    // step; with the minimum step far above the acceptable step size,
    // the controller drives the step below the floor before any step
    // can be accepted.
    let cfg = IntegrationConfig {
        rtol: 1,
        atol: 1,
        h0: fx(86400.0),
        h_min: fx(20000.0),
        max_steps: 1000,
    };
    let r = propagate(&heliocentric_start(), &sun_params(), 0, fx(86400.0), &cfg);
    assert_eq!(r.unwrap_err(), IntegrationError::StepSizeUnderflow);
}
