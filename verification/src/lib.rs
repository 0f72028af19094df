//! Two-body orbit propagation by an adaptive embedded Runge-Kutta
//! integrator (Dormand-Prince 5(4)), verified end to end over binary
//! fixed-point arithmetic.

pub mod fixed;
pub mod state;
pub mod error;
pub mod dynamics;
pub mod controller;
pub mod trajectory;
pub mod integrator;
