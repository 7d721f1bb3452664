//! A verified N-body gravitational simulator.
//!
//! Given initial positions, velocities and masses, the library advances the
//! system in fixed time steps under the inverse-square force law and renders
//! the resulting trajectory as text records.  Two integration schemes are
//! provided: semi-implicit (symplectic) Euler and velocity Verlet, the latter
//! with an optional radial containment constraint, plus a convergence
//! self-test that drives the Verlet integrator against an analytic two-body
//! orbit.
//!
//! All scalar quantities are fixed-point reals: a value is an `i64` count of
//! units of `2^-32` (see [`fx`]).  Arithmetic saturates instead of wrapping,
//! so every operation is total and its exact result is stated in the
//! contracts.

pub mod args;
pub mod euler;
pub mod fmt;
pub mod force;
pub mod fx;
pub mod kepler;
pub mod loader;
pub mod model;
pub mod parse;
pub mod stream;
pub mod verlet;
