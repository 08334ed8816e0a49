//! A two-dimensional gravitational particle simulation, verified with Verus.
//!
//! Positions, velocities and accelerations are fixed-point integers, with
//! [`physics::SCALE`] units to the pixel (per second, per second squared).
//! Each step of the integrator is an exact function of the state before it,
//! stated over mathematical integers in the contracts: pairwise pulls from a
//! snapshot of the positions, clamped per component, summed, then a
//! semi-implicit Euler step with reflection at the world's edges.

pub mod isqrt;
pub mod physics;
pub mod scene;
pub mod galaxy;
pub mod frame;
