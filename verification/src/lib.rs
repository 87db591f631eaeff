//! A double-pendulum simulation library.
//!
//! Many independent double-pendulum systems are integrated step by step from
//! slightly different initial conditions to visualize chaotic divergence.
//! All state is kept in fixed-point arithmetic so that every step of the
//! integrator carries an exact contract.

pub mod color;
pub mod fxp;
pub mod pendulum;
pub mod sim;
pub mod trig;
