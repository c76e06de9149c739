//! Rotational dynamics of a serial chain of motor-driven rigid links.
//!
//! The library models each joint-and-link pair as a scalar first-order ODE
//! driven by a DC gearmotor, advances it with a classical fourth-order
//! Runge-Kutta step, and keeps the chain as an ordered sequence of such
//! pairs.  All physical quantities are exact rational numbers, so every
//! step of the integration is computed and specified exactly.

pub mod arm;
pub mod couple;
pub mod dynamics;
pub mod errors;
pub mod integrator;
pub mod joint;
pub mod link;
pub mod motor;
pub mod point;
pub mod rat;

pub use rat::Rat;
