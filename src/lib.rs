//! Core of an n-body orbit visualiser: gravitational pair selection, a
//! semi-implicit Euler integrator, floating-origin relocation and bounded
//! orbit histories.
//!
//! The library is generic over the vector type of a position and over the
//! type of a gravitational parameter; the caller supplies the arithmetic on
//! them as closures, and the library fixes what is computed from what, in
//! which order, and on which bodies.
pub mod physics;
pub mod body;
pub mod nbody;
pub mod integrator;
pub mod floating_origin;
pub mod history;
pub mod objects;
pub mod data;
