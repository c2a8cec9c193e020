//! Structural logic of an SVG path optimiser.
//!
//! A path is a sequence of [`primitive::Primitive`] values over a coordinate
//! type `S`.  The library never computes on coordinates itself: every numeric
//! step (relative offsets, curve fitting, flatness tests, scaling) is a
//! caller-supplied function, and each operation here is proved to apply those
//! functions at exactly the points the algorithm prescribes.

pub mod primitive;
pub mod kernel;
pub mod lines;
pub mod quadratics;
pub mod curves;
pub mod path;
pub mod stats;
pub mod layout;
pub mod optimize;
