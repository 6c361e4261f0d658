//! A verified billiard-trajectory solver.
//!
//! Two nested closed boundary curves are given as periodic parametric
//! functions over a fixed-point parameter (micro-radians); a trajectory with a
//! requested number of reflections is found by numerically minimizing the
//! total path length over the interior bounce parameters, following the
//! variational characterization of reflective billiard paths.
//!
//! All coordinates and curve parameters are fixed-point values: an `i64`
//! counts millionths of a unit (see [`scalar::SCALE`]).

pub mod scalar;
pub mod trig;
pub mod curve;
pub mod billiard;

pub use billiard::Billiard;
pub use billiard::BilliardError;
pub use billiard::Trajectory;
pub use curve::Point;
