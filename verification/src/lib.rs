//! Procedural curve-stroke generation in fixed-point arithmetic.
//!
//! Closed shapes are perturbed by a coherent noise field, fitted with
//! clamped B-splines, and sampled into jittered point clouds that a
//! renderer accumulates into an image. All scalar values are carried as
//! `i64` fixed-point numbers with [`fixed::SCALE`] units per 1.0.

pub mod compose;
pub mod fixed;
pub mod knots;
pub mod linspace;
pub mod noise;
pub mod rng;
pub mod shape;
pub mod spline;
pub mod stroke;
pub mod trig;

pub use fixed::Point2;
pub use fixed::SCALE;
pub use knots::set_knots;
pub use linspace::Linspace;
pub use linspace::linspace;
