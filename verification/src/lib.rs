//! Sampled functions on one-dimensional grids, finite-difference calculus on
//! them, and Newton's method for two-point boundary value problems.
//!
//! * [`grid`] and [`grid_function`] hold the data: a grid of points, and a
//!   function sampled on it.
//! * [`grid_function_arithmetic`], [`numerical_differentiation`] and
//!   [`numerical_integration`] compute with sampled functions;
//!   [`quadratic_interpolation`] is what Simpson's rule is made of.
//! * [`boundary_conditions`] and [`boundary_value_problems`] solve a
//!   differential equation between two boundary values;
//!   [`differential_equation`] is the equation of the harmonic oscillator.
//!
//! Everything is generic over the type of the numbers. [`scalar`] says what
//! is asked of that type, and how the contracts speak of its arithmetic.

pub mod scalar;
pub mod grid;
pub mod grid_function;
pub mod grid_function_arithmetic;
pub mod numerical_differentiation;
pub mod quadratic_interpolation;
pub mod numerical_integration;
pub mod boundary_conditions;
pub mod boundary_value_problems;
pub mod differential_equation;
