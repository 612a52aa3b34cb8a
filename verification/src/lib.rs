//! An interactive calculator language: an operator-precedence parser, a
//! tree-walking evaluator over a dynamic numeric tower, exact rational
//! arithmetic, and matrix algebra with LU decomposition.
//!
//! Every executable function carries a contract; the mathematical models
//! live in the view types and spec functions beside the code they
//! describe.
//!
//! All arithmetic is exact: a decimal literal is carried as the fraction
//! it denotes, so it reprints as that fraction reduced, and the reprinted
//! text reads back as the same number in the fraction-carrying value
//! rather than the decimal-literal one.  For the same reason the
//! irrational standard functions (square and other roots, the
//! trigonometric and hyperbolic family, exponential and logarithm, vector
//! norm) and non-whole exponents are not provided: a call reaches the
//! unknown-function note, and a fractional power the incompatibility
//! note.

use vstd::prelude::*;

pub mod configuration;
pub mod exact_math;
pub mod interpreting;
pub mod lexing;
pub mod parsing;
pub mod utils;

verus! {

} // verus!
