//! A small prediction service's verified core: a linear-regression
//! scoring engine over IEEE-754 double bit patterns, and the metrics
//! registry the service exposes its operation through.
//!
//! Doubles never appear as such: every numeric value travels as its
//! 64-bit pattern, which the proofs read field by field.  The four
//! double arithmetic primitives the engine needs are handed in by the
//! caller as a function value; everything around them — validation,
//! the dot product's shape, magnitudes, comparisons, clamping, metric
//! bookkeeping and the exposition text — is verified.

pub mod fbits;
pub mod model;
pub mod registry;
pub mod scaled;
pub mod service;
