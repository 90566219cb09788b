//! Probability distribution families: their parameter schema, validated
//! construction, summary statistics and finite plotting windows.
//!
//! Numbers are carried as [`double::Double`], a binary64 value held by its bit
//! pattern, so that every comparison the library makes is integer arithmetic.

pub mod double;
pub mod distr;
pub mod family;
pub mod range;
pub mod rules;
