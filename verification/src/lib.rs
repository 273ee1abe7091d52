//! Static test-coverage estimation for a source tree, without running
//! the code. A scan recovers class and method boundaries from raw text
//! with line-oriented heuristics, recovers test-method bodies the same
//! way, normalizes lines on both sides, and infers which production
//! lines are exercised by textual co-occurrence: a logic method's line
//! counts as covered when some test body holds the same line, post
//! normalization.
//!
//! The pipeline is pure: directory walking and file reading happen
//! outside, and hand the scanner a stream of named files with their
//! lines. Every stage carries a contract over a mathematical model of
//! its data, and the stated laws (normalization idempotence,
//! determinism, independence from discovery order, coverage
//! monotonicity) are proved alongside the code.

pub mod text;
pub mod patterns;
pub mod extract;
pub mod lines;
pub mod coverage;
pub mod command;
pub mod analysis;
