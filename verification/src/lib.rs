//! Verified core of a humidity-calibration service: a fixed-point
//! Newton-Raphson solver with a traceable convergence history, a
//! calibration engine deriving predicted readings with banded status
//! labels, a single-writer shared snapshot of the latest reading, the
//! ingestion state machine with its payload parser, and an append-only
//! history log.
//!
//! All numeric quantities are fixed-point values: an `i64` counts
//! billionths (nano-units), so `1_000_000_000` stands for `1.0`.
//! Arithmetic saturates at the `i64` bounds and divisions truncate
//! toward zero; the spec functions in `fixed` state those semantics
//! exactly and every contract is phrased over them.

pub mod clock;
pub mod engine;
pub mod fixed;
pub mod ingest;
pub mod log;
pub mod model;
pub mod parse;
pub mod state;
pub mod solver;
pub mod trig;

pub use fixed::FP_SCALE;
