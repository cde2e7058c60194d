//! The coinbase puzzle: a proof of work over polynomial commitments.

pub mod engine;
pub mod helpers;
pub mod puzzle;
