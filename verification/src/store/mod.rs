//! The storage of transition outputs.

pub mod map;
pub mod output;
