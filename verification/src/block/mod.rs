//! Blocks: the metadata of a block header.

pub mod metadata;
