//! Preview materialisation: classifying files by suffix, rebuilding the tree
//! of an extracted archive, deciding when a cached preview can be reused and
//! planning the chunks in which a large sheet is written.
//!
//! Everything here works on plain values. Reading files, unpacking archives
//! and running tasks is left to the caller, who hands in what was read and
//! carries out what these functions decide.

pub mod archive;
pub mod cache;
pub mod config;
pub mod document;
pub mod error;
pub mod excel;
pub mod order;
pub mod outside;
pub mod prepare;
pub mod process;
pub mod semaphore;
pub mod text;
pub mod tree;
pub mod utils;
