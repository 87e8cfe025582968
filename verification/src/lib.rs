//! Core of a per-project file-path index: what goes into an index when it is
//! built, how the index is laid out, and which of its lines a query returns.
//!
//! Walking the file system, compressing and storing the index, and printing
//! are left to the caller; this crate decides and computes on plain values.

pub mod config;
pub mod engine;
pub mod index;
pub mod laws;
pub mod layout;
pub mod query;
pub mod run;
pub mod text;
pub mod update;
pub mod walk;
