//! Document ingestion and persistence for a local PDF library.
//!
//! A user-selected source file is copied into application-managed storage
//! under a collision-free name and recorded in a local relational store.
//! This crate holds the verified core: path normalization for the storage
//! connection locator, the collision-free destination-naming rule, title
//! derivation, the ingestion decision pipeline, and a model of the paper
//! store with its ordering and identifier invariants. The surrounding
//! process (dialog, filesystem, database driver) performs the I/O and
//! feeds plain values through these functions.

pub mod paths;
pub mod naming;
pub mod store;
pub mod ingest;

pub use paths::clean_windows_path;
