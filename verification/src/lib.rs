//! Storage abstraction layer for an index of filesystem entries.
//!
//! Entries are compact records (a path plus a creation timestamp with its
//! time zone) persisted through a pluggable backend and served back as an
//! ordered, size-bounded stream.  This crate holds the backend-agnostic
//! logic: record validation, batched writing, row encoding and decoding,
//! and fault-tolerant ordered scans.  Real backends (an embedded relational
//! store, a columnar table) plug in by exchanging plain rows and records
//! with these functions.

pub mod config;
pub mod error;
pub mod instant;
pub mod order;
pub mod record;
pub mod row;
pub mod scan;
pub mod sorting;
pub mod store;
pub mod writer;
