//! Image ingestion and verified similarity search.
//!
//! The library holds the decisions of two pipelines: a polling worker that
//! brings new images into a vector index exactly once per process, and a
//! signed, expiring token that binds a search result to later feedback.
//! Network, disk and database work is done by the caller, which hands the
//! outcomes back as plain values.
pub mod claim;
pub mod ingest;
pub mod repo;
pub mod token;
pub mod tracker;
