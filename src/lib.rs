//! A persistent, versioned key-value store.
//!
//! Each instance keeps a live map of values over a read-only map of
//! defaults, persists the live map as tagged JSON with an Adler-32
//! checksum beside it, and keeps a bounded number of older generations.

pub mod error;
pub mod value;
pub mod json;
pub mod backend;
pub mod json_backend;
pub mod mock_backend;
pub mod kvs_provider;
