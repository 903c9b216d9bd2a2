//! Request-body aggregation and typed extraction: size and media-type policy,
//! a body aggregator driven one chunk at a time, and binary and text extractors.

pub mod body;
pub mod bytes_buf;
pub mod config;
pub mod extract;
pub mod length;
pub mod stream;
pub mod text;

