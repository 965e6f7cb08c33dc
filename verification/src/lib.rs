//! A protocol-translation library for a chat-completion proxy.
//!
//! The library translates requests written in a structured, block-based
//! chat format (the "source" format) into the flat-message chat-completion
//! format of an upstream service (the "target" format), translates complete
//! responses back, and reassembles the upstream's incremental stream chunks
//! into the source format's ordered event stream.

pub mod config;
pub mod error;
pub mod frames;
pub mod json;
pub mod models;
pub mod render;
pub mod schema;
pub mod stream;
pub mod transform;
pub mod text;
