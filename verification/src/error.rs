//! The error kinds of the proxy.

use vstd::prelude::*;

verus! {

/// What can go wrong while a request is handled. An `Upstream` error
/// carries the upstream's status and body text; a `Transform` error marks
/// a structurally impossible translation; a `Serialization` error marks a
/// payload that could not be encoded or decoded; a `Transport` error marks
/// a connection, timeout or read failure; a `Config` error marks a missing
/// or unusable configuration value.
#[derive(Debug)]
pub enum ProxyError {
    Upstream { status: u16, body: String },
    Transform { message: String },
    Serialization { message: String },
    Transport { message: String },
    Config { message: String },
}

impl ProxyError {
    /// A short label naming the error kind.
    pub fn kind(&self) -> (r: &'static str)
        ensures
            r@ == match self {
                ProxyError::Upstream { .. } => "upstream_error"@,
                ProxyError::Transform { .. } => "transform_error"@,
                ProxyError::Serialization { .. } => "serialization_error"@,
                ProxyError::Transport { .. } => "transport_error"@,
                ProxyError::Config { .. } => "config_error"@,
            },
    {
        match self {
            ProxyError::Upstream { .. } => "upstream_error",
            ProxyError::Transform { .. } => "transform_error",
            ProxyError::Serialization { .. } => "serialization_error",
            ProxyError::Transport { .. } => "transport_error",
            ProxyError::Config { .. } => "config_error",
        }
    }
}

} // verus!
