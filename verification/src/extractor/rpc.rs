//! The JSON-RPC layer: configuration, error classification, retry policy and
//! the rate-limit signal of the HTTP transport.
pub mod config;
pub mod error;
pub mod retry;
pub mod transport;
