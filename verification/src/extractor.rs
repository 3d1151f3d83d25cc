//! The block extractor: its on-disk cache and its JSON-RPC layer.
pub mod cache;
pub mod rpc;
