//! Where the extractor keeps what it fetched, and how it names its files.
pub mod config;
pub mod io;
