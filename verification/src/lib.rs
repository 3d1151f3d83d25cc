//! Building blocks of the Plexus block extractor: durations, the cache layout
//! on disk, and the retry policy of the RPC layer.
use vstd::prelude::*;

pub mod cache_path;
pub mod extractor;
pub mod path;
pub mod time;

verus! {

} // verus!
