//! A small publishing service: threads of short posts, rendered from
//! lightweight markup into an HTML-safe, newest-first feed.
//!
//! The library holds the verified core: the content store, the write gate,
//! the feed aggregator and the request-level validation. The HTTP transport
//! and the persistent database sit outside and talk to this core through
//! plain values.

use vstd::prelude::*;

pub mod api;
pub mod clock;
pub mod gate;
pub mod model;
pub mod render;
pub mod store;
pub mod text;

verus! {

} // verus!
