//! A client for streaming HTTP range requests: the bookkeeping of which bytes of a
//! remote resource have been requested, where the reader stands, and which request
//! a seek needs.

pub mod client_state;
pub mod decimal;
pub mod error;
pub mod http_range;
pub mod local_bytes;
pub mod pending_chunk;
pub mod request;

pub use error::{Error, Result};
pub use http_range::HttpRange;
