//! Verified core of the TickFlow market-data client.
use vstd::prelude::*;

pub mod adjust;
pub mod batch;
pub mod cache;
pub mod clock;
pub mod code_laws;
pub mod config;
pub mod error;
pub mod exchange;
pub mod financial;
pub mod frame;
pub mod http;
pub mod instrument;
pub mod kline;
pub mod kline_request;
pub mod laws;
pub mod order;
pub mod period;
pub mod quote;
pub mod quote_frame;
pub mod quote_request;
pub mod records;
pub mod symbol;
pub mod table_laws;
pub mod text;
pub mod universe;

verus! {

/// Number of identifiers sent in one request of a batch endpoint.
pub const BATCH_CHUNK_SIZE: usize = 500;

} // verus!
