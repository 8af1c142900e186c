//! Depth-stream ingestion and order-book averaging.
//!
//! - `typespec`: the symbol type shared by every layer
//! - `orderbook`: decimal price levels and the average over an order book
//! - `json`: the structured view of a frame's text
//! - `frame`: classification of frames into acknowledgements and depth updates
//! - `aggregator`: the per-query scan over the shared frame stream
//! - `publisher`: the fan-out loop's decision on each event of the source
//! - `adapters`: the market-data provider's subscription rules
//! - `application`: queries and responses of the application layer
//! - `ports`: settings handed to driving adapters
pub mod typespec;
pub mod orderbook;
pub mod json;
pub mod frame;
pub mod adapters;
pub mod aggregator;
pub mod publisher;
pub mod application;
pub mod ports;
