//! Live market-data feed: wire decoding, the ping/pong and subscription
//! handshake, reconnect decisions, and a time-bucketed rolling window of
//! closing prices.
pub mod app;
pub mod data_source;
pub mod price;
pub mod stock;
pub mod text;
pub mod wire;
