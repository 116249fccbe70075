//! Verified core of a market-data capture pipeline for a derivatives
//! exchange feed: fixed-point decimals, per-symbol order-book and ticker
//! state machines with gap detection, trade normalization, and the message
//! routing that feeds a columnar sink.

pub mod api;
pub mod assoc;
pub mod book;
pub mod decimal;
pub mod errors;
pub mod ingress;
pub mod parser;
pub mod ticker;
pub mod trades;
pub mod writer;

pub use decimal::Decimal128;
