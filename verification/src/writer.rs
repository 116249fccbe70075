//! The writer stage's decisions: which sink table a typed batch feeds,
//! how many rows it writes, and the batcher thresholds. The inserters
//! themselves, their timers and the network commits live outside the
//! library; the surrounding task performs what these decisions say.

use crate::parser::BybitOTT;
use vstd::prelude::*;

verus! {

/// Rows per batcher before a size-triggered flush.
pub const BATCH_MAX_ROWS: u64 = 100;

/// Seconds between time-triggered flushes of the order-book batcher.
pub const ORDERBOOK_PERIOD_SECS: u64 = 5;

/// Seconds between time-triggered flushes of the trades batcher.
pub const TRADES_PERIOD_SECS: u64 = 1;

/// Seconds between time-triggered flushes of the ticker batcher.
pub const TICKER_PERIOD_SECS: u64 = 1;

/// Flush jitter as a percentage of the period, spreading flush times
/// across symbols.
pub const PERIOD_JITTER_PCT: u64 = 20;

/// The three append-only sink tables.
pub enum SinkTable {
    Trades,
    Orderbook,
    Ticker,
}

/// The name of a sink table.
pub fn table_name(t: &SinkTable) -> (r: &'static str)
    ensures
        t is Trades ==> r@ == "trades_raw_ml"@,
        t is Orderbook ==> r@ == "orderbook_raw_ml"@,
        t is Ticker ==> r@ == "ticker_raw_ml"@,
{
    match t {
        SinkTable::Trades => "trades_raw_ml",
        SinkTable::Orderbook => "orderbook_raw_ml",
        SinkTable::Ticker => "ticker_raw_ml",
    }
}

/// The writer's routing decision for one typed batch: the table it
/// feeds and the number of rows it writes there.
pub fn route_batch(b: &BybitOTT) -> (r: (SinkTable, usize))
    ensures
        b is BybitTicker ==> r.0 is Ticker && r.1 == 1,
        b matches BybitOTT::BybitOrderbook(rows) ==> r.0 is Orderbook && r.1 == rows@.len(),
        b matches BybitOTT::BybitTrades(rows) ==> r.0 is Trades && r.1 == rows@.len(),
{
    match b {
        BybitOTT::BybitTicker(_) => (SinkTable::Ticker, 1),
        BybitOTT::BybitOrderbook(rows) => (SinkTable::Orderbook, rows.len()),
        BybitOTT::BybitTrades(rows) => (SinkTable::Trades, rows.len()),
    }
}

} // verus!
