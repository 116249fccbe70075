//! Trade normalization: stateless. Each inbound trade object becomes
//! one row, with its side forced to "Buy" or "Sell", its prices parsed
//! as decimals, and its millisecond timestamp widened to nanoseconds.
//! One bad trade aborts the whole batch.

use crate::decimal::{spec_parse_decimal, Decimal128, DecimalParseError};
use crate::errors::FeedError;
use vstd::prelude::*;
use vstd::string::*;

verus! {

/// A trade object as it comes off the wire.
pub struct BybitTradeData {
    pub trade_timestamp: u64,
    pub symbol: String,
    pub side: String,
    pub volume: String,
    pub price: String,
    pub tick_direction: String,
    pub trade_id: String,
    pub is_block_trade: bool,
    pub is_rpi: bool,
    pub seq: u64,
}

/// A persisted trade row. Timestamps are nanoseconds since the Unix
/// epoch.
#[derive(Debug)]
pub struct BybitTrades {
    pub server_timestamp: i128,
    pub received_timestamp: i128,
    pub trade_timestamp: i128,
    pub symbol: String,
    pub trade_id: String,
    pub side: String,
    pub price: Decimal128,
    pub volume: Decimal128,
    pub tick_direction: String,
    pub is_block_trade: bool,
    pub is_rpi: bool,
    pub seq: u64,
    pub exchange: String,
}

/// Side normalization: exactly "Buy" stays "Buy", everything else
/// becomes "Sell".
pub open spec fn norm_side(s: Seq<char>) -> Seq<char> {
    if s == "Buy"@ {
        "Buy"@
    } else {
        "Sell"@
    }
}

/// Every persisted side is one of the two literals.
pub proof fn lemma_side_normalized(s: Seq<char>)
    ensures
        norm_side(s) == "Buy"@ || norm_side(s) == "Sell"@,
{
}

/// The reason a single trade is rejected, price first.
pub open spec fn trade_error(td: BybitTradeData) -> Option<DecimalParseError> {
    if spec_parse_decimal(td.price@) is Err {
        Some(spec_parse_decimal(td.price@)->Err_0)
    } else if spec_parse_decimal(td.volume@) is Err {
        Some(spec_parse_decimal(td.volume@)->Err_0)
    } else {
        None
    }
}

/// The first rejection in a batch, in arrival order.
pub open spec fn batch_error(data: Seq<BybitTradeData>) -> Option<DecimalParseError>
    decreases data.len(),
{
    if data.len() == 0 {
        None
    } else {
        match trade_error(data[0]) {
            Option::Some(e) => Some(e),
            Option::None => batch_error(data.subrange(1, data.len() as int)),
        }
    }
}

/// The exact correspondence of one row to one wire trade.
pub open spec fn trade_row_ok(r: BybitTrades, td: BybitTradeData, sts: int, rts: int) -> bool {
    &&& r.server_timestamp == sts
    &&& r.received_timestamp == rts
    &&& r.trade_timestamp == td.trade_timestamp * 1_000_000
    &&& r.symbol@ == td.symbol@
    &&& r.trade_id@ == td.trade_id@
    &&& r.side@ == norm_side(td.side@)
    &&& r.price@ == spec_parse_decimal(td.price@)->Ok_0
    &&& r.volume@ == spec_parse_decimal(td.volume@)->Ok_0
    &&& r.tick_direction@ == td.tick_direction@
    &&& r.is_block_trade == td.is_block_trade
    &&& r.is_rpi == td.is_rpi
    &&& r.seq == td.seq
    &&& r.exchange@ == "Bybit"@
}

impl BybitTrades {
    /// Builds one row from one wire trade, or reports why it cannot.
    fn parse_bybit_trade_data(td: &BybitTradeData, server_timestamp: i128, received_timestamp: i128) -> (r:
        Result<BybitTrades, DecimalParseError>)
        ensures
            trade_error(*td) matches Some(e) ==> r == Err::<BybitTrades, DecimalParseError>(e),
            trade_error(*td) is None ==> r is Ok && trade_row_ok(
                r->Ok_0,
                *td,
                server_timestamp as int,
                received_timestamp as int,
            ),
    {
        let price = match Decimal128::from_str(td.price.as_str()) {
            Ok(p) => p,
            Err(e) => {
                return Err(e);
            },
        };
        let volume = match Decimal128::from_str(td.volume.as_str()) {
            Ok(v) => v,
            Err(e) => {
                return Err(e);
            },
        };
        let side = if td.side == String::from_str("Buy") {
            String::from_str("Buy")
        } else {
            String::from_str("Sell")
        };
        Ok(
            BybitTrades {
                server_timestamp,
                received_timestamp,
                trade_timestamp: (td.trade_timestamp as i128) * 1_000_000,
                symbol: td.symbol.clone(),
                trade_id: td.trade_id.clone(),
                side,
                price,
                volume,
                tick_direction: td.tick_direction.clone(),
                is_block_trade: td.is_block_trade,
                is_rpi: td.is_rpi,
                seq: td.seq,
                exchange: String::from_str("Bybit"),
            },
        )
    }

    /// Turns a batch of wire trades into rows, in array order; the
    /// first bad trade aborts the whole batch.
    pub fn parse_bybit_trade(
        data: Vec<BybitTradeData>,
        server_timestamp: i128,
        received_timestamp: i128,
    ) -> (r: Result<Vec<BybitTrades>, FeedError>)
        ensures
            batch_error(data@) matches Some(e) ==> r == Err::<Vec<BybitTrades>, FeedError>(
                FeedError::DecimalParse(e),
            ),
            batch_error(data@) is None ==> r is Ok && r->Ok_0@.len() == data@.len() && (forall|
                i: int,
            |
                0 <= i < data@.len() ==> trade_row_ok(
                    #[trigger] r->Ok_0@[i],
                    data@[i],
                    server_timestamp as int,
                    received_timestamp as int,
                )),
    {
        let mut rows: Vec<BybitTrades> = Vec::new();
        let n = data.len();
        let mut i: usize = 0;
        proof {
            assert(data@.subrange(0, n as int) =~= data@);
        }
        while i < n
            invariant
                i <= n,
                n == data@.len(),
                rows@.len() == i,
                batch_error(data@) == batch_error(data@.subrange(i as int, n as int)),
                forall|j: int|
                    0 <= j < i ==> trade_row_ok(
                        #[trigger] rows@[j],
                        data@[j],
                        server_timestamp as int,
                        received_timestamp as int,
                    ),
            decreases n - i,
        {
            proof {
                assert(data@.subrange(i as int, n as int)[0] == data@[i as int]);
                assert(data@.subrange(i as int, n as int).subrange(
                    1,
                    data@.subrange(i as int, n as int).len() as int,
                ) =~= data@.subrange(i + 1, n as int));
            }
            match Self::parse_bybit_trade_data(&data[i], server_timestamp, received_timestamp) {
                Ok(row) => {
                    rows.push(row);
                },
                Err(e) => {
                    return Err(FeedError::DecimalParse(e));
                },
            }
            i = i + 1;
        }
        proof {
            assert(data@.subrange(n as int, n as int) =~= Seq::<BybitTradeData>::empty());
        }
        Ok(rows)
    }
}

} // verus!
