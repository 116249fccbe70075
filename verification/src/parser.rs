//! The parser stage: discriminates inbound envelopes, routes order
//! book, ticker and trade payloads to their state machines, and turns
//! their outcomes into actions for the supervisor and the writer.

use crate::book::{
    orderbook_post, BybitOrderbook, BybitOrderbookData, OrderbookCache, OrderbookOutcome,
};
use crate::errors::FeedError;
use crate::ticker::{ticker_post, BybitTicker, BybitTickerData, TickerCache};
use crate::trades::{batch_error, trade_row_ok, BybitTradeData, BybitTrades};
use vstd::prelude::*;

verus! {

/// An inbound topic envelope, already deserialized to plain values.
/// `server_timestamp` is milliseconds since the Unix epoch.
pub struct BybitTopics {
    pub topic: String,
    pub server_timestamp: u64,
    pub ttype: String,
    pub data: BybitData,
    pub cross_sequence: Option<u64>,
    pub client_timestamp: Option<u64>,
}

/// The three payload shapes an envelope can carry.
pub enum BybitData {
    Trades(Vec<BybitTradeData>),
    Orderbook(BybitOrderbookData),
    Ticker(BybitTickerData),
}

/// A typed batch for the writer stage.
pub enum BybitOTT {
    BybitTicker(BybitTicker),
    BybitOrderbook(Vec<BybitOrderbook>),
    BybitTrades(Vec<BybitTrades>),
}

/// An inbound message: a subscription confirmation, or a topic
/// envelope.
pub enum Bybit {
    Confirmation { success: bool },
    Topics(BybitTopics),
}

/// What the parser asks of its surroundings after one message.
pub enum ParseOutcome {
    /// Send this batch to the writer.
    Emit(BybitOTT),
    /// Send a reconnect request on the control channel.
    Reconnect,
    /// A confirmation: log the flag, touch nothing.
    Confirmed(bool),
    /// The message was rejected: log and continue.
    Skip(FeedError),
}

/// Server time widened from milliseconds to nanoseconds, and local
/// receive time truncated to millisecond granularity.
pub fn get_time(parsed_message: &BybitTopics, now_nanos: i128) -> (r: (i128, i128))
    requires
        0 <= now_nanos,
    ensures
        r.0 == parsed_message.server_timestamp * 1_000_000,
        r.1 == (now_nanos / 1_000_000) * 1_000_000,
{
    let server = (parsed_message.server_timestamp as i128) * 1_000_000;
    let received = (now_nanos / 1_000_000) * 1_000_000;
    (server, received)
}

/// The order-book result a parse outcome stands for.
pub open spec fn ob_result_of(r: ParseOutcome) -> Result<OrderbookOutcome, FeedError> {
    match r {
        ParseOutcome::Skip(e) => Err(e),
        ParseOutcome::Reconnect => Ok(OrderbookOutcome::Reconnect),
        ParseOutcome::Emit(o) => match o {
            BybitOTT::BybitOrderbook(rows) => Ok(OrderbookOutcome::Rows(rows)),
            _ => Err(FeedError::MalformedMessage),
        },
        ParseOutcome::Confirmed(_) => Err(FeedError::MalformedMessage),
    }
}

/// The outcome shape the order-book path may produce.
pub open spec fn ob_shaped(r: ParseOutcome) -> bool {
    match r {
        ParseOutcome::Skip(_) => true,
        ParseOutcome::Reconnect => true,
        ParseOutcome::Emit(o) => o is BybitOrderbook,
        ParseOutcome::Confirmed(_) => false,
    }
}

/// The ticker result a parse outcome stands for.
pub open spec fn ticker_result_of(r: ParseOutcome) -> Result<BybitTicker, FeedError> {
    match r {
        ParseOutcome::Skip(e) => Err(e),
        ParseOutcome::Emit(o) => match o {
            BybitOTT::BybitTicker(t) => Ok(t),
            _ => Err(FeedError::MalformedMessage),
        },
        _ => Err(FeedError::MalformedMessage),
    }
}

/// The outcome shape the ticker path may produce.
pub open spec fn ticker_shaped(r: ParseOutcome) -> bool {
    match r {
        ParseOutcome::Skip(_) => true,
        ParseOutcome::Emit(o) => o is BybitTicker,
        _ => false,
    }
}

/// Everything the router does for one topic envelope: which handler
/// ran, what it did to its cache, and how its result became a parser
/// action. `pre`/`post` are the caches before and after.
pub open spec fn topic_post(
    topic: BybitTopics,
    now_nanos: int,
    pre_ob: OrderbookCache,
    post_ob: OrderbookCache,
    pre_tk: TickerCache,
    post_tk: TickerCache,
    r: ParseOutcome,
) -> bool {
    let sts = topic.server_timestamp * 1_000_000;
    let rts = (now_nanos / 1_000_000) * 1_000_000;
    match topic.data {
        BybitData::Trades(ts) => {
            &&& post_ob == pre_ob
            &&& post_tk == pre_tk
            &&& match batch_error(ts@) {
                Option::Some(e) => r == ParseOutcome::Skip(FeedError::DecimalParse(e)),
                Option::None => {
                    &&& r matches ParseOutcome::Emit(o)
                    &&& o matches BybitOTT::BybitTrades(rows)
                    &&& rows@.len() == ts@.len()
                    &&& forall|i: int|
                        0 <= i < ts@.len() ==> trade_row_ok(#[trigger] rows@[i], ts@[i], sts, rts)
                },
            }
        },
        BybitData::Orderbook(ob) => {
            &&& post_tk == pre_tk
            &&& ob_shaped(r)
            &&& orderbook_post(
                pre_ob,
                post_ob,
                ob_result_of(r),
                sts,
                rts,
                topic.client_timestamp,
                ob,
                topic.ttype@,
            )
        },
        BybitData::Ticker(td) => {
            &&& post_ob == pre_ob
            &&& topic.cross_sequence is None ==> r == ParseOutcome::Skip(
                FeedError::MalformedMessage,
            ) && post_tk == pre_tk
            &&& topic.cross_sequence matches Some(cs) ==> ticker_shaped(r) && ticker_post(
                pre_tk,
                post_tk,
                ticker_result_of(r),
                sts,
                rts,
                cs as int,
                td,
                topic.ttype@,
            )
        },
    }
}

/// Routes one topic envelope to its handler and maps the handler's
/// result to a parser action. `now_nanos` is the local clock reading.
pub fn handle_topic(
    topic: BybitTopics,
    now_nanos: i128,
    orderbook_cache: &mut OrderbookCache,
    ticker_cache: &mut TickerCache,
) -> (r: ParseOutcome)
    requires
        old(orderbook_cache).wf(),
        old(ticker_cache).wf(),
        0 <= now_nanos,
    ensures
        final(orderbook_cache).wf(),
        final(ticker_cache).wf(),
        topic_post(
            topic,
            now_nanos as int,
            *old(orderbook_cache),
            *final(orderbook_cache),
            *old(ticker_cache),
            *final(ticker_cache),
            r,
        ),
{
    let times = get_time(&topic, now_nanos);
    let server_timestamp = times.0;
    let received_timestamp = times.1;
    match topic.data {
        BybitData::Trades(ts) => {
            match BybitTrades::parse_bybit_trade(ts, server_timestamp, received_timestamp) {
                Ok(rows) => ParseOutcome::Emit(BybitOTT::BybitTrades(rows)),
                Err(e) => ParseOutcome::Skip(e),
            }
        },
        BybitData::Orderbook(ob) => {
            match BybitOrderbook::parse_bybit_orderbook(
                server_timestamp,
                received_timestamp,
                topic.client_timestamp,
                ob,
                &topic.ttype,
                orderbook_cache,
            ) {
                Ok(OrderbookOutcome::Rows(rows)) => ParseOutcome::Emit(
                    BybitOTT::BybitOrderbook(rows),
                ),
                Ok(OrderbookOutcome::Reconnect) => ParseOutcome::Reconnect,
                Err(e) => ParseOutcome::Skip(e),
            }
        },
        BybitData::Ticker(td) => {
            let cs = match topic.cross_sequence {
                Some(cs) => cs,
                None => {
                    return ParseOutcome::Skip(FeedError::MalformedMessage);
                },
            };
            match BybitTicker::parse_bybit_ticker(
                server_timestamp,
                received_timestamp,
                td,
                cs,
                &topic.ttype,
                ticker_cache,
            ) {
                Ok(t) => ParseOutcome::Emit(BybitOTT::BybitTicker(t)),
                Err(e) => ParseOutcome::Skip(e),
            }
        },
    }
}

/// One step of the parser task: a confirmation is only acknowledged,
/// a topic envelope runs the routing above.
pub fn handle_message(
    message: Bybit,
    now_nanos: i128,
    orderbook_cache: &mut OrderbookCache,
    ticker_cache: &mut TickerCache,
) -> (r: ParseOutcome)
    requires
        old(orderbook_cache).wf(),
        old(ticker_cache).wf(),
        0 <= now_nanos,
    ensures
        final(orderbook_cache).wf(),
        final(ticker_cache).wf(),
        message matches Bybit::Confirmation { success } ==> r == ParseOutcome::Confirmed(success)
            && *final(orderbook_cache) == *old(orderbook_cache) && *final(ticker_cache) == *old(
            ticker_cache,
        ),
        message matches Bybit::Topics(topic) ==> topic_post(
            topic,
            now_nanos as int,
            *old(orderbook_cache),
            *final(orderbook_cache),
            *old(ticker_cache),
            *final(ticker_cache),
            r,
        ) && !(r is Confirmed),
{
    match message {
        Bybit::Confirmation { success } => ParseOutcome::Confirmed(success),
        Bybit::Topics(topic) => {
            let r = handle_topic(topic, now_nanos, orderbook_cache, ticker_cache);
            match r {
                ParseOutcome::Confirmed(_) => ParseOutcome::Skip(FeedError::MalformedMessage),
                other => other,
            }
        },
    }
}

} // verus!
