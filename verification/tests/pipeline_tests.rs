use bybit_feed::api::Api;
use bybit_feed::book::OrderbookCache;
use bybit_feed::errors::FeedError;
use bybit_feed::ingress::{fetch_step, subscribe_frame, FetchAction, FetchEvent};
use bybit_feed::parser::{
    get_time, handle_message, handle_topic, Bybit, BybitData, BybitOTT, BybitTopics, ParseOutcome,
};
use bybit_feed::ticker::TickerCache;
use bybit_feed::trades::BybitTradeData;
use bybit_feed::writer::{route_batch, table_name, SinkTable, BATCH_MAX_ROWS};

fn trade_topic() -> BybitTopics {
    BybitTopics {
        topic: "publicTrade.BTCUSDT".to_string(),
        server_timestamp: 1000,
        ttype: "snapshot".to_string(),
        data: BybitData::Trades(vec![BybitTradeData {
            trade_timestamp: 1_700_000_000_000,
            symbol: "BTCUSDT".to_string(),
            side: "Buy".to_string(),
            volume: "0.001".to_string(),
            price: "50000.5".to_string(),
            tick_direction: "PlusTick".to_string(),
            trade_id: "t-1".to_string(),
            is_block_trade: false,
            is_rpi: false,
            seq: 1,
        }]),
        cross_sequence: None,
        client_timestamp: None,
    }
}

#[test]
fn get_time_widens_and_truncates() {
    let t = trade_topic();
    let (server, received) = get_time(&t, 123_456_789);
    assert_eq!(server, 1_000_000_000);
    assert_eq!(received, 123_000_000, "received time truncates to milliseconds");
}

#[test]
fn trades_are_routed_to_the_writer() {
    let mut ob = OrderbookCache::new();
    let mut tk = TickerCache::new();
    let r = handle_topic(trade_topic(), 5_000_000, &mut ob, &mut tk);
    match r {
        ParseOutcome::Emit(BybitOTT::BybitTrades(rows)) => {
            assert_eq!(rows.len(), 1);
            assert_eq!(rows[0].server_timestamp, 1_000_000_000);
            assert_eq!(rows[0].received_timestamp, 5_000_000);
        }
        _ => panic!("expected a trades batch"),
    }
}

#[test]
fn ticker_without_cross_sequence_is_skipped() {
    let mut ob = OrderbookCache::new();
    let mut tk = TickerCache::new();
    let mut t = trade_topic();
    t.data = BybitData::Ticker(bybit_feed::ticker::BybitTickerData {
        symbol: "BTCUSDT".to_string(),
        tick_direction: None,
        price24h_pcnt: None,
        last_price: None,
        prev_price24h: None,
        high_price24h: None,
        low_price24h: None,
        prev_price1h: None,
        mark_price: None,
        index_price: None,
        open_interest: None,
        open_interest_value: None,
        turnover24h: None,
        volume24h: None,
        next_funding_time: None,
        funding_rate: None,
        bid1_price: None,
        bid1_size: None,
        ask1_price: None,
        ask1_size: None,
        delivery_time: None,
        basis_rate: None,
        delivery_fee_rate: None,
        predicted_delivery_price: None,
        pre_open_price: None,
        pre_qty: None,
        cur_pre_listing_phase: None,
        funding_interval_hour: None,
        funding_cap: None,
        basis_rate_year: None,
    });
    t.cross_sequence = None;
    let r = handle_topic(t, 5_000_000, &mut ob, &mut tk);
    assert!(matches!(r, ParseOutcome::Skip(FeedError::MalformedMessage)));
    assert!(tk.ticker.is_empty());
}

#[test]
fn confirmation_touches_nothing() {
    let mut ob = OrderbookCache::new();
    let mut tk = TickerCache::new();
    let r = handle_message(
        Bybit::Confirmation { success: true },
        5_000_000,
        &mut ob,
        &mut tk,
    );
    assert!(matches!(r, ParseOutcome::Confirmed(true)));
    assert!(ob.orderbook.is_empty());
    assert!(tk.ticker.is_empty());
}

#[test]
fn topic_message_runs_the_router() {
    let mut ob = OrderbookCache::new();
    let mut tk = TickerCache::new();
    let r = handle_message(Bybit::Topics(trade_topic()), 5_000_000, &mut ob, &mut tk);
    assert!(matches!(r, ParseOutcome::Emit(BybitOTT::BybitTrades(_))));
}

#[test]
fn batches_route_to_their_tables() {
    let (t, n) = route_batch(&BybitOTT::BybitTrades(vec![]));
    assert!(matches!(t, SinkTable::Trades));
    assert_eq!(n, 0);
    let (t, n) = route_batch(&BybitOTT::BybitOrderbook(vec![]));
    assert!(matches!(t, SinkTable::Orderbook));
    assert_eq!(n, 0);
    assert_eq!(table_name(&SinkTable::Trades), "trades_raw_ml");
    assert_eq!(table_name(&SinkTable::Orderbook), "orderbook_raw_ml");
    assert_eq!(table_name(&SinkTable::Ticker), "ticker_raw_ml");
    assert_eq!(BATCH_MAX_ROWS, 100);
}

#[test]
fn subscribe_frame_lists_topics() {
    let args = vec![
        "publicTrade.BTCUSDT".to_string(),
        "orderbook.50.BTCUSDT".to_string(),
    ];
    assert_eq!(
        subscribe_frame(&args),
        "{\"op\":\"subscribe\",\"args\":[\"publicTrade.BTCUSDT\",\"orderbook.50.BTCUSDT\"]}"
    );
    assert_eq!(subscribe_frame(&vec![]), "{\"op\":\"subscribe\",\"args\":[]}");
}

#[test]
fn fetch_loop_reacts_to_events() {
    assert!(matches!(
        fetch_step(FetchEvent::Text("hi".to_string())),
        FetchAction::ForwardToParser(m) if m == "hi"
    ));
    assert!(matches!(
        fetch_step(FetchEvent::Ping(vec![1, 2])),
        FetchAction::Pong(d) if d == vec![1, 2]
    ));
    assert!(matches!(fetch_step(FetchEvent::Close), FetchAction::BreakReconnect));
    assert!(matches!(fetch_step(FetchEvent::KeepaliveTick), FetchAction::SendPing));
    assert!(matches!(
        fetch_step(FetchEvent::ControlReconnect),
        FetchAction::BreakReconnect
    ));
    assert!(matches!(
        fetch_step(FetchEvent::TransportError),
        FetchAction::BreakReconnect
    ));
    assert!(matches!(fetch_step(FetchEvent::OtherFrame), FetchAction::Ignore));
}

#[test]
fn signature_matches_known_hmac_vector() {
    let api = Api {
        public: String::new(),
        secret: "key".to_string(),
    };
    let (expires, sig) = api.generate_signature(
        "The quick brown fox jumps over the lazy dog".to_string(),
        2_000,
    );
    assert_eq!(expires, 3_000);
    assert_eq!(
        sig,
        "f7bc83f430538424b13298e6aa6fb143ef4d59a14946175997479dbc2d1a3cd8"
    );
}
