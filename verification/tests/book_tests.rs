use bybit_feed::book::{BybitOrderbook, BybitOrderbookData, OrderbookCache, OrderbookOutcome};
use bybit_feed::decimal::Decimal128;
use bybit_feed::errors::FeedError;

fn levels(pairs: &[(&str, &str)]) -> Vec<(String, String)> {
    pairs.iter().map(|(p, v)| (p.to_string(), v.to_string())).collect()
}

fn side_lookup(side: &bybit_feed::book::BookSide, price: &str) -> Option<i128> {
    let p = Decimal128::from_str(price).unwrap();
    side.levels.iter().find(|(q, _)| *q == p).map(|(_, v)| v.units)
}

fn dec_units(s: &str) -> i128 {
    Decimal128::from_str(s).unwrap().units
}

fn snapshot_a() -> BybitOrderbookData {
    BybitOrderbookData {
        symbol: "BTCUSDT".to_string(),
        bid: levels(&[("100", "1"), ("99", "2")]),
        ask: levels(&[("101", "3")]),
        update: 1,
    }
}

#[test]
fn snapshot_installs_book() {
    let mut cache = OrderbookCache::new();
    let r = BybitOrderbook::parse_bybit_orderbook(
        1_000_000_000,
        1_000_000_100,
        Some(1000),
        snapshot_a(),
        &"snapshot".to_string(),
        &mut cache,
    )
    .unwrap();
    let entry = &cache.orderbook.iter().find(|(s, _)| s == "BTCUSDT").unwrap().1;
    assert_eq!(entry.data.update, 1);
    assert_eq!(side_lookup(&entry.data.bid, "100"), Some(dec_units("1")));
    assert_eq!(side_lookup(&entry.data.bid, "99"), Some(dec_units("2")));
    assert_eq!(side_lookup(&entry.data.ask, "101"), Some(dec_units("3")));
    assert_eq!(entry.data.bid.levels.len(), 2);
    assert_eq!(entry.data.ask.levels.len(), 1);
    match r {
        OrderbookOutcome::Rows(rows) => {
            assert_eq!(rows.len(), 3);
            for row in &rows {
                assert_eq!(row.update, 1);
                assert_eq!(row.exchange, "Bybit");
            }
        }
        OrderbookOutcome::Reconnect => panic!("snapshot must emit rows"),
    }
}

#[test]
fn delta_applies_in_order() {
    let mut cache = OrderbookCache::new();
    BybitOrderbook::parse_bybit_orderbook(
        1_000_000_000,
        1_000_000_100,
        Some(1000),
        snapshot_a(),
        &"snapshot".to_string(),
        &mut cache,
    )
    .unwrap();
    let delta = BybitOrderbookData {
        symbol: "BTCUSDT".to_string(),
        bid: levels(&[("99", "0"), ("98", "5")]),
        ask: levels(&[("101", "4")]),
        update: 2,
    };
    let r = BybitOrderbook::parse_bybit_orderbook(
        1_001_000_000,
        1_001_000_100,
        Some(1001),
        delta,
        &"delta".to_string(),
        &mut cache,
    )
    .unwrap();
    let entry = &cache.orderbook.iter().find(|(s, _)| s == "BTCUSDT").unwrap().1;
    assert_eq!(entry.data.update, 2);
    assert_eq!(side_lookup(&entry.data.bid, "100"), Some(dec_units("1")));
    assert_eq!(side_lookup(&entry.data.bid, "99"), None);
    assert_eq!(side_lookup(&entry.data.bid, "98"), Some(dec_units("5")));
    assert_eq!(side_lookup(&entry.data.ask, "101"), Some(dec_units("4")));
    match r {
        OrderbookOutcome::Rows(rows) => {
            assert_eq!(rows.len(), 3);
            for row in &rows {
                assert_eq!(row.update, 2);
                assert!(row.volume.units != 0, "no zero volume may be persisted");
                assert!(row.side == "Bid" || row.side == "Ask");
            }
        }
        OrderbookOutcome::Reconnect => panic!("sequential delta must emit rows"),
    }
}

#[test]
fn gap_requests_reconnect_and_keeps_state() {
    let mut cache = OrderbookCache::new();
    BybitOrderbook::parse_bybit_orderbook(
        1_000_000_000,
        1_000_000_100,
        Some(1000),
        snapshot_a(),
        &"snapshot".to_string(),
        &mut cache,
    )
    .unwrap();
    let gap = BybitOrderbookData {
        symbol: "BTCUSDT".to_string(),
        bid: levels(&[("98", "5")]),
        ask: levels(&[]),
        update: 5,
    };
    let r = BybitOrderbook::parse_bybit_orderbook(
        1_001_000_000,
        1_001_000_100,
        Some(1001),
        gap,
        &"delta".to_string(),
        &mut cache,
    )
    .unwrap();
    assert!(matches!(r, OrderbookOutcome::Reconnect));
    let entry = &cache.orderbook.iter().find(|(s, _)| s == "BTCUSDT").unwrap().1;
    assert_eq!(entry.data.update, 1, "gap must not mutate the book");
    assert_eq!(entry.data.bid.levels.len(), 2);
    assert_eq!(side_lookup(&entry.data.bid, "98"), None);
}

#[test]
fn delta_before_snapshot_requests_reconnect() {
    let mut cache = OrderbookCache::new();
    let delta = BybitOrderbookData {
        symbol: "X".to_string(),
        bid: levels(&[("1", "1")]),
        ask: levels(&[]),
        update: 7,
    };
    let r = BybitOrderbook::parse_bybit_orderbook(
        1_000_000_000,
        1_000_000_100,
        Some(1000),
        delta,
        &"delta".to_string(),
        &mut cache,
    )
    .unwrap();
    assert!(matches!(r, OrderbookOutcome::Reconnect));
    assert!(cache.orderbook.is_empty());
}

#[test]
fn update_ids_increase_within_session() {
    let mut cache = OrderbookCache::new();
    let mut emitted: Vec<u64> = Vec::new();
    let msgs: [(&str, u64); 4] = [("snapshot", 10), ("delta", 11), ("delta", 13), ("delta", 12)];
    for (kind, u) in msgs {
        let data = BybitOrderbookData {
            symbol: "ETHUSDT".to_string(),
            bid: levels(&[("10", "1")]),
            ask: levels(&[("11", "1")]),
            update: u,
        };
        let r = BybitOrderbook::parse_bybit_orderbook(
            1_000_000_000,
            1_000_000_100,
            Some(1000),
            data,
            &kind.to_string(),
            &mut cache,
        )
        .unwrap();
        if let OrderbookOutcome::Rows(rows) = r {
            emitted.push(rows[0].update);
        }
    }
    // u=13 gaps (11+1=12 expected), u=12 is then accepted.
    assert_eq!(emitted, vec![10, 11, 12]);
    for w in emitted.windows(2) {
        assert!(w[0] < w[1]);
    }
}

#[test]
fn unknown_type_is_rejected() {
    let mut cache = OrderbookCache::new();
    let r = BybitOrderbook::parse_bybit_orderbook(
        1_000_000_000,
        1_000_000_100,
        Some(1000),
        snapshot_a(),
        &"weird".to_string(),
        &mut cache,
    );
    assert_eq!(r.unwrap_err(), FeedError::UnknownType);
    assert!(cache.orderbook.is_empty());
}

#[test]
fn missing_client_timestamp_is_rejected() {
    let mut cache = OrderbookCache::new();
    let r = BybitOrderbook::parse_bybit_orderbook(
        1_000_000_000,
        1_000_000_100,
        None,
        snapshot_a(),
        &"snapshot".to_string(),
        &mut cache,
    );
    assert_eq!(r.unwrap_err(), FeedError::MalformedMessage);
}

#[test]
fn bad_level_decimal_is_rejected() {
    let mut cache = OrderbookCache::new();
    let data = BybitOrderbookData {
        symbol: "BTCUSDT".to_string(),
        bid: levels(&[("oops", "1")]),
        ask: levels(&[]),
        update: 1,
    };
    let r = BybitOrderbook::parse_bybit_orderbook(
        1_000_000_000,
        1_000_000_100,
        Some(1000),
        data,
        &"snapshot".to_string(),
        &mut cache,
    );
    assert!(matches!(r.unwrap_err(), FeedError::DecimalParse(_)));
    assert!(cache.orderbook.is_empty());
}

#[test]
fn snapshot_drops_zero_volume_levels() {
    let mut cache = OrderbookCache::new();
    let data = BybitOrderbookData {
        symbol: "BTCUSDT".to_string(),
        bid: levels(&[("100", "1"), ("99", "0")]),
        ask: levels(&[]),
        update: 1,
    };
    let r = BybitOrderbook::parse_bybit_orderbook(
        1_000_000_000,
        1_000_000_100,
        Some(1000),
        data,
        &"snapshot".to_string(),
        &mut cache,
    )
    .unwrap();
    let entry = &cache.orderbook.iter().find(|(s, _)| s == "BTCUSDT").unwrap().1;
    assert_eq!(entry.data.bid.levels.len(), 1);
    match r {
        OrderbookOutcome::Rows(rows) => assert_eq!(rows.len(), 1),
        OrderbookOutcome::Reconnect => panic!("snapshot must emit rows"),
    }
}
