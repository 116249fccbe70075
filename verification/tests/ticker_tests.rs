use bybit_feed::decimal::Decimal128;
use bybit_feed::errors::FeedError;
use bybit_feed::ticker::{BybitTicker, BybitTickerData, TickerCache};

fn empty_delta(sym: &str) -> BybitTickerData {
    BybitTickerData {
        symbol: sym.to_string(),
        tick_direction: None,
        price24h_pcnt: None,
        last_price: None,
        prev_price24h: None,
        high_price24h: None,
        low_price24h: None,
        prev_price1h: None,
        mark_price: None,
        index_price: None,
        open_interest: None,
        open_interest_value: None,
        turnover24h: None,
        volume24h: None,
        next_funding_time: None,
        funding_rate: None,
        bid1_price: None,
        bid1_size: None,
        ask1_price: None,
        ask1_size: None,
        delivery_time: None,
        basis_rate: None,
        delivery_fee_rate: None,
        predicted_delivery_price: None,
        pre_open_price: None,
        pre_qty: None,
        cur_pre_listing_phase: None,
        funding_interval_hour: None,
        funding_cap: None,
        basis_rate_year: None,
    }
}

fn dec(s: &str) -> Decimal128 {
    Decimal128::from_str(s).unwrap()
}

#[test]
fn snapshot_then_sparse_delta_retains_fields() {
    let mut cache = TickerCache::new();
    let mut snap = empty_delta("BTCUSDT");
    snap.last_price = Some("100".to_string());
    snap.mark_price = Some("101".to_string());
    BybitTicker::parse_bybit_ticker(1_000, 2_000, snap, 7, &"snapshot".to_string(), &mut cache)
        .unwrap();
    let mut delta = empty_delta("BTCUSDT");
    delta.last_price = Some("102".to_string());
    let row =
        BybitTicker::parse_bybit_ticker(3_000, 4_000, delta, 8, &"delta".to_string(), &mut cache)
            .unwrap();
    assert_eq!(row.last_price, dec("102"));
    assert_eq!(row.mark_price, dec("101"), "absent field must keep its value");
    assert_eq!(row.cross_sequence, 8);
    assert_eq!(row.server_timestamp, 3_000);
    let cached = &cache.ticker.iter().find(|(s, _)| s == "BTCUSDT").unwrap().1;
    assert_eq!(cached.last_price, dec("102"));
    assert_eq!(cached.mark_price, dec("101"));
}

#[test]
fn delta_without_snapshot_fails() {
    let mut cache = TickerCache::new();
    let delta = empty_delta("BTCUSDT");
    let r =
        BybitTicker::parse_bybit_ticker(1_000, 2_000, delta, 7, &"delta".to_string(), &mut cache);
    assert_eq!(r.unwrap_err(), FeedError::MissingSnapshot);
}

#[test]
fn unknown_ticker_type_fails() {
    let mut cache = TickerCache::new();
    let snap = empty_delta("BTCUSDT");
    let r =
        BybitTicker::parse_bybit_ticker(1_000, 2_000, snap, 7, &"weird".to_string(), &mut cache);
    assert_eq!(r.unwrap_err(), FeedError::UnknownType);
}

#[test]
fn ticker_type_match_is_case_insensitive() {
    let mut cache = TickerCache::new();
    let snap = empty_delta("BTCUSDT");
    let r = BybitTicker::parse_bybit_ticker(
        1_000,
        2_000,
        snap,
        7,
        &"Snapshot".to_string(),
        &mut cache,
    );
    assert!(r.is_ok());
}

#[test]
fn empty_string_field_is_ignored() {
    let mut cache = TickerCache::new();
    let mut snap = empty_delta("BTCUSDT");
    snap.last_price = Some("100".to_string());
    BybitTicker::parse_bybit_ticker(1_000, 2_000, snap, 7, &"snapshot".to_string(), &mut cache)
        .unwrap();
    let mut delta = empty_delta("BTCUSDT");
    delta.last_price = Some(String::new());
    let row =
        BybitTicker::parse_bybit_ticker(3_000, 4_000, delta, 8, &"delta".to_string(), &mut cache)
            .unwrap();
    assert_eq!(row.last_price, dec("100"));
}

#[test]
fn unparseable_decimal_field_is_ignored() {
    let mut cache = TickerCache::new();
    let mut snap = empty_delta("BTCUSDT");
    snap.funding_rate = Some("0.0001".to_string());
    BybitTicker::parse_bybit_ticker(1_000, 2_000, snap, 7, &"snapshot".to_string(), &mut cache)
        .unwrap();
    let mut delta = empty_delta("BTCUSDT");
    delta.funding_rate = Some("n/a".to_string());
    let row =
        BybitTicker::parse_bybit_ticker(3_000, 4_000, delta, 8, &"delta".to_string(), &mut cache)
            .unwrap();
    assert_eq!(row.funding_rate, dec("0.0001"));
}

#[test]
fn snapshot_zero_initializes_and_merges() {
    let mut cache = TickerCache::new();
    let mut snap = empty_delta("ETHUSDT");
    snap.tick_direction = Some("PlusTick".to_string());
    snap.bid1_price = Some("10.5".to_string());
    let row =
        BybitTicker::parse_bybit_ticker(1_000, 2_000, snap, 9, &"snapshot".to_string(), &mut cache)
            .unwrap();
    assert_eq!(row.tick_direction, "PlusTick");
    assert_eq!(row.bid1_price, dec("10.5"));
    assert_eq!(row.ask1_price, Decimal128::zero());
    assert_eq!(row.delivery_time, None);
    assert_eq!(row.basis_rate, None);
    assert_eq!(row.symbol, "ETHUSDT");
    assert_eq!(row.next_funding_time, 1_000, "defaults to the server timestamp");
}

#[test]
fn next_funding_time_millis_are_widened() {
    let mut cache = TickerCache::new();
    let mut snap = empty_delta("BTCUSDT");
    snap.next_funding_time = Some("1700000000000".to_string());
    let row =
        BybitTicker::parse_bybit_ticker(1_000, 2_000, snap, 7, &"snapshot".to_string(), &mut cache)
            .unwrap();
    assert_eq!(row.next_funding_time, 1_700_000_000_000_000_000i128);
}

#[test]
fn delivery_time_rfc3339_is_parsed() {
    let mut cache = TickerCache::new();
    let mut snap = empty_delta("BTCUSDT");
    snap.delivery_time = Some("2023-11-14T22:13:20Z".to_string());
    let row =
        BybitTicker::parse_bybit_ticker(1_000, 2_000, snap, 7, &"snapshot".to_string(), &mut cache)
            .unwrap();
    assert_eq!(row.delivery_time, Some(1_700_000_000_000_000_000i128));
}

#[test]
fn bad_delivery_time_is_ignored() {
    let mut cache = TickerCache::new();
    let mut snap = empty_delta("BTCUSDT");
    snap.delivery_time = Some("not a date".to_string());
    let row =
        BybitTicker::parse_bybit_ticker(1_000, 2_000, snap, 7, &"snapshot".to_string(), &mut cache)
            .unwrap();
    assert_eq!(row.delivery_time, None);
}

#[test]
fn delivery_fee_rate_parses_as_integer() {
    let mut cache = TickerCache::new();
    let mut snap = empty_delta("BTCUSDT");
    snap.delivery_fee_rate = Some("-25".to_string());
    let row =
        BybitTicker::parse_bybit_ticker(1_000, 2_000, snap, 7, &"snapshot".to_string(), &mut cache)
            .unwrap();
    assert_eq!(row.delivery_fee_rate, Some(-25));
}

#[test]
fn optional_string_field_installs() {
    let mut cache = TickerCache::new();
    let snap = empty_delta("BTCUSDT");
    BybitTicker::parse_bybit_ticker(1_000, 2_000, snap, 7, &"snapshot".to_string(), &mut cache)
        .unwrap();
    let mut delta = empty_delta("BTCUSDT");
    delta.cur_pre_listing_phase = Some("CallAuction".to_string());
    let row =
        BybitTicker::parse_bybit_ticker(3_000, 4_000, delta, 8, &"delta".to_string(), &mut cache)
            .unwrap();
    assert_eq!(row.cur_pre_listing_phase, Some("CallAuction".to_string()));
    let delta2 = empty_delta("BTCUSDT");
    let row2 =
        BybitTicker::parse_bybit_ticker(5_000, 6_000, delta2, 9, &"delta".to_string(), &mut cache)
            .unwrap();
    assert_eq!(row2.cur_pre_listing_phase, Some("CallAuction".to_string()));
}
