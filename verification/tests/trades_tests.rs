use bybit_feed::decimal::Decimal128;
use bybit_feed::errors::FeedError;
use bybit_feed::trades::{BybitTradeData, BybitTrades};

fn trade(side: &str, price: &str, volume: &str, ts: u64) -> BybitTradeData {
    BybitTradeData {
        trade_timestamp: ts,
        symbol: "BTCUSDT".to_string(),
        side: side.to_string(),
        volume: volume.to_string(),
        price: price.to_string(),
        tick_direction: "PlusTick".to_string(),
        trade_id: "t-1".to_string(),
        is_block_trade: false,
        is_rpi: true,
        seq: 42,
    }
}

#[test]
fn normalizes_buy_trade() {
    let rows = BybitTrades::parse_bybit_trade(
        vec![trade("Buy", "50000.5", "0.001", 1_700_000_000_000)],
        1_000,
        2_000,
    )
    .unwrap();
    assert_eq!(rows.len(), 1);
    let r = &rows[0];
    assert_eq!(r.side, "Buy");
    assert_eq!(r.price, Decimal128::from_str("50000.5").unwrap());
    assert_eq!(r.volume, Decimal128::from_str("0.001").unwrap());
    // 2023-11-14T22:13:20Z in nanoseconds.
    assert_eq!(r.trade_timestamp, 1_700_000_000_000_000_000i128);
    assert_eq!(r.exchange, "Bybit");
    assert_eq!(r.server_timestamp, 1_000);
    assert_eq!(r.received_timestamp, 2_000);
    assert_eq!(r.seq, 42);
    assert!(r.is_rpi);
    assert!(!r.is_block_trade);
}

#[test]
fn any_other_side_becomes_sell() {
    for side in ["Sell", "sell", "buy", "weird", ""] {
        let rows =
            BybitTrades::parse_bybit_trade(vec![trade(side, "1", "1", 0)], 0, 0).unwrap();
        assert_eq!(rows[0].side, "Sell", "side {side:?}");
    }
}

#[test]
fn every_row_side_is_buy_or_sell() {
    let rows = BybitTrades::parse_bybit_trade(
        vec![trade("Buy", "1", "1", 0), trade("Meh", "2", "2", 0)],
        0,
        0,
    )
    .unwrap();
    for r in &rows {
        assert!(r.side == "Buy" || r.side == "Sell");
    }
}

#[test]
fn batch_keeps_array_order() {
    let rows = BybitTrades::parse_bybit_trade(
        vec![trade("Buy", "1", "1", 0), trade("Sell", "2", "2", 0), trade("Buy", "3", "3", 0)],
        0,
        0,
    )
    .unwrap();
    let prices: Vec<i128> = rows.iter().map(|r| r.price.units).collect();
    let one = 1_000_000_000_000_000_000i128;
    assert_eq!(prices, vec![one, 2 * one, 3 * one]);
}

#[test]
fn one_bad_trade_aborts_the_batch() {
    let r = BybitTrades::parse_bybit_trade(
        vec![trade("Buy", "1", "1", 0), trade("Sell", "bogus", "2", 0)],
        0,
        0,
    );
    assert!(matches!(r.unwrap_err(), FeedError::DecimalParse(_)));
}
