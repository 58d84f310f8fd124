use pacifica::decimal::{Decimal, MAX_MANTISSA, MAX_SCALE};
use pacifica::kline::{kline_query, number_text, KlineInterval};
use pacifica::order::{Side, Tif, CREATE_LIMIT_ORDER, CREATE_MARKET_ORDER};
use pacifica::{ApiResponse, API_BASE};

#[test]
fn kline_intervals_as_written() {
    assert_eq!(KlineInterval::I1m.to_string(), "1m");
    assert_eq!(KlineInterval::I3m.to_string(), "3m");
    assert_eq!(KlineInterval::I5m.to_string(), "5m");
    assert_eq!(KlineInterval::I15m.to_string(), "15m");
    assert_eq!(KlineInterval::I30m.to_string(), "30m");
    assert_eq!(KlineInterval::I1h.to_string(), "1h");
    assert_eq!(KlineInterval::I2h.to_string(), "2h");
    assert_eq!(KlineInterval::I4h.to_string(), "4h");
    assert_eq!(KlineInterval::I8h.to_string(), "8h");
    assert_eq!(KlineInterval::I12h.to_string(), "12h");
    assert_eq!(KlineInterval::I1d.to_string(), "1d");
    assert_eq!(KlineInterval::I1d.as_str(), "1d");
}

#[test]
fn sides_and_times_in_force_as_written() {
    assert_eq!(Side::Ask.as_str(), "Ask");
    assert_eq!(Side::Bid.as_str(), "Bid");
    assert_eq!(Tif::Gtc.as_str(), "Gtc");
    assert_eq!(Tif::Ioc.as_str(), "Ioc");
    assert_eq!(Tif::Alo.as_str(), "Alo");
}

#[test]
fn decimal_text() {
    let text = |m: i128, s: u32| Decimal::try_from_i128_with_scale(m, s).unwrap().to_string();
    assert_eq!(text(15, 1), "1.5");
    assert_eq!(text(5, 1), "0.5");
    assert_eq!(text(3141, 3), "3.141");
    assert_eq!(text(0, 0), "0");
    assert_eq!(text(-25, 2), "-0.25");
    assert_eq!(text(100, 2), "1.00");
    assert_eq!(text(7, 0), "7");
    assert_eq!(text(MAX_MANTISSA, 0), "79228162514264337593543950335");
    assert_eq!(text(1, MAX_SCALE), "0.0000000000000000000000000001");
}

#[test]
fn decimal_parts() {
    let d = Decimal::try_from_i128_with_scale(-42, 3).unwrap();
    assert_eq!(d.mantissa(), -42);
    assert_eq!(d.scale(), 3);
}

#[test]
fn decimal_out_of_range_is_refused() {
    assert!(Decimal::try_from_i128_with_scale(1, MAX_SCALE + 1).is_none());
    assert!(Decimal::try_from_i128_with_scale(MAX_MANTISSA + 1, 0).is_none());
    assert!(Decimal::try_from_i128_with_scale(-MAX_MANTISSA - 1, 0).is_none());
    assert!(Decimal::try_from_i128_with_scale(-MAX_MANTISSA, MAX_SCALE).is_some());
    assert_eq!(MAX_SCALE, 28);
}

#[test]
fn paths() {
    assert_eq!(API_BASE, "https://api.pacifica.fi/api/v1");
    assert_eq!(CREATE_MARKET_ORDER, "orders/create_market");
    assert_eq!(CREATE_LIMIT_ORDER, "orders/create");
    assert_eq!(pacifica::api::LIST_API_KEYS, "account/api_keys");
    assert_eq!(pacifica::kline::GET_KLINE_DATA, "kline");
}

#[test]
fn response_envelope() {
    let r = ApiResponse { success: true, data: 5u8, error: None, code: Some("x".to_string()) };
    assert!(r.success);
    assert_eq!(r.data, 5);
    assert_eq!(r.error, None);
    assert_eq!(r.code.as_deref(), Some("x"));
}

#[test]
fn order_book_sides() {
    let level = |price: i128, orders: u64| pacifica::orderbook::OrderBookLevel {
        price: Decimal::try_from_i128_with_scale(price, 0).unwrap(),
        amount: Decimal::try_from_i128_with_scale(1, 0).unwrap(),
        orders,
    };
    let book = pacifica::orderbook::OrderBook::new(
        "BTC".to_string(),
        vec![level(99, 1), level(98, 2)],
        vec![level(101, 3)],
        7,
    );
    assert_eq!(book.bids().len(), 2);
    assert_eq!(book.bids()[0].orders, 1);
    assert_eq!(book.bids()[1].price.mantissa(), 98);
    assert_eq!(book.asks().len(), 1);
    assert_eq!(book.asks()[0].orders, 3);
    assert_eq!(book.symbol, "BTC");
    assert_eq!(book.timestamp, 7);
    assert_eq!(pacifica::orderbook::GET_ORDERBOOK, "book");
}

#[test]
fn numbers_in_decimal_digits() {
    assert_eq!(number_text(0), "0");
    assert_eq!(number_text(7), "7");
    assert_eq!(number_text(10), "10");
    assert_eq!(number_text(1_700_000_000_000), "1700000000000");
    assert_eq!(number_text(u128::MAX), u128::MAX.to_string());
}

#[test]
fn kline_query_without_end() {
    let pairs = kline_query("BTC", KlineInterval::I15m, 1_700_000_000_000, None);
    let expected = vec![
        ("symbol".to_string(), "BTC".to_string()),
        ("interval".to_string(), "15m".to_string()),
        ("start_time".to_string(), "1700000000000".to_string()),
    ];
    assert_eq!(pairs, expected);
}

#[test]
fn kline_query_with_end() {
    let pairs = kline_query("ETH", KlineInterval::I1d, 0, Some(86_400_000));
    let expected = vec![
        ("symbol".to_string(), "ETH".to_string()),
        ("interval".to_string(), "1d".to_string()),
        ("start_time".to_string(), "0".to_string()),
        ("end_time".to_string(), "86400000".to_string()),
    ];
    assert_eq!(pairs, expected);
}

#[test]
fn decimal_at_both_limits() {
    let d = Decimal::try_from_i128_with_scale(-MAX_MANTISSA, MAX_SCALE).unwrap();
    assert_eq!(d.to_string(), "-7.9228162514264337593543950335");
}
