use algotrade_core::exchange::{
    join_leverage, parse_instruments_response, parse_kline_response, parse_ticker_response,
    parse_ticker_single, parse_wallet_response, ONE_E8,
};
use algotrade_core::models::{BybitError, InstrumentInfo, MarketCategory, TickerInfo};
use algotrade_core::strutil::{parse_decimal_e8, parse_ts};
use algotrade_core::models::parse_category;

#[test]
fn decimal_strings_read_at_fixed_point() {
    assert_eq!(parse_decimal_e8("0"), Some(0));
    assert_eq!(parse_decimal_e8("123.456"), Some(12_345_600_000));
    assert_eq!(parse_decimal_e8("-0.5"), Some(-50_000_000));
    assert_eq!(parse_decimal_e8("42"), Some(4_200_000_000));
    // Digits beyond the eighth are ignored.
    assert_eq!(parse_decimal_e8("1.123456789"), Some(112_345_678));
    assert_eq!(parse_decimal_e8(""), None);
    assert_eq!(parse_decimal_e8("abc"), None);
    assert_eq!(parse_decimal_e8("1.2.3"), None);
    // Too large to carry at scale 10^8.
    assert_eq!(parse_decimal_e8("99999999999999999999"), None);
}

#[test]
fn timestamps_read_as_digits_or_zero() {
    assert_eq!(parse_ts("1700000000000"), 1_700_000_000_000);
    assert_eq!(parse_ts(""), 0);
    assert_eq!(parse_ts("12a"), 0);
}

#[test]
fn category_names_parse_case_insensitively() {
    assert_eq!(parse_category("spot"), MarketCategory::Spot);
    assert_eq!(parse_category("SPOT"), MarketCategory::Spot);
    assert_eq!(parse_category("Inverse"), MarketCategory::Inverse);
    assert_eq!(parse_category("linear"), MarketCategory::Linear);
    assert_eq!(parse_category("anything"), MarketCategory::Linear);
}

#[test]
fn kline_response_rows_become_candles() {
    let body = r#"{"retCode":0,"retMsg":"OK","result":{"list":[
        ["1700000060000","2.5","3","2","2.75","10","100"],
        ["1700000000000","2","2.5","1.5","2.5","9","90"]
    ]}}"#;
    let klines = parse_kline_response(body).unwrap();
    assert_eq!(klines.len(), 2);
    assert_eq!(klines[0].timestamp, 1_700_000_060_000);
    assert_eq!(klines[0].open, 250_000_000);
    assert_eq!(klines[0].close, 275_000_000);
    assert_eq!(klines[1].volume, 900_000_000);
}

#[test]
fn kline_envelope_errors_are_typed() {
    let api = parse_kline_response(r#"{"retCode":10001,"retMsg":"bad request","result":null}"#);
    match api {
        Err(BybitError::ApiError(msg)) => assert_eq!(msg, "bad request"),
        _ => panic!("expected an API error"),
    }
    assert!(matches!(parse_kline_response("not json"), Err(BybitError::ParseError(_))));
    assert!(matches!(
        parse_kline_response(r#"{"retMsg":"x","result":null}"#),
        Err(BybitError::ParseError(_))
    ));
    // A null result is an empty series.
    let empty = parse_kline_response(r#"{"retCode":0,"retMsg":"OK","result":null}"#).unwrap();
    assert!(empty.is_empty());
    // A malformed row is a parse error.
    assert!(matches!(
        parse_kline_response(r#"{"retCode":0,"retMsg":"OK","result":{"list":[["1","2"]]}}"#),
        Err(BybitError::ParseError(_))
    ));
}

#[test]
fn ticker_response_reads_prices() {
    let body = r#"{"retCode":0,"retMsg":"OK","result":{"list":[
        {"symbol":"BTCUSDT","lastPrice":"42000.5","price24hPcnt":"0.012","highPrice24h":"43000",
         "lowPrice24h":"41000","volume24h":"1000","turnover24h":"42000000"}
    ]}}"#;
    let tickers = parse_ticker_response(body, MarketCategory::Linear).unwrap();
    assert_eq!(tickers.len(), 1);
    assert_eq!(tickers[0].symbol, "BTCUSDT");
    assert_eq!(tickers[0].last_price, 4_200_050_000_000);
    assert_eq!(tickers[0].price_24h_pcnt, 1_200_000);
    assert_eq!(tickers[0].category, MarketCategory::Linear);
    assert_eq!(tickers[0].max_leverage, 0);

    let single = parse_ticker_single(body, MarketCategory::Linear).unwrap();
    assert_eq!(single.symbol, "BTCUSDT");

    let none = parse_ticker_single(
        r#"{"retCode":0,"retMsg":"OK","result":{"list":[]}}"#,
        MarketCategory::Linear,
    );
    assert!(matches!(none, Err(BybitError::ParseError(_))));
}

#[test]
fn instruments_read_leverage_with_default() {
    let body = r#"{"retCode":0,"retMsg":"OK","result":{"list":[
        {"symbol":"BTCUSDT","status":"Trading","baseCoin":"BTC","quoteCoin":"USDT",
         "leverageFilter":{"maxLeverage":"100","minLeverage":"1"}},
        {"symbol":"NOLEV","status":"Trading"}
    ]}}"#;
    let instruments = parse_instruments_response(body, MarketCategory::Linear).unwrap();
    assert_eq!(instruments.len(), 2);
    assert_eq!(instruments[0].max_leverage, 100 * ONE_E8);
    assert_eq!(instruments[0].base_coin, "BTC");
    // No leverage filter: the cap defaults to one.
    assert_eq!(instruments[1].max_leverage, ONE_E8);
    assert_eq!(instruments[1].base_coin, "");
}

#[test]
fn present_non_string_optional_field_is_malformed() {
    // The day statistics default to empty when absent, but a present
    // field must be a string.
    let body = r#"{"retCode":0,"retMsg":"OK","result":{"list":[
        {"symbol":"BTCUSDT","lastPrice":"1","volume24h":5}
    ]}}"#;
    assert!(matches!(
        parse_ticker_response(body, MarketCategory::Linear),
        Err(BybitError::ParseError(_))
    ));
}

#[test]
fn null_leverage_filter_defaults_to_one() {
    let body = r#"{"retCode":0,"retMsg":"OK","result":{"list":[
        {"symbol":"X","status":"Trading","leverageFilter":null}
    ]}}"#;
    let v = parse_instruments_response(body, MarketCategory::Linear).unwrap();
    assert_eq!(v[0].max_leverage, ONE_E8);
}

#[test]
fn wallet_totals_are_sums_of_the_coins() {
    let body = r#"{"retCode":0,"retMsg":"OK","result":{"list":[
        {"coin":[
            {"coin":"USDT","equity":"100.5","availableToWithdraw":"90","unrealisedPnl":"1.5"},
            {"coin":"BTC","equity":"0.25","availableToWithdraw":"0.25"}
        ]}
    ]}}"#;
    let wallet = parse_wallet_response(body).unwrap();
    assert_eq!(wallet.coins.len(), 2);
    assert_eq!(wallet.coins[0].equity, 10_050_000_000);
    assert_eq!(wallet.coins[0].unrealized_pnl, 150_000_000);
    assert_eq!(wallet.coins[1].unrealized_pnl, 0);
    assert_eq!(wallet.total_equity, 10_050_000_000 + 25_000_000);
    assert_eq!(wallet.available_balance, 9_000_000_000 + 25_000_000);

    let empty = parse_wallet_response(r#"{"retCode":0,"retMsg":"OK","result":{"list":[]}}"#);
    assert!(matches!(empty, Err(BybitError::ParseError(_))));
}

#[test]
fn leverage_joins_by_symbol_last_instrument_wins() {
    let mut tickers = vec![
        TickerInfo {
            symbol: "BTCUSDT".to_string(),
            last_price: 1,
            price_24h_pcnt: 0,
            high_price_24h: 0,
            low_price_24h: 0,
            volume_24h: 0,
            turnover_24h: 0,
            category: MarketCategory::Linear,
            max_leverage: 0,
        },
        TickerInfo {
            symbol: "XUNKNOWN".to_string(),
            last_price: 2,
            price_24h_pcnt: 0,
            high_price_24h: 0,
            low_price_24h: 0,
            volume_24h: 0,
            turnover_24h: 0,
            category: MarketCategory::Linear,
            max_leverage: 7,
        },
    ];
    let instrument = |symbol: &str, lev: i64| InstrumentInfo {
        symbol: symbol.to_string(),
        base_coin: String::new(),
        quote_coin: String::new(),
        status: "Trading".to_string(),
        category: MarketCategory::Linear,
        max_leverage: lev,
    };
    let instruments = vec![instrument("BTCUSDT", 50 * ONE_E8), instrument("BTCUSDT", 100 * ONE_E8)];
    join_leverage(&mut tickers, &instruments);
    assert_eq!(tickers[0].max_leverage, 100 * ONE_E8);
    assert_eq!(tickers[0].last_price, 1);
    // A symbol no instrument knows keeps its leverage.
    assert_eq!(tickers[1].max_leverage, 7);
}
