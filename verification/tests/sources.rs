use ireina::datasources::yfinance::Quote;
use ireina::datasources::{
    BinanceTickerDataSource, CoinbaseTickerDataSource, GoldpriceTickerDataSource,
    KrakenTickerDataSource, TickerData, TickerDataSource, YahooFinanceTickerDataSource,
};
use ireina::decimal::Price;
use ireina::json::{Json, Member, Number};

fn price(text: &str) -> Price {
    Price::parse(text).unwrap()
}

fn text(s: &str) -> Json {
    Json::Text(s.to_string())
}

fn object(members: Vec<(&str, Json)>) -> Json {
    Json::Object(members.into_iter().map(|(k, v)| Member { key: k.to_string(), value: v }).collect())
}

fn number(written: &str, decimal: Option<&str>) -> Json {
    Json::Number(Number { text: written.to_string(), decimal: decimal.map(price) })
}

fn failure(message: &str) -> TickerData {
    TickerData {
        last_price: None,
        prev_price: None,
        insufficient_data: true,
        errors: vec![message.to_string()],
    }
}

fn success(last: Option<&str>, prev: Option<&str>) -> TickerData {
    TickerData {
        last_price: last.map(price),
        prev_price: prev.map(price),
        insufficient_data: false,
        errors: vec![],
    }
}

#[test]
fn binance_asks_for_the_ticker_of_its_pair() {
    let source = BinanceTickerDataSource::new("BTCUSDT".to_string());
    assert_eq!(
        source.url(),
        "https://api-gcp.binance.com/api/v3/ticker/24hr?symbol=BTCUSDT&type=MINI"
    );
    assert_eq!(source.cached(0), None);
}

#[test]
fn binance_reads_the_latest_and_the_opening_price() {
    let source = BinanceTickerDataSource::new("BTCUSDT".to_string());
    let reply = Ok(object(vec![
        ("symbol", text("BTCUSDT")),
        ("openPrice", text("60000.10")),
        ("lastPrice", text("61234.56000000")),
    ]));
    assert_eq!(
        source.run_query(&reply),
        Ok((Some(price("61234.56000000")), Some(price("60000.10"))))
    );
}

#[test]
fn binance_reports_what_the_venue_reports() {
    let source = BinanceTickerDataSource::new("NOPE".to_string());
    let reply = Ok(object(vec![
        ("code", number("-1121", Some("-1121"))),
        ("msg", text("Invalid symbol.")),
        ("lastPrice", text("1")),
        ("openPrice", text("1")),
    ]));
    assert_eq!(source.run_query(&reply), Err("Binance: \"Invalid symbol.\"".to_string()));
    let reply = Ok(object(vec![("msg", object(vec![("why", Json::Bool(false))]))]));
    assert_eq!(source.run_query(&reply), Err("Binance: {\"why\":false}".to_string()));
}

#[test]
fn binance_takes_a_null_report_for_none() {
    let source = BinanceTickerDataSource::new("BTCUSDT".to_string());
    let reply = Ok(object(vec![
        ("msg", Json::Null),
        ("lastPrice", text("2")),
        ("openPrice", text("1")),
    ]));
    assert_eq!(source.run_query(&reply), Ok((Some(price("2")), Some(price("1")))));
}

#[test]
fn binance_fails_on_a_missing_or_unreadable_price() {
    let source = BinanceTickerDataSource::new("BTCUSDT".to_string());
    let missing = "Failed to parse Binance response".to_string();
    assert_eq!(source.run_query(&Ok(object(vec![("lastPrice", text("1"))]))), Err(missing.clone()));
    assert_eq!(source.run_query(&Ok(object(vec![("openPrice", text("1"))]))), Err(missing.clone()));
    assert_eq!(source.run_query(&Ok(Json::Null)), Err(missing.clone()));
    let not_text = Ok(object(vec![
        ("lastPrice", number("1", Some("1"))),
        ("openPrice", text("1")),
    ]));
    assert_eq!(source.run_query(&not_text), Err(missing));
    let unreadable = Ok(object(vec![("lastPrice", text("abc")), ("openPrice", number("1", None))]));
    assert_eq!(source.run_query(&unreadable), Err(Price::parse("abc").unwrap_err()));
    let unreadable = Ok(object(vec![("lastPrice", text("1")), ("openPrice", text(""))]));
    assert_eq!(source.run_query(&unreadable), Err("Invalid decimal: empty".to_string()));
}

#[test]
fn binance_hands_on_a_failed_fetch() {
    let source = BinanceTickerDataSource::new("BTCUSDT".to_string());
    assert_eq!(source.run_query(&Err("timed out".to_string())), Err("timed out".to_string()));
}

#[test]
fn a_source_keeps_a_success_for_the_window() {
    let mut source = BinanceTickerDataSource::new("BTCUSDT".to_string());
    let reply = Ok(object(vec![("lastPrice", text("2")), ("openPrice", text("1"))]));
    let answer = source.get_ticker_data(1_000, &reply);
    assert_eq!(answer, success(Some("2"), Some("1")));
    assert_eq!(source.cached(1_001), Some(answer.clone()));
    assert_eq!(source.cached(4_999_999_999 + 1_000), Some(answer));
    assert_eq!(source.cached(5_000_000_000 + 1_000), None);
}

#[test]
fn a_source_does_not_keep_a_failure() {
    let mut source = CoinbaseTickerDataSource::new("BTC-USD".to_string());
    let answer = source.get_ticker_data(10, &Err("connection reset".to_string()));
    assert_eq!(answer, failure("connection reset"));
    assert_eq!(source.cached(10), None);
    let reply = Ok(object(vec![("last", text("5")), ("open", text("4"))]));
    let kept = source.get_ticker_data(20, &reply);
    let failed = source.get_ticker_data(30, &Ok(object(vec![("message", text("NotFound"))])));
    assert_eq!(failed, failure("Coinbase: \"NotFound\""));
    assert_eq!(source.cached(40), Some(kept));
}

#[test]
fn coinbase_asks_for_the_statistics_of_its_pair() {
    let source = CoinbaseTickerDataSource::new("ETH-USD".to_string());
    assert_eq!(source.url(), "https://api.exchange.coinbase.com/products/ETH-USD/stats");
}

#[test]
fn coinbase_reads_the_latest_and_the_opening_price() {
    let source = CoinbaseTickerDataSource::new("ETH-USD".to_string());
    let reply = Ok(object(vec![
        ("open", text("3000")),
        ("high", text("3200")),
        ("last", text("3100.5")),
    ]));
    assert_eq!(source.run_query(&reply), Ok((Some(price("3100.5")), Some(price("3000")))));
    assert_eq!(
        source.run_query(&Ok(object(vec![("last", text("1"))]))),
        Err("Failed to parse Coinbase response".to_string())
    );
    assert_eq!(
        source.run_query(&Ok(object(vec![("message", text("rate limit")), ("last", text("1"))]))),
        Err("Coinbase: \"rate limit\"".to_string())
    );
}

#[test]
fn kraken_asks_for_the_ticker_of_its_pair() {
    let source = KrakenTickerDataSource::new("XXBTZUSD".to_string());
    assert_eq!(source.url(), "https://api.kraken.com/0/public/Ticker?pair=XXBTZUSD");
}

#[test]
fn kraken_reads_the_latest_price_only() {
    let mut source = KrakenTickerDataSource::new("XXBTZUSD".to_string());
    let reply = Ok(object(vec![
        ("error", Json::Array(vec![])),
        (
            "result",
            object(vec![
                ("XETHZUSD", object(vec![("c", Json::Array(vec![text("1"), text("2")]))])),
                ("XXBTZUSD", object(vec![("c", Json::Array(vec![text("61000.1"), text("0.5")]))])),
            ]),
        ),
    ]));
    assert_eq!(source.run_query(&reply), Ok((Some(price("61000.1")), None)));
    let answer = source.get_ticker_data(0, &reply);
    assert_eq!(answer, success(Some("61000.1"), None));
    assert!(!answer.insufficient_data);
}

#[test]
fn kraken_reports_the_first_error_of_the_venue() {
    let source = KrakenTickerDataSource::new("XXBTZUSD".to_string());
    let reply = Ok(object(vec![(
        "error",
        Json::Array(vec![text("EQuery:Unknown asset pair"), text("second")]),
    )]));
    assert_eq!(
        source.run_query(&reply),
        Err("Kraken: \"EQuery:Unknown asset pair\"".to_string())
    );
}

#[test]
fn kraken_fails_where_its_pair_is_not_in_the_result() {
    let source = KrakenTickerDataSource::new("XXBTZUSD".to_string());
    let missing = Err("Failed to parse Kraken response".to_string());
    let other_pair = Ok(object(vec![(
        "result",
        object(vec![("XETHZUSD", object(vec![("c", Json::Array(vec![text("1")]))]))]),
    )]));
    assert_eq!(source.run_query(&other_pair), missing);
    let empty = Ok(object(vec![(
        "result",
        object(vec![("XXBTZUSD", object(vec![("c", Json::Array(vec![]))]))]),
    )]));
    assert_eq!(source.run_query(&empty), missing);
    assert_eq!(source.run_query(&Ok(Json::Array(vec![]))), missing);
}

#[test]
fn goldprice_asks_for_the_rates_in_its_currency() {
    let source = GoldpriceTickerDataSource::new("XAU".to_string(), "USD".to_string());
    assert_eq!(source.url(), "https://data-asg.goldprice.org/dbXRates/USD");
}

#[test]
fn goldprice_reads_the_numbers_under_the_metal_in_lower_case() {
    let source = GoldpriceTickerDataSource::new("XAU".to_string(), "USD".to_string());
    let reply = Ok(object(vec![(
        "items",
        Json::Array(vec![object(vec![
            ("curr", text("USD")),
            ("xauPrice", number("2345.67", Some("2345.67"))),
            ("xagPrice", number("29.5", Some("29.5"))),
            ("xauClose", number("2300", Some("2300"))),
            ("XAUPrice", number("1", Some("1"))),
        ])]),
    )]));
    assert_eq!(source.run_query(&reply), Ok((Some(price("2345.67")), Some(price("2300")))));
    let silver = GoldpriceTickerDataSource::new("xAg".to_string(), "USD".to_string());
    assert_eq!(
        silver.run_query(&reply),
        Err("Failed to parse Goldprice response".to_string())
    );
}

#[test]
fn goldprice_fails_on_what_is_no_number() {
    let source = GoldpriceTickerDataSource::new("XAU".to_string(), "EUR".to_string());
    let missing = Err("Failed to parse Goldprice response".to_string());
    let as_text = Ok(object(vec![(
        "items",
        Json::Array(vec![object(vec![
            ("xauPrice", text("2345.67")),
            ("xauClose", number("2300", Some("2300"))),
        ])]),
    )]));
    assert_eq!(source.run_query(&as_text), missing);
    let beyond = Ok(object(vec![(
        "items",
        Json::Array(vec![object(vec![
            ("xauPrice", number("1", Some("1"))),
            ("xauClose", number("1e40", None)),
        ])]),
    )]));
    assert_eq!(source.run_query(&beyond), missing);
    assert_eq!(source.run_query(&Ok(object(vec![("items", Json::Array(vec![]))]))), missing);
    assert_eq!(source.run_query(&Err("dns".to_string())), Err("dns".to_string()));
}

fn quote(close: Option<&str>, adjclose: Option<&str>) -> Quote {
    Quote { close: close.map(price), adjclose: adjclose.map(price) }
}

#[test]
fn yahoo_asks_for_five_days_day_by_day() {
    let source = YahooFinanceTickerDataSource::new("^GSPC".to_string());
    let request = source.request();
    assert_eq!(request.ticker, "^GSPC");
    assert_eq!(request.interval, "1d");
    assert_eq!(request.range, "5d");
}

#[test]
fn yahoo_without_a_day_has_no_price_and_does_not_fail() {
    let mut source = YahooFinanceTickerDataSource::new("^GSPC".to_string());
    assert_eq!(source.run_query(&Ok(vec![])), Ok((None, None)));
    let answer = source.get_ticker_data(5, &Ok(vec![]));
    assert_eq!(answer, success(None, None));
    assert!(!answer.insufficient_data);
    assert!(answer.errors.is_empty());
    assert_eq!(source.cached(6), Some(answer));
}

#[test]
fn yahoo_with_one_day_has_a_latest_price_only() {
    let source = YahooFinanceTickerDataSource::new("^GSPC".to_string());
    let reply = Ok(vec![quote(Some("5000.5"), Some("4990"))]);
    assert_eq!(source.run_query(&reply), Ok((Some(price("5000.5")), None)));
    let reply = Ok(vec![quote(Some("5000.5"), None)]);
    assert_eq!(source.run_query(&reply), Ok((Some(price("5000.5")), None)));
}

#[test]
fn yahoo_takes_the_last_close_and_the_adjusted_close_before_it() {
    let source = YahooFinanceTickerDataSource::new("^GSPC".to_string());
    let reply = Ok(vec![quote(Some("1"), Some("2")), quote(Some("3"), Some("4")), quote(Some("5"), Some("6"))]);
    assert_eq!(source.run_query(&reply), Ok((Some(price("5")), Some(price("4")))));
    let reply = Ok(vec![quote(Some("3"), Some("4")), quote(Some("5"), None)]);
    assert_eq!(source.run_query(&reply), Ok((Some(price("5")), Some(price("4")))));
}

#[test]
fn yahoo_gives_the_previous_price_whenever_there_are_two_days() {
    let source = YahooFinanceTickerDataSource::new("GC=F".to_string());
    let reply = Ok(vec![quote(Some("3"), Some("0")), quote(Some("5"), Some("6"))]);
    assert_eq!(source.run_query(&reply), Ok((Some(price("5")), Some(price("0")))));
    let reply = Ok(vec![quote(None, Some("0.00")), quote(Some("5"), Some("6"))]);
    assert_eq!(source.run_query(&reply), Ok((Some(price("5")), Some(price("0.00")))));
}

#[test]
fn yahoo_fails_on_a_fraction_that_stands_for_no_price() {
    let source = YahooFinanceTickerDataSource::new("GC=F".to_string());
    let message = Err("Failed to parse yfi price into decimal".to_string());
    assert_eq!(source.run_query(&Ok(vec![quote(None, Some("1"))])), message);
    let reply = Ok(vec![quote(Some("3"), None), quote(Some("5"), Some("6"))]);
    assert_eq!(source.run_query(&reply), message);
    let reply = Ok(vec![quote(Some("3"), Some("1")), quote(None, Some("6"))]);
    assert_eq!(source.run_query(&reply), message);
    assert_eq!(source.run_query(&Err("no data".to_string())), Err("no data".to_string()));
}
