use rustler_core::entities::{market, ticker};
use rustler_core::rustlers::Ticker;

fn market_row(short_name: &str, pub_name: Option<&str>) -> market::Model {
    market::Model {
        id: "m1".to_string(),
        short_name: short_name.to_string(),
        full_name: "A market".to_string(),
        pub_name: pub_name.map(|n| n.to_string()),
        opens_from: Some(1),
        opens_till: Some(5),
        open_time: Some("09:30".to_string()),
        close_time: Some("16:00".to_string()),
        pre_market_offset: Some(1),
        post_market_offset: Some(1),
        time_zone_offset: Some(-5),
    }
}

fn ticker_row(symbol: &str, quote_symbol: Option<&str>) -> ticker::Model {
    ticker::Model {
        id: format!("t-{}", symbol),
        symbol: symbol.to_string(),
        quote_symbol: quote_symbol.map(|q| q.to_string()),
        market_id: "m1".to_string(),
    }
}

#[test]
fn key_is_market_colon_symbol() {
    let t = Ticker {
        symbol: "AAPL".to_string(),
        market: "NASDAQ".to_string(),
        quote_asset: None,
    };
    assert_eq!(t.key(), "NASDAQ:AAPL");
    let empty = Ticker { symbol: String::new(), market: String::new(), quote_asset: None };
    assert_eq!(empty.key(), ":");
}

#[test]
fn ticker_carries_the_public_name_of_its_market() {
    let t = Ticker::from(&ticker_row("BTCUSDT", Some("USDT")), &market_row("BNC", Some("BINANCE")));
    assert_eq!(t.symbol, "BTCUSDT");
    assert_eq!(t.market, "BINANCE");
    assert_eq!(t.quote_asset, Some("USDT".to_string()));
    assert_eq!(t.key(), "BINANCE:BTCUSDT");
}

#[test]
fn ticker_carries_the_short_name_without_a_public_one() {
    let t = Ticker::from(&ticker_row("AAPL", None), &market_row("NASDAQ", None));
    assert_eq!(t.market, "NASDAQ");
    assert_eq!(t.quote_asset, None);
}

#[test]
fn many_rows_give_many_tickers_in_order() {
    let rows = vec![ticker_row("A", None), ticker_row("B", Some("USD")), ticker_row("C", None)];
    let tickers = Ticker::many_from(&rows, &market_row("NYSE", Some("New York")));
    let keys: Vec<String> = tickers.iter().map(|t| t.key()).collect();
    assert_eq!(keys, vec!["New York:A", "New York:B", "New York:C"]);
    assert_eq!(tickers[1].quote_asset, Some("USD".to_string()));
    assert!(Ticker::many_from(&[], &market_row("NYSE", None)).is_empty());
}

#[test]
fn tickers_are_the_same_by_symbol_and_market() {
    let a = Ticker {
        symbol: "AAPL".to_string(),
        market: "NASDAQ".to_string(),
        quote_asset: None,
    };
    let b = Ticker {
        symbol: "AAPL".to_string(),
        market: "NASDAQ".to_string(),
        quote_asset: Some("USD".to_string()),
    };
    let c = Ticker {
        symbol: "AAPL".to_string(),
        market: "NYSE".to_string(),
        quote_asset: None,
    };
    let d = Ticker {
        symbol: "MSFT".to_string(),
        market: "NASDAQ".to_string(),
        quote_asset: None,
    };
    assert!(a == b);
    assert!(a != c);
    assert!(a != d);
    assert!(a.clone() == a);
    assert_eq!(b.clone().quote_asset, Some("USD".to_string()));
}
