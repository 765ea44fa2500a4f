use huma::config::Config;
use huma::tmux::Action;
use huma::kripto::{
    cache_text, fetch_url, fmt_price, format_prices, group_thousands, price_text, settle, update,
    value,
};

fn cfg(coins: &[&str]) -> Config {
    let mut c = Config::test();
    c.kripto_coins = coins.iter().map(|s| s.to_string()).collect();
    c
}

/// The price as a number, as the widget reads it.
fn parse_price(json: &str, coin: &str, currency: &str) -> Option<f64> {
    price_text(json, coin, currency).and_then(|t| t.parse().ok())
}

/// The widget as the program formats it: each coin's price rounded.
fn format_widget(json: &str, cfg: &Config) -> String {
    let prices: Vec<Option<u64>> = cfg
        .kripto_coins
        .iter()
        .map(|c| parse_price(json, c, &cfg.kripto_currency).map(|p| p.round() as u64))
        .collect();
    format_prices(cfg, &prices)
}

#[test]
fn thousands() {
    assert_eq!(group_thousands(100), "100");
    assert_eq!(group_thousands(43210), "43,210");
    assert_eq!(group_thousands(1234567), "1,234,567");
}

#[test]
fn thousands_edges() {
    assert_eq!(group_thousands(0), "0");
    assert_eq!(group_thousands(999), "999");
    assert_eq!(group_thousands(1000), "1,000");
    assert_eq!(group_thousands(u64::MAX), "18,446,744,073,709,551,615");
}

#[test]
fn price_simple() {
    let j = r#"{"bitcoin":{"usd":43210.5}}"#;
    assert_eq!(parse_price(j, "bitcoin", "usd"), Some(43210.5));
}

#[test]
fn price_multi_and_missing() {
    let j = r#"{"bitcoin":{"usd":43210},"ethereum":{"usd":2310}}"#;
    assert_eq!(parse_price(j, "ethereum", "usd"), Some(2310.0));
    assert_eq!(parse_price(j, "dogecoin", "usd"), None);
    assert_eq!(parse_price(j, "bitcoin", "eur"), None);
}

#[test]
fn price_text_skips_colon_and_spaces() {
    assert_eq!(price_text(r#"{"x": {"usd" :  12.5 }}"#, "x", "usd"), Some("12.5".to_string()));
    assert_eq!(price_text(r#"{"x":{"usd":null}}"#, "x", "usd"), Some(String::new()));
}

#[test]
fn widget_single() {
    let j = r#"{"bitcoin":{"usd":43210}}"#;
    assert_eq!(format_widget(j, &cfg(&["bitcoin"])), "$43,210");
}

#[test]
fn widget_multi_labels_each() {
    let j = r#"{"bitcoin":{"usd":43210},"ethereum":{"usd":2310}}"#;
    assert_eq!(
        format_widget(j, &cfg(&["bitcoin", "ethereum"])),
        "bitcoin $43,210  ethereum $2,310"
    );
}

#[test]
fn widget_skips_missing_coins() {
    let c = cfg(&["bitcoin", "dogecoin", "ethereum"]);
    assert_eq!(format_prices(&c, &[Some(1), None, Some(2000)]), "bitcoin $1  ethereum $2,000");
    assert_eq!(format_prices(&c, &[None, None, None]), "");
    assert_eq!(fmt_price(43211, "€", "x", false), "€43,211");
}

#[test]
fn widget_empty_when_unconfigured() {
    assert_eq!(value(&cfg(&[]), None, 0), Some(String::new()));
}

#[test]
fn url_lists_coins_and_currency() {
    assert_eq!(
        fetch_url(&cfg(&["bitcoin", "ethereum"])),
        "https://api.coingecko.com/api/v3/simple/price?ids=bitcoin,ethereum&vs_currencies=usd"
    );
}

#[test]
fn fresh_cache_is_used_until_ttl() {
    let c = cfg(&["bitcoin"]);
    let (shown, written) = settle("$43,210", None, 1000);
    assert_eq!(shown, "$43,210");
    let written = written.unwrap();
    assert_eq!(written, cache_text(1000, "$43,210"));
    assert_eq!(written, "1000\n$43,210");
    assert_eq!(value(&c, Some(&written), 1299), Some("$43,210".to_string()));
    assert_eq!(value(&c, Some(&written), 1300), None);
    // a clock that went backwards still counts as fresh
    assert_eq!(value(&c, Some(&written), 10), Some("$43,210".to_string()));
    assert_eq!(value(&c, Some("garbage"), 1000), None);
    assert_eq!(value(&c, None, 1000), None);
}

#[test]
fn failed_fetch_falls_back_to_cache() {
    assert_eq!(settle("", Some("1000\n$1"), 5000), ("$1".to_string(), None));
    assert_eq!(settle("", Some("nothing"), 5000), (String::new(), None));
    assert_eq!(settle("", None, 5000), (String::new(), None));
}

#[test]
fn update_publishes_kripto_option() {
    assert_eq!(update("$1").args(), vec!["set-option", "-g", "@huma_kripto", "$1"]);
    assert!(matches!(update("$1"), Action::SetGlobal { .. }));
}
