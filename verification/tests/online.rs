use huma::config::Config;

fn cfg(latency: bool) -> Config {
    let mut c = Config::test();
    c.online_latency = latency;
    c
}

#[test]
fn up_with_latency() {
    assert_eq!(huma::online::format(Some(23), &cfg(true)), "✓ 23ms");
}
#[test]
fn up_without_latency() {
    assert_eq!(huma::online::format(Some(23), &cfg(false)), "✓");
}
#[test]
fn down() {
    assert_eq!(huma::online::format(None, &cfg(true)), "✗");
}

#[test]
fn zero_latency() {
    assert_eq!(huma::online::format(Some(0), &cfg(true)), "✓ 0ms");
}
