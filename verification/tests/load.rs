use huma::config::Config;
use huma::load::{loadavg_field, mem_usage};

fn cfg(mem: bool) -> Config {
    let mut c = Config::test();
    c.load_mem = mem;
    c
}

fn parse_loadavg(s: &str) -> Option<f64> {
    loadavg_field(s)?.parse().ok()
}

fn mem_used_pct(meminfo: &str) -> Option<u32> {
    let (used, total) = mem_usage(meminfo)?;
    Some(((used as f64 / total as f64) * 100.0).round() as u32)
}

#[test]
fn loadavg() {
    assert_eq!(parse_loadavg("0.42 0.10 0.05 1/100 1234"), Some(0.42));
}
#[test]
fn mem() {
    assert_eq!(mem_used_pct("MemTotal: 1000 kB\nMemAvailable: 250 kB\n"), Some(75));
}
#[test]
fn fmt_plain() {
    assert_eq!(huma::load::format("0.42", None, &cfg(false)), "▟ 0.42");
}
#[test]
fn fmt_mem() {
    assert_eq!(huma::load::format("0.42", Some(38), &cfg(true)), "▟ 0.42 · 38%");
}

#[test]
fn meminfo_fields() {
    assert_eq!(mem_usage("MemTotal: 1000 kB\nMemAvailable: 250 kB\n"), Some((750, 1000)));
    assert_eq!(mem_usage("MemTotal:   16000 kB\r\nMemFree: 1 kB\r\nMemAvailable: 4000 kB"), Some((12000, 16000)));
    // available above total never goes below zero
    assert_eq!(mem_usage("MemTotal: 10 kB\nMemAvailable: 20 kB\n"), Some((0, 10)));
    // no total, a zero total, or an unreadable value: nothing
    assert_eq!(mem_usage("MemAvailable: 20 kB\n"), None);
    assert_eq!(mem_usage("MemTotal: 0 kB\n"), None);
    assert_eq!(mem_usage("MemTotal: lots\nMemAvailable: 20 kB\n"), None);
    assert_eq!(mem_usage("MemTotal:\n"), None);
}

#[test]
fn loadavg_first_field() {
    assert_eq!(loadavg_field("  1.50 2.00"), Some("1.50".to_string()));
    assert_eq!(loadavg_field("   "), None);
}
