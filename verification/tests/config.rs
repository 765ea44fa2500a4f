use huma::config::{opt_bool, opt_or, option_names, Config, OptionValues};

#[test]
fn defaults_when_nothing_set() {
    let c = Config::load(&OptionValues::new());
    assert_eq!(c.interval_secs, 5);
    assert_eq!(c.online_host, "1.1.1.1:443");
    assert_eq!(c.online_timeout_secs, 1);
    assert!(c.online_latency);
    assert_eq!(c.online_up, "✓");
    assert_eq!(c.online_down, "✗");
    assert_eq!(c.battery_low, 20);
    assert!(!c.load_mem);
    assert_eq!(c.load_icon, "▟");
    assert!(!c.ssh_user_at_host);
    assert!(c.kripto_coins.is_empty());
    assert_eq!(c.kripto_currency, "usd");
    assert_eq!(c.kripto_symbol, "$");
    assert_eq!(c.kripto_ttl, 300);
    assert_eq!(c.player_max, 40);
    assert!(!c.autoreload);
    assert!(c.autoreload_configs.is_empty());
}

#[test]
fn options_override_defaults() {
    let mut o = OptionValues::new();
    o.push("@huma-interval".into(), "10".into());
    o.push("@huma-battery-low".into(), "oops".into());
    o.push("@huma-ssh-format".into(), "user@host".into());
    o.push("@huma-kripto-coins".into(), " bitcoin, ,ethereum ".into());
    o.push("@huma-online-latency".into(), "off".into());
    o.push("@huma-load-mem".into(), "yes".into());
    let c = Config::load(&o);
    assert_eq!(c.interval_secs, 10);
    assert_eq!(c.battery_low, 20);
    assert!(c.ssh_user_at_host);
    assert_eq!(c.kripto_coins, vec!["bitcoin".to_string(), "ethereum".to_string()]);
    assert!(!c.online_latency);
    assert!(c.load_mem);
}

#[test]
fn switches() {
    let mut o = OptionValues::new();
    o.push("a".into(), "on".into());
    o.push("b".into(), "1".into());
    o.push("c".into(), "true".into());
    o.push("d".into(), "no".into());
    assert!(opt_bool(&o, "a", false));
    assert!(opt_bool(&o, "b", false));
    assert!(opt_bool(&o, "c", false));
    assert!(!opt_bool(&o, "d", true));
    assert!(opt_bool(&o, "unset", true));
    assert_eq!(opt_or(&o, "d", "x"), "no");
    assert_eq!(opt_or(&o, "unset", "x"), "x");
}

#[test]
fn every_option_is_named() {
    let names = option_names();
    assert_eq!(names.len(), 29);
    assert!(names.iter().all(|n| n.starts_with("@huma-")));
}
