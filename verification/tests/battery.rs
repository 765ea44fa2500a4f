use huma::battery::{is_battery_name, widget};
use huma::config::Config;

fn cfg() -> Config {
    Config::test()
}

#[test]
fn charging() {
    assert_eq!(huma::battery::format(50, "Charging", &cfg()), "⚡50%");
}
#[test]
fn low() {
    assert_eq!(huma::battery::format(12, "Discharging", &cfg()), "!12%");
}
#[test]
fn normal() {
    assert_eq!(huma::battery::format(80, "Discharging", &cfg()), "80%");
}

#[test]
fn charging_wins_over_low_and_threshold_is_inclusive() {
    assert_eq!(huma::battery::format(5, "Charging", &cfg()), "⚡5%");
    assert_eq!(huma::battery::format(20, "Discharging", &cfg()), "!20%");
    assert_eq!(huma::battery::format(21, "Full", &cfg()), "21%");
}

#[test]
fn widget_from_sysfs_text() {
    assert_eq!(widget(Some("64\n"), Some("Charging\n"), &cfg()), "⚡64%");
    assert_eq!(widget(Some("12\n"), None, &cfg()), "!12%");
    assert_eq!(widget(Some("n/a"), Some("Full"), &cfg()), "");
    assert_eq!(widget(None, Some("Full"), &cfg()), "");
}

#[test]
fn battery_names() {
    assert!(is_battery_name("BAT0"));
    assert!(!is_battery_name("AC"));
}
