use huma::autoreload::{detect_changes, file_name, reload_args, reload_error, reload_message, watched_files, MtimeTable, Watcher};
use huma::config::Config;

fn t(secs: u64) -> u128 {
    secs as u128 * 1_000_000_000
}

fn cur(items: &[(&str, Option<u128>)]) -> Vec<(String, Option<u128>)> {
    items.iter().map(|(p, m)| (p.to_string(), *m)).collect()
}

#[test]
fn new_file_changes_once_then_is_stable() {
    let mut seen = MtimeTable::new();
    let cur = cur(&[("/a.conf", Some(t(100)))]);
    assert_eq!(detect_changes(&mut seen, &cur), vec!["/a.conf".to_string()]);
    // same mtime → no change
    assert!(detect_changes(&mut seen, &cur).is_empty());
}

#[test]
fn changed_mtime_is_detected() {
    let mut seen = MtimeTable::new();
    let _ = detect_changes(&mut seen, &cur(&[("/a.conf", Some(t(100)))]));
    let changed = detect_changes(&mut seen, &cur(&[("/a.conf", Some(t(200)))]));
    assert_eq!(changed, vec!["/a.conf".to_string()]);
}

#[test]
fn missing_mtime_is_ignored() {
    let mut seen = MtimeTable::new();
    assert!(detect_changes(&mut seen, &cur(&[("/gone.conf", None)])).is_empty());
}

#[test]
fn same_path_spelled_differently_is_one_file() {
    let mut seen = MtimeTable::new();
    let _ = detect_changes(&mut seen, &cur(&[("/a/b.conf", Some(t(100)))]));
    assert!(detect_changes(&mut seen, &cur(&[("/a//b.conf/", Some(t(100)))])).is_empty());
    assert!(detect_changes(&mut seen, &cur(&[("/a/./b.conf", Some(t(100)))])).is_empty());
}

#[test]
fn first_tick_primes_then_reloads_on_change() {
    let mut cfg = Config::test();
    cfg.autoreload = true;
    let mut w = Watcher::new();
    assert!(!w.tick(&cfg, &cur(&[("/a.conf", Some(t(1)))])));
    assert!(!w.tick(&cfg, &cur(&[("/a.conf", Some(t(1)))])));
    assert!(w.tick(&cfg, &cur(&[("/a.conf", Some(t(2)))])));
    assert!(!w.tick(&cfg, &cur(&[("/a.conf", Some(t(2)))])));
}

#[test]
fn tick_does_nothing_when_off() {
    let cfg = Config::test();
    let mut w = Watcher::new();
    assert!(!w.tick(&cfg, &cur(&[("/a.conf", Some(t(1)))])));
    assert!(!w.primed);
}

#[test]
fn watched_files_sorted_and_deduplicated() {
    let mut cfg = Config::test();
    cfg.autoreload_configs = vec!["/b.conf".to_string(), "/a.conf".to_string()];
    let files = watched_files(" /c.conf , ,/a.conf", &cfg);
    assert_eq!(files, vec!["/a.conf".to_string(), "/b.conf".to_string(), "/c.conf".to_string()]);
}

#[test]
fn watched_files_order_is_by_component() {
    let cfg = Config::test();
    // Paths compare by components: ["a"] < ["a", "b"] < ["a-b"], although
    // as plain strings "/a-b" < "/a/b".
    let files = watched_files("/a-b,/a/b,/a", &cfg);
    assert_eq!(files, vec!["/a".to_string(), "/a/b".to_string(), "/a-b".to_string()]);
}

#[test]
fn watched_files_keeps_first_spelling() {
    let cfg = Config::test();
    let files = watched_files("/x//y,/x/y", &cfg);
    assert_eq!(files, vec!["/x//y".to_string()]);
}

#[test]
fn reload_command_and_message() {
    let files = vec!["/home/u/.tmux.conf".to_string(), "/etc/tmux.conf".to_string()];
    assert_eq!(
        reload_args(&files),
        vec!["source-file".to_string(), "/home/u/.tmux.conf".to_string(), "/etc/tmux.conf".to_string()]
    );
    assert_eq!(reload_message(&files), "huma: reloaded .tmux.conf, tmux.conf");
}

#[test]
fn file_names_follow_components() {
    assert_eq!(file_name("/a/b.conf"), Some("b.conf".to_string()));
    assert_eq!(file_name("b.conf/."), Some("b.conf".to_string()));
    assert_eq!(file_name("/a/.."), None);
    assert_eq!(file_name("/"), None);
}

#[test]
fn reload_error_notice() {
    assert_eq!(reload_error("spawn tmux"), "huma: reload error: spawn tmux");
}
