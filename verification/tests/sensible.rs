use huma::sensible::{apply, tweaks, Scope};

#[test]
fn only_defaults_are_changed() {
    let ts = tweaks();
    let mut current: Vec<String> = ts.iter().map(|t| t.default.to_string()).collect();
    current[2] = "100000".into();
    let acts = apply(&current);
    assert_eq!(acts.len(), ts.len() - 1);
    assert_eq!(acts[0].args(), vec!["set-option", "-g", "default-terminal", "tmux-256color"]);
    assert_eq!(acts[1].args(), vec!["set-option", "-s", "escape-time", "10"]);
    assert_eq!(acts[2].args(), vec!["set-option", "-g", "display-time", "4000"]);
    assert_eq!(acts[6].args(), vec!["set-option", "-gw", "aggressive-resize", "on"]);
}

#[test]
fn user_values_are_kept() {
    let current: Vec<String> = tweaks().iter().map(|t| t.desired.to_string()).collect();
    assert!(apply(&current).is_empty());
}

#[test]
fn show_args_by_scope() {
    let ts = tweaks();
    assert!(ts[1].scope == Scope::Server);
    assert_eq!(ts[1].show_args(), vec!["show-options", "-sqv", "escape-time"]);
    assert_eq!(ts[0].show_args(), vec!["show-options", "-gqv", "default-terminal"]);
    assert_eq!(ts[7].show_args(), vec!["show-options", "-gwqv", "aggressive-resize"]);
}
