use huma::config::Config;
use huma::icon::{icon, lookup};

fn cfg(shell: &str, editor: &str, default: &str) -> Config {
    let mut c = Config::test();
    c.icon_shell = shell.into();
    c.icon_editor = editor.into();
    c.icon_default = default.into();
    c
}

#[test]
fn shell_override_wins() {
    assert_eq!(icon("zsh", &cfg("S", "", "?")), "S");
    assert_eq!(icon("ZSH", &cfg("S", "", "?")), "S");
}

#[test]
fn editor_override_wins() {
    assert_eq!(icon("nvim", &cfg("", "E", "?")), "E");
}

#[test]
fn empty_override_falls_back_to_builtin() {
    // no override → built-in glyph (non-empty, not the fallback)
    let g = icon("zsh", &cfg("", "", "?"));
    assert!(!g.is_empty() && g != "?");
}

#[test]
fn known_command_uses_map() {
    assert_eq!(icon("git", &cfg("", "", "?")), lookup("git").unwrap());
}

#[test]
fn unknown_uses_default() {
    assert_eq!(icon("definitelynotacommand", &cfg("", "", "?")), "?");
}

#[test]
fn command_is_trimmed_and_lowercased() {
    assert_eq!(icon("  Git \n", &cfg("", "", "?")), lookup("git").unwrap());
    assert_eq!(icon(" VIM", &cfg("", "E", "?")), "E");
}

#[test]
fn upper_case_shell_reaches_override() {
    let mut c = huma::config::Config::test();
    c.icon_shell = "S".into();
    assert_eq!(huma::icon::icon("  ZSH ", &c), "S");
}
