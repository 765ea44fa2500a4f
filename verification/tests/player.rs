use huma::config::Config;
use huma::player::{choose_player, clean, format_player, parse_players, reply, truncate, update, value};
use huma::tmux::Action;

fn cfg(max: usize, preferred: &str) -> Config {
    let mut c = Config::test();
    c.player_max = max;
    c.player_name = preferred.into();
    c
}

fn s(pairs: &[(&str, &str)]) -> Vec<(String, String)> {
    pairs
        .iter()
        .map(|(a, b)| (a.to_string(), b.to_string()))
        .collect()
}

#[test]
fn prefers_playing_over_first() {
    let st = s(&[("chromium.x", "Stopped"), ("spotify", "Playing")]);
    assert_eq!(choose_player(&st, "").unwrap().0, "spotify");
}

#[test]
fn falls_back_to_paused() {
    let st = s(&[("chromium.x", "Stopped"), ("mpv", "Paused")]);
    assert_eq!(choose_player(&st, "").unwrap().0, "mpv");
}

#[test]
fn none_when_all_stopped() {
    let st = s(&[("a", "Stopped"), ("b", "Stopped")]);
    assert!(choose_player(&st, "").is_none());
}

#[test]
fn preferred_wins_by_prefix() {
    let st = s(&[("spotify.instance7", "Paused"), ("mpv", "Playing")]);
    assert_eq!(choose_player(&st, "spotify").unwrap().0, "spotify.instance7");
}

#[test]
fn preferred_missing_falls_back_to_playing() {
    let st = s(&[("mpv", "Paused"), ("vlc", "Playing")]);
    assert_eq!(choose_player(&st, "spotify").unwrap().0, "vlc");
}

#[test]
fn clean_strips_dangling_dash() {
    assert_eq!(clean("- Rabarba 1597"), "Rabarba 1597");
    assert_eq!(clean("Daft Punk - Aerodynamic"), "Daft Punk - Aerodynamic");
    assert_eq!(clean("Title -"), "Title");
}

#[test]
fn format_and_truncate() {
    assert_eq!(format_player("Playing", "x - y", &cfg(40, "")), "▶ x - y");
    assert_eq!(format_player("Stopped", "x", &cfg(40, "")), "");
    assert_eq!(format_player("Playing", "abcdefghij", &cfg(5, "")), "▶ abcd…");
    assert_eq!(format_player("Playing", "", &cfg(40, "")), "▶");
}

#[test]
fn paused_uses_paused_icon() {
    let c = cfg(40, "");
    let r = format_player("Paused", "song", &c);
    assert_eq!(r, format!("{} song", c.player_paused));
}

#[test]
fn truncate_keeps_short_text() {
    let t: Vec<char> = "abc".chars().collect();
    assert_eq!(truncate(&t, 5), t);
    let u: Vec<char> = "abcdef".chars().collect();
    let r: String = truncate(&u, 3).into_iter().collect();
    assert_eq!(r, "ab…");
    assert_eq!(truncate(&u, 0), u);
}

#[test]
fn players_listed_one_per_line() {
    assert_eq!(parse_players("spotify\n  mpv \n\n"), vec!["spotify".to_string(), "mpv".to_string()]);
    assert!(parse_players("").is_empty());
}

#[test]
fn reply_trims_or_none() {
    assert_eq!(reply(b"  Playing\n"), Some("Playing".to_string()));
    assert_eq!(reply(b"  \n"), None);
    assert_eq!(reply(b"caf\xc3\xa9 \xff"), Some("caf\u{e9} \u{FFFD}".to_string()));
}

#[test]
fn value_of_chosen_player() {
    let c = cfg(40, "");
    let st = s(&[("mpv", "Playing")]);
    assert_eq!(value(choose_player(&st, ""), Some("- Intro -"), &c), "▶ Intro");
    assert_eq!(value(choose_player(&st, ""), None, &c), "▶");
    assert_eq!(value(None, Some("x"), &c), "");
}

#[test]
fn update_publishes_player_option() {
    match update("▶ x") {
        Action::SetGlobal { name, value } => {
            assert_eq!(name, "@huma_player");
            assert_eq!(value, "▶ x");
        }
        other => panic!("unexpected {:?}", other),
    }
}

#[test]
fn idle_preferred_player_shows_nothing() {
    let c = cfg(40, "spotify");
    let st = s(&[("spotify", "Stopped"), ("mpv", "Stopped")]);
    let chosen = choose_player(&st, "spotify");
    assert_eq!(chosen.unwrap().0, "spotify");
    assert_eq!(value(chosen, Some("a - b"), &c), "");
}
