use huma::config::Config;
use huma::mode::build_mode;

fn cfg() -> Config {
    Config::test()
}

#[test]
fn mode_embeds_conditionals_and_icons() {
    let s = build_mode(&cfg());
    assert!(s.contains("#{?client_prefix,P ,}"));
    assert!(s.contains("#{?pane_in_mode,C ,}"));
    assert!(s.contains("#{?pane_synchronized,S ,}"));
    assert!(s.contains("#{?mouse,M ,}"));
    assert!(s.contains("#{?#{==:#{client_key_table},suspended},Z ,}"));
}

#[test]
fn mode_is_exactly_the_five_segments() {
    assert_eq!(
        build_mode(&cfg()),
        "#{?client_prefix,P ,}#{?pane_in_mode,C ,}#{?pane_synchronized,S ,}#{?mouse,M ,}#{?#{==:#{client_key_table},suspended},Z ,}"
    );
}
