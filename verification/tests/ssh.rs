use huma::config::Config;
use huma::ssh::{
    find_ssh, parse_children, parse_cmdline, parse_ssh_target, pane_pid, target, update, ProcInfo,
    ProcTable,
};

fn argv(s: &str) -> Vec<String> {
    s.split_whitespace().map(String::from).collect()
}

#[test]
fn plain_host() {
    assert_eq!(parse_ssh_target(&argv("ssh grid"), false), Some("grid".into()));
}
#[test]
fn user_at_host_form() {
    assert_eq!(parse_ssh_target(&argv("ssh kenan@grid"), true), Some("kenan@grid".into()));
    assert_eq!(parse_ssh_target(&argv("ssh kenan@grid"), false), Some("grid".into()));
}
#[test]
fn skips_value_options() {
    assert_eq!(
        parse_ssh_target(&argv("ssh -p 2222 -i ~/.ssh/k -o StrictHostKeyChecking=no grid"), false),
        Some("grid".into())
    );
}
#[test]
fn dash_l_user() {
    assert_eq!(parse_ssh_target(&argv("ssh -l deploy grid"), true), Some("deploy@grid".into()));
}
#[test]
fn strips_port_and_path() {
    assert_eq!(parse_ssh_target(&argv("ssh kenan@grid:22"), false), Some("grid".into()));
}
#[test]
fn flags_without_value() {
    assert_eq!(parse_ssh_target(&argv("ssh -4 -t grid htop"), false), Some("grid".into()));
}
#[test]
fn no_dest_is_none() {
    assert_eq!(parse_ssh_target(&argv("ssh -V"), false), None);
}

#[test]
fn scheme_and_path_are_dropped() {
    assert_eq!(parse_ssh_target(&argv("ssh ssh://kenan@grid/x"), true), Some("kenan@grid".into()));
    assert_eq!(parse_ssh_target(&argv("ssh @:22"), true), None);
}

#[test]
fn children_skip_non_numbers() {
    assert_eq!(parse_children("12 x 34\n"), vec![12, 34]);
    assert!(parse_children("").is_empty());
}

#[test]
fn cmdline_split_on_nul() {
    assert_eq!(
        parse_cmdline(b"ssh\0-p\0\x0022\0grid\0"),
        vec!["ssh".to_string(), "-p".to_string(), "22".to_string(), "grid".to_string()]
    );
    assert_eq!(parse_cmdline(b"a\xffb\0"), vec!["a\u{FFFD}b".to_string()]);
}

#[test]
fn pane_pid_is_trimmed_number() {
    assert_eq!(pane_pid(" 4242\n"), Some(4242));
    assert_eq!(pane_pid("nope"), None);
}

fn table() -> ProcTable {
    ProcTable {
        procs: vec![
            ProcInfo::from_proc(1, Some("zsh\n"), Some("2 3"), Some(b"zsh\0")),
            ProcInfo::from_proc(2, Some("vim"), None, Some(b"vim\0")),
            ProcInfo::from_proc(3, Some("bash"), Some("4"), None),
            ProcInfo::from_proc(4, Some("ssh"), None, Some(b"ssh\0-l\0deploy\0grid\0")),
        ],
    }
}

#[test]
fn ssh_found_below_pane() {
    let t = table();
    assert_eq!(find_ssh(&t, 1, 2), Some(argv("ssh -l deploy grid")));
    assert_eq!(find_ssh(&t, 1, 0), None);
    let mut c = Config::test();
    c.ssh_user_at_host = true;
    assert_eq!(target(&t, Some(1), &c), "deploy@grid");
    c.ssh_user_at_host = false;
    assert_eq!(target(&t, Some(1), &c), "grid");
    assert_eq!(target(&t, None, &c), "");
    assert_eq!(target(&t, Some(2), &c), "");
}

#[test]
fn update_publishes_ssh_option() {
    assert_eq!(update("grid").args(), vec!["set-option", "-g", "@huma_ssh", "grid"]);
}
