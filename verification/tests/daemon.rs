use std::collections::HashMap;

use huma::config::Config;
use huma::daemon::{
    interval, lock_pid, once, step, DaemonAction, DaemonError, DaemonEvent, DaemonState, Interval,
    Widgets,
};
use huma::tmux::Action;

fn widgets() -> Widgets {
    Widgets {
        online: "✓ 23ms".into(),
        battery: "80%".into(),
        load: "▟ 0.42".into(),
        ssh: "grid".into(),
    }
}

#[test]
fn once_sets_widget_options() {
    let acts = once(true, &widgets()).unwrap();
    let mut opts: HashMap<String, String> = HashMap::new();
    for a in &acts {
        if let Action::SetGlobal { name, value } = a {
            opts.insert(name.clone(), value.clone());
        }
    }
    assert!(opts["@huma_load"].starts_with('▟'), "load='{}'", opts["@huma_load"]);
    assert!(!opts["@huma_online"].is_empty());
    assert_eq!(opts["@huma_battery"], "80%");
    assert_eq!(opts["@huma_ssh"], "grid");
}

#[test]
fn once_without_server_fails() {
    assert_eq!(once(false, &widgets()).unwrap_err(), DaemonError::NoServer);
    assert_eq!(DaemonError::NoServer.message(), "no tmux server running");
}

#[test]
fn interval_override_from_env() {
    let c = Config::test();
    assert_eq!(interval(Some("100"), &c), Interval::Millis(100));
    assert_eq!(interval(Some("soon"), &c), Interval::Secs(5));
    assert_eq!(interval(None, &c), Interval::Secs(5));
}

#[test]
fn lock_file_pid() {
    assert_eq!(lock_pid("1234\n"), Some(1234));
    assert_eq!(lock_pid(""), None);
    assert_eq!(lock_pid("x"), None);
}

#[test]
fn daemon_updates_then_exits_when_server_gone() {
    let (s, a) = step(DaemonState::Starting, DaemonEvent::LockRead { holder_alive: false });
    assert_eq!((s, a), (DaemonState::Running, DaemonAction::Claim));
    let (s, a) = step(s, DaemonEvent::Woke { server_running: true });
    assert_eq!((s, a), (DaemonState::Running, DaemonAction::Cycle));
    let (s, a) = step(s, DaemonEvent::Woke { server_running: false });
    assert_eq!((s, a), (DaemonState::Stopped, DaemonAction::Release));
    let (s, a) = step(s, DaemonEvent::Woke { server_running: true });
    assert_eq!((s, a), (DaemonState::Stopped, DaemonAction::Exit));
}

#[test]
fn second_daemon_leaves_lock_alone() {
    assert_eq!(
        step(DaemonState::Starting, DaemonEvent::LockRead { holder_alive: true }),
        (DaemonState::Stopped, DaemonAction::Exit)
    );
}

#[test]
fn whole_run_claims_cycles_then_releases() {
    let mut s = DaemonState::Starting;
    let mut acts = Vec::new();
    let mut events = vec![DaemonEvent::LockRead { holder_alive: false }];
    events.extend(std::iter::repeat(DaemonEvent::Woke { server_running: true }).take(3));
    events.push(DaemonEvent::Woke { server_running: false });
    for e in events {
        let (n, a) = step(s, e);
        s = n;
        acts.push(a);
    }
    assert_eq!(
        acts,
        vec![
            DaemonAction::Claim,
            DaemonAction::Cycle,
            DaemonAction::Cycle,
            DaemonAction::Cycle,
            DaemonAction::Release
        ]
    );
    assert_eq!(s, DaemonState::Stopped);
}
