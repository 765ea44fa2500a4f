use std::collections::HashMap;

use huma::suspend::{resume, suspend};
use huma::tmux::Action;

/// Play the commands against a table of global options, as tmux would.
fn play(opts: &mut HashMap<String, String>, acts: &[Action]) {
    for a in acts {
        match a {
            Action::SetGlobal { name, value } => {
                opts.insert(name.clone(), value.clone());
            }
            Action::UnsetGlobal { name } => {
                opts.remove(name);
            }
            Action::Run { .. } => {}
        }
    }
}

fn shown(opts: &HashMap<String, String>, name: &str) -> String {
    opts.get(name).cloned().unwrap_or_default()
}

#[test]
fn suspend_then_resume_toggles_prefix_and_keytable() {
    let mut opts: HashMap<String, String> = HashMap::new();
    opts.insert("prefix".into(), "C-a".into());
    let before = shown(&opts, "prefix");

    let acts = suspend(&shown(&opts, "prefix"));
    play(&mut opts, &acts);
    assert!(shown(&opts, "prefix").eq_ignore_ascii_case("none"));
    assert_eq!(shown(&opts, "key-table"), "suspended");

    let acts = resume(&shown(&opts, "@huma_suspend_prefix"));
    play(&mut opts, &acts);
    assert_eq!(shown(&opts, "prefix"), before);
    assert_ne!(shown(&opts, "key-table"), "suspended");
}

#[test]
fn resume_without_saved_prefix_unsets_it() {
    let acts = resume("");
    assert_eq!(acts[0].args(), vec!["set-option", "-gu", "prefix"]);
    assert_eq!(acts[1].args(), vec!["set-option", "-gu", "key-table"]);
    assert_eq!(acts[2].args(), vec!["refresh-client", "-S"]);
}

#[test]
fn suspend_commands_in_order() {
    let acts = suspend("C-b");
    let args: Vec<Vec<String>> = acts.iter().map(|a| a.args()).collect();
    assert_eq!(args.len(), 6);
    assert_eq!(args[0], vec!["set-option", "-g", "@huma_suspend_prefix", "C-b"]);
    assert_eq!(args[1], vec!["set-option", "-g", "prefix", "none"]);
    assert_eq!(args[2], vec!["set-option", "-g", "key-table", "suspended"]);
    assert_eq!(args[3], vec!["if-shell", "-F", "#{pane_in_mode}", "send-keys -X cancel"]);
    assert_eq!(
        args[4],
        vec!["if-shell", "-F", "#{pane_synchronized}", "set -w synchronize-panes off"]
    );
    assert_eq!(args[5], vec!["refresh-client", "-S"]);
}
