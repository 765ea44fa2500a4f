//! `suspend` / `resume`: a pass-through toggle.
//!
//! Suspending saves the active prefix, disables it and switches the key table
//! to `suspended`, so every key except the resume key reaches the program in
//! the pane. Resuming puts the saved prefix back (or the default when none was
//! saved) and returns the key table to its default.
use vstd::prelude::*;
use crate::tmux::{
    Action, ActionView, Options, actions_view, apply, apply_all, run, set_global_option, shown,
    unset_global_option,
};

verus! {

/// Where the prefix is kept while suspended.
pub open spec fn saved_prefix_name() -> Seq<char> {
    "@huma_suspend_prefix"@
}

pub open spec fn if_shell(cond: Seq<char>, cmd: Seq<char>) -> ActionView {
    ActionView::Run(seq!["if-shell"@, "-F"@, cond, cmd])
}

pub open spec fn refresh() -> ActionView {
    ActionView::Run(seq!["refresh-client"@, "-S"@])
}

/// The commands of `suspend`, given the prefix that is active.
pub open spec fn suspend_spec(prefix: Seq<char>) -> Seq<ActionView> {
    seq![
        ActionView::SetGlobal(saved_prefix_name(), prefix),
        ActionView::SetGlobal("prefix"@, "none"@),
        ActionView::SetGlobal("key-table"@, "suspended"@),
        if_shell("#{pane_in_mode}"@, "send-keys -X cancel"@),
        if_shell("#{pane_synchronized}"@, "set -w synchronize-panes off"@),
        refresh(),
    ]
}

/// The commands of `resume`, given the prefix that `suspend` saved.
pub open spec fn resume_spec(saved: Seq<char>) -> Seq<ActionView> {
    seq![
        if saved.len() == 0 {
            ActionView::UnsetGlobal("prefix"@)
        } else {
            ActionView::SetGlobal("prefix"@, saved)
        },
        ActionView::UnsetGlobal("key-table"@),
        refresh(),
    ]
}

/// Suspend: remember `prefix` (the active prefix), disable it, switch to the
/// `suspended` key table, leave copy-mode and synchronized input, and redraw
/// the status line so the mode badge shows at once.
pub fn suspend(prefix: &str) -> (r: Vec<Action>)
    ensures
        actions_view(r@) == suspend_spec(prefix@),
{
    let r = vec![
        set_global_option("@huma_suspend_prefix", prefix),
        set_global_option("prefix", "none"),
        set_global_option("key-table", "suspended"),
        run(&["if-shell", "-F", "#{pane_in_mode}", "send-keys -X cancel"]),
        run(&["if-shell", "-F", "#{pane_synchronized}", "set -w synchronize-panes off"]),
        run(&["refresh-client", "-S"]),
    ];
    proof {
        assert(actions_view(r@)[3] == if_shell("#{pane_in_mode}"@, "send-keys -X cancel"@)) by {
            assert(seq!["if-shell", "-F", "#{pane_in_mode}", "send-keys -X cancel"].map_values(
                |s: &str| s@,
            ) =~= seq!["if-shell"@, "-F"@, "#{pane_in_mode}"@, "send-keys -X cancel"@]);
        }
        assert(actions_view(r@)[4] == if_shell(
            "#{pane_synchronized}"@,
            "set -w synchronize-panes off"@,
        )) by {
            assert(seq![
                "if-shell",
                "-F",
                "#{pane_synchronized}",
                "set -w synchronize-panes off",
            ].map_values(|s: &str| s@) =~= seq![
                "if-shell"@,
                "-F"@,
                "#{pane_synchronized}"@,
                "set -w synchronize-panes off"@,
            ]);
        }
        assert(actions_view(r@)[5] == refresh()) by {
            assert(seq!["refresh-client", "-S"].map_values(|s: &str| s@) =~= seq![
                "refresh-client"@,
                "-S"@,
            ]);
        }
        assert(actions_view(r@) =~= suspend_spec(prefix@));
    }
    r
}

/// Resume: restore the prefix `saved` by `suspend` (the default when it is
/// empty), return the key table to its default, and redraw the status line.
pub fn resume(saved: &str) -> (r: Vec<Action>)
    ensures
        actions_view(r@) == resume_spec(saved@),
{
    let first = if saved.is_empty() {
        unset_global_option("prefix")
    } else {
        set_global_option("prefix", saved)
    };
    let r = vec![first, unset_global_option("key-table"), run(&["refresh-client", "-S"])];
    proof {
        assert(actions_view(r@)[2] == refresh()) by {
            assert(seq!["refresh-client", "-S"].map_values(|s: &str| s@) =~= seq![
                "refresh-client"@,
                "-S"@,
            ]);
        }
        assert(actions_view(r@) =~= resume_spec(saved@));
    }
    r
}

/// Suspend then resume gives the prefix back: whatever the global options
/// were, suspending disables the prefix and selects the `suspended` key
/// table; resuming with what suspend saved restores the prefix that was
/// active (or its default, if it was at the default) and resets the key table.
pub proof fn suspend_then_resume(o: Options)
    ensures
        ({
            let p = shown(o, "prefix"@);
            let s1 = apply_all(o, suspend_spec(p));
            let s2 = apply_all(s1, resume_spec(shown(s1, saved_prefix_name())));
            &&& shown(s1, "prefix"@) == "none"@
            &&& shown(s1, "key-table"@) == "suspended"@
            &&& shown(s2, "prefix"@) == p
            &&& !s2.contains_key("key-table"@)
            &&& (o.contains_key("prefix"@) && p.len() > 0) ==> s2["prefix"@] == o["prefix"@]
        }),
{
    reveal_strlit("prefix");
    reveal_strlit("key-table");
    reveal_strlit("@huma_suspend_prefix");
    assert(saved_prefix_name().len() == 20);
    assert("prefix"@.len() == 6);
    assert("key-table"@.len() == 9);
    assert(saved_prefix_name() != "prefix"@);
    assert(saved_prefix_name() != "key-table"@);
    assert("prefix"@ != "key-table"@);
    let p = shown(o, "prefix"@);
    let sp = suspend_spec(p);
    lemma_apply_all_step(o, sp, 0);
    lemma_apply_all_step(o, sp, 1);
    lemma_apply_all_step(o, sp, 2);
    lemma_apply_all_step(o, sp, 3);
    lemma_apply_all_step(o, sp, 4);
    lemma_apply_all_step(o, sp, 5);
    assert(sp.take(0) =~= Seq::<ActionView>::empty());
    assert(sp.take(6) =~= sp);
    let s1 = apply_all(o, sp);
    assert(s1 == o.insert(saved_prefix_name(), p).insert("prefix"@, "none"@).insert(
        "key-table"@,
        "suspended"@,
    ));
    assert(shown(s1, saved_prefix_name()) == p);
    let rs = resume_spec(p);
    lemma_apply_all_step(s1, rs, 0);
    lemma_apply_all_step(s1, rs, 1);
    lemma_apply_all_step(s1, rs, 2);
    assert(rs.take(0) =~= Seq::<ActionView>::empty());
    assert(rs.take(3) =~= rs);
    let s2 = apply_all(s1, rs);
    if p.len() == 0 {
        assert(s2 == s1.remove("prefix"@).remove("key-table"@));
    } else {
        assert(s2 == s1.insert("prefix"@, p).remove("key-table"@));
    }
}

proof fn lemma_apply_all_step(o: Options, s: Seq<ActionView>, k: int)
    requires
        0 <= k < s.len(),
    ensures
        apply_all(o, s.take(k + 1)) == apply(apply_all(o, s.take(k)), s[k]),
{
    assert(s.take(k + 1).drop_last() =~= s.take(k));
}

} // verus!
