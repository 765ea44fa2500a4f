//! A modern tmux baseline, applied only where an option still holds tmux's
//! compiled-in default, so anything the user set wins.
use vstd::prelude::*;
use crate::text::strings_view;
use crate::tmux::{Action, ActionView, actions_view, run, set_global_option};

verus! {

/// Where an option lives.
#[derive(Clone, Copy, PartialEq, Eq, Structural)]
pub enum Scope {
    Server,
    Global,
    Window,
}

/// One option: its name, where it lives, tmux's default, the baseline value.
pub struct Tweak {
    pub name: &'static str,
    pub scope: Scope,
    pub default: &'static str,
    pub desired: &'static str,
}

pub open spec fn tweak_view(t: Tweak) -> (Seq<char>, Scope, Seq<char>, Seq<char>) {
    (t.name@, t.scope, t.default@, t.desired@)
}

/// The baseline: `(option, scope, tmux 3.x default, value)`.
pub open spec fn tweaks_spec() -> Seq<(Seq<char>, Scope, Seq<char>, Seq<char>)> {
    seq![
        ("default-terminal"@, Scope::Global, "screen"@, "tmux-256color"@),
        ("escape-time"@, Scope::Server, "500"@, "10"@),
        ("history-limit"@, Scope::Global, "2000"@, "50000"@),
        ("display-time"@, Scope::Global, "750"@, "4000"@),
        ("status-interval"@, Scope::Global, "15"@, "5"@),
        ("focus-events"@, Scope::Global, "off"@, "on"@),
        ("set-clipboard"@, Scope::Global, "external"@, "on"@),
        ("aggressive-resize"@, Scope::Window, "off"@, "on"@),
    ]
}

pub fn tweaks() -> (r: Vec<Tweak>)
    ensures
        r@.map_values(|t: Tweak| tweak_view(t)) == tweaks_spec(),
{
    let r = vec![
        Tweak { name: "default-terminal", scope: Scope::Global, default: "screen", desired: "tmux-256color" },
        Tweak { name: "escape-time", scope: Scope::Server, default: "500", desired: "10" },
        Tweak { name: "history-limit", scope: Scope::Global, default: "2000", desired: "50000" },
        Tweak { name: "display-time", scope: Scope::Global, default: "750", desired: "4000" },
        Tweak { name: "status-interval", scope: Scope::Global, default: "15", desired: "5" },
        Tweak { name: "focus-events", scope: Scope::Global, default: "off", desired: "on" },
        Tweak { name: "set-clipboard", scope: Scope::Global, default: "external", desired: "on" },
        Tweak { name: "aggressive-resize", scope: Scope::Window, default: "off", desired: "on" },
    ];
    assert(r@.map_values(|t: Tweak| tweak_view(t)) =~= tweaks_spec());
    r
}

/// The `show-options` flags that read an option of `scope`.
pub open spec fn show_flags(scope: Scope) -> Seq<char> {
    match scope {
        Scope::Server => "-sqv"@,
        Scope::Global => "-gqv"@,
        Scope::Window => "-gwqv"@,
    }
}

/// The command that gives option `name` of `scope` the value `v`.
pub open spec fn set_view(name: Seq<char>, scope: Scope, v: Seq<char>) -> ActionView {
    match scope {
        Scope::Global => ActionView::SetGlobal(name, v),
        Scope::Server => ActionView::Run(seq!["set-option"@, "-s"@, name, v]),
        Scope::Window => ActionView::Run(seq!["set-option"@, "-gw"@, name, v]),
    }
}

impl Tweak {
    /// The arguments that read the option's current value.
    pub fn show_args(&self) -> (r: Vec<String>)
        ensures
            strings_view(r@) == seq!["show-options"@, show_flags(self.scope), self.name@],
    {
        let flags = match self.scope {
            Scope::Server => "-sqv",
            Scope::Global => "-gqv",
            Scope::Window => "-gwqv",
        };
        let r = vec!["show-options".to_owned(), flags.to_owned(), self.name.to_owned()];
        assert(strings_view(r@) =~= seq!["show-options"@, show_flags(self.scope), self.name@]);
        r
    }

    /// The command that sets the baseline value.
    pub fn set_action(&self) -> (a: Action)
        ensures
            a@ == set_view(self.name@, self.scope, self.desired@),
    {
        match self.scope {
            Scope::Global => set_global_option(self.name, self.desired),
            Scope::Server => {
                let a = run(&["set-option", "-s", self.name, self.desired]);
                assert(seq!["set-option", "-s", self.name, self.desired].map_values(|s: &str| s@)
                    =~= seq!["set-option"@, "-s"@, self.name@, self.desired@]);
                a
            },
            Scope::Window => {
                let a = run(&["set-option", "-gw", self.name, self.desired]);
                assert(seq!["set-option", "-gw", self.name, self.desired].map_values(|s: &str| s@)
                    =~= seq!["set-option"@, "-gw"@, self.name@, self.desired@]);
                a
            },
        }
    }
}

/// The commands for the first `k` tweaks whose current value is tmux's default.
pub open spec fn apply_spec(current: Seq<Seq<char>>, k: nat) -> Seq<ActionView>
    decreases k,
{
    if k == 0 || k > tweaks_spec().len() || k > current.len() {
        Seq::empty()
    } else {
        let i = k - 1;
        let rest = apply_spec(current, (k - 1) as nat);
        let (name, scope, default, desired) = tweaks_spec()[i];
        if current[i] == default {
            rest.push(set_view(name, scope, desired))
        } else {
            rest
        }
    }
}

/// Given each tweak's current value (in `tweaks()` order), the commands that
/// set the baseline for exactly those still at tmux's default.
pub fn apply(current: &[String]) -> (r: Vec<Action>)
    requires
        current.len() == tweaks_spec().len(),
    ensures
        actions_view(r@) == apply_spec(strings_view(current@), tweaks_spec().len()),
{
    let ts = tweaks();
    let mut r: Vec<Action> = Vec::new();
    let mut i: usize = 0;
    while i < ts.len()
        invariant
            ts@.map_values(|t: Tweak| tweak_view(t)) == tweaks_spec(),
            current.len() == tweaks_spec().len(),
            i <= ts.len(),
            actions_view(r@) == apply_spec(strings_view(current@), i as nat),
        decreases ts.len() - i,
    {
        let t = &ts[i];
        assert(tweak_view(*t) == tweaks_spec()[i as int]);
        assert(strings_view(current@)[i as int] == current@[i as int]@);
        if crate::text::chars_eq_str(&crate::text::to_chars(current[i].as_str()), t.default) {
            let ghost before = r@;
            r.push(t.set_action());
            assert(actions_view(r@) =~= actions_view(before).push(
                set_view(t.name@, t.scope, t.desired@),
            ));
        }
        i += 1;
    }
    r
}

/// The command for the `i`-th tweak.
pub open spec fn tweak_action(i: int) -> ActionView {
    let (name, scope, _, desired) = tweaks_spec()[i];
    set_view(name, scope, desired)
}

/// `a` is the command of a tweak whose current value is tmux's default.
pub open spec fn sets_default_tweak(current: Seq<Seq<char>>, a: ActionView) -> bool {
    exists|i: int|
        0 <= i < tweaks_spec().len() && current[i] == tweaks_spec()[i].2 && a == tweak_action(i)
}

/// The tweaks name different options, so their commands differ.
proof fn lemma_tweak_actions_distinct(i: int, j: int)
    requires
        0 <= i < tweaks_spec().len(),
        0 <= j < tweaks_spec().len(),
        tweak_action(i) == tweak_action(j),
    ensures
        i == j,
{
    reveal_strlit("default-terminal");
    reveal_strlit("escape-time");
    reveal_strlit("history-limit");
    reveal_strlit("display-time");
    reveal_strlit("status-interval");
    reveal_strlit("focus-events");
    reveal_strlit("set-clipboard");
    reveal_strlit("aggressive-resize");
    let ni = tweaks_spec()[i].0;
    let nj = tweaks_spec()[j].0;
    match tweak_action(i) {
        ActionView::Run(a) => {
            assert(a[2] == ni);
            assert(ni == nj);
        },
        _ => {
            assert(ni == nj);
        },
    }
    assert(ni.len() == nj.len());
    assert(ni[0] == nj[0]);
}

proof fn lemma_apply_prefix(current: Seq<Seq<char>>, k: nat)
    requires
        current.len() == tweaks_spec().len(),
        k <= tweaks_spec().len(),
    ensures
        forall|i: int|
            0 <= i < tweaks_spec().len() ==> (#[trigger] apply_spec(current, k).contains(
                tweak_action(i),
            ) <==> (i < k && current[i] == tweaks_spec()[i].2)),
        forall|m: int|
            0 <= m < apply_spec(current, k).len() ==> sets_default_tweak(
                current,
                #[trigger] apply_spec(current, k)[m],
            ),
    decreases k,
{
    if k > 0 {
        lemma_apply_prefix(current, (k - 1) as nat);
        let rest0 = apply_spec(current, (k - 1) as nat);
        let l = (k - 1) as int;
        assert forall|m: int| 0 <= m < apply_spec(current, k).len() implies sets_default_tweak(
            current,
            #[trigger] apply_spec(current, k)[m],
        ) by {
            if m < rest0.len() {
                assert(apply_spec(current, k)[m] == rest0[m]);
            } else {
                assert(apply_spec(current, k)[m] == tweak_action(l));
            }
        }
        let rest = apply_spec(current, (k - 1) as nat);
        let last = (k - 1) as int;
        assert forall|i: int| 0 <= i < tweaks_spec().len() implies (#[trigger] apply_spec(
            current,
            k,
        ).contains(tweak_action(i)) <==> (i < k && current[i] == tweaks_spec()[i].2)) by {
            assert(rest.contains(tweak_action(i)) <==> (i < k - 1 && current[i]
                == tweaks_spec()[i].2));
            if current[last] == tweaks_spec()[last].2 {
                assert(apply_spec(current, k) == rest.push(tweak_action(last)));
                if apply_spec(current, k).contains(tweak_action(i)) {
                    let m = choose|m: int|
                        0 <= m < apply_spec(current, k).len() && apply_spec(current, k)[m]
                            == tweak_action(i);
                    if m == rest.len() {
                        lemma_tweak_actions_distinct(i, last);
                    } else {
                        assert(rest[m] == tweak_action(i));
                    }
                }
                if i == last {
                    assert(apply_spec(current, k)[rest.len() as int] == tweak_action(i));
                } else if i < k && current[i] == tweaks_spec()[i].2 {
                    let m = choose|m: int| 0 <= m < rest.len() && rest[m] == tweak_action(i);
                    assert(apply_spec(current, k)[m] == tweak_action(i));
                }
            } else {
                assert(apply_spec(current, k) == rest);
            }
        }
    }
}

/// Only options still at tmux's default are changed: every command sets a
/// tweak whose current value is tmux's default, and tweak `i` gets its
/// command exactly when it is at the default, so a value the user set is
/// never overwritten.
pub proof fn only_defaults_changed(current: Seq<Seq<char>>)
    requires
        current.len() == tweaks_spec().len(),
    ensures
        forall|m: int|
            0 <= m < apply_spec(current, tweaks_spec().len()).len() ==> sets_default_tweak(
                current,
                #[trigger] apply_spec(current, tweaks_spec().len())[m],
            ),
        forall|i: int|
            0 <= i < tweaks_spec().len() ==> (#[trigger] apply_spec(
                current,
                tweaks_spec().len(),
            ).contains(tweak_action(i)) <==> current[i] == tweaks_spec()[i].2),
{
    lemma_apply_prefix(current, tweaks_spec().len());
}

/// The baseline is tmux-256color, an escape time of 10 ms, 50000 lines of
/// history, a display time of 4 s, a status interval of 5 s, focus events,
/// the clipboard and aggressive resize on, each set exactly when the option
/// still holds tmux's default (`screen`, `500`, `2000`, `750`, `15`, `off`,
/// `external`, `off`; the current values in that order), and nothing else.
pub proof fn baseline_values(current: Seq<Seq<char>>)
    requires
        current.len() == tweaks_spec().len(),
    ensures
        tweaks_spec().len() == 8,
        ({
            let r = apply_spec(current, tweaks_spec().len());
            &&& (r.contains(ActionView::SetGlobal("default-terminal"@, "tmux-256color"@)) <==> current[0] == "screen"@)
            &&& (r.contains(ActionView::Run(seq!["set-option"@, "-s"@, "escape-time"@, "10"@])) <==> current[1] == "500"@)
            &&& (r.contains(ActionView::SetGlobal("history-limit"@, "50000"@)) <==> current[2] == "2000"@)
            &&& (r.contains(ActionView::SetGlobal("display-time"@, "4000"@)) <==> current[3] == "750"@)
            &&& (r.contains(ActionView::SetGlobal("status-interval"@, "5"@)) <==> current[4] == "15"@)
            &&& (r.contains(ActionView::SetGlobal("focus-events"@, "on"@)) <==> current[5] == "off"@)
            &&& (r.contains(ActionView::SetGlobal("set-clipboard"@, "on"@)) <==> current[6] == "external"@)
            &&& (r.contains(ActionView::Run(seq!["set-option"@, "-gw"@, "aggressive-resize"@, "on"@])) <==> current[7] == "off"@)
            &&& forall|m: int|
                0 <= m < r.len() ==> r[m] == ActionView::SetGlobal("default-terminal"@, "tmux-256color"@) || r[m] == ActionView::Run(seq!["set-option"@, "-s"@, "escape-time"@, "10"@]) || r[m] == ActionView::SetGlobal("history-limit"@, "50000"@) || r[m] == ActionView::SetGlobal("display-time"@, "4000"@) || r[m] == ActionView::SetGlobal("status-interval"@, "5"@) || r[m] == ActionView::SetGlobal("focus-events"@, "on"@) || r[m] == ActionView::SetGlobal("set-clipboard"@, "on"@) || r[m] == ActionView::Run(seq!["set-option"@, "-gw"@, "aggressive-resize"@, "on"@])
        }),
{
    only_defaults_changed(current);
    assert(tweak_action(0) == ActionView::SetGlobal("default-terminal"@, "tmux-256color"@));
    assert(tweak_action(1) == ActionView::Run(seq!["set-option"@, "-s"@, "escape-time"@, "10"@]));
    assert(tweak_action(2) == ActionView::SetGlobal("history-limit"@, "50000"@));
    assert(tweak_action(3) == ActionView::SetGlobal("display-time"@, "4000"@));
    assert(tweak_action(4) == ActionView::SetGlobal("status-interval"@, "5"@));
    assert(tweak_action(5) == ActionView::SetGlobal("focus-events"@, "on"@));
    assert(tweak_action(6) == ActionView::SetGlobal("set-clipboard"@, "on"@));
    assert(tweak_action(7) == ActionView::Run(seq!["set-option"@, "-gw"@, "aggressive-resize"@, "on"@]));
    let r = apply_spec(current, tweaks_spec().len());
    assert forall|m: int| 0 <= m < r.len() implies r[m] == ActionView::SetGlobal("default-terminal"@, "tmux-256color"@) || r[m] == ActionView::Run(seq!["set-option"@, "-s"@, "escape-time"@, "10"@]) || r[m] == ActionView::SetGlobal("history-limit"@, "50000"@) || r[m] == ActionView::SetGlobal("display-time"@, "4000"@) || r[m] == ActionView::SetGlobal("status-interval"@, "5"@) || r[m] == ActionView::SetGlobal("focus-events"@, "on"@) || r[m] == ActionView::SetGlobal("set-clipboard"@, "on"@) || r[m] == ActionView::Run(seq!["set-option"@, "-gw"@, "aggressive-resize"@, "on"@]) by {
        assert(sets_default_tweak(current, r[m]));
        let i = choose|i: int|
            0 <= i < tweaks_spec().len() && current[i] == tweaks_spec()[i].2 && r[m]
                == tweak_action(i);
        assert(0 <= i < 8);
    }
    assert(tweak_action(0) == ActionView::SetGlobal("default-terminal"@, "tmux-256color"@) && 0 < tweaks_spec().len());
    assert(r.contains(tweak_action(0)) <==> current[0] == tweaks_spec()[0].2);
    assert(r.contains(tweak_action(1)) <==> current[1] == tweaks_spec()[1].2);
    assert(r.contains(tweak_action(2)) <==> current[2] == tweaks_spec()[2].2);
    assert(r.contains(tweak_action(3)) <==> current[3] == tweaks_spec()[3].2);
    assert(r.contains(tweak_action(4)) <==> current[4] == tweaks_spec()[4].2);
    assert(r.contains(tweak_action(5)) <==> current[5] == tweaks_spec()[5].2);
    assert(r.contains(tweak_action(6)) <==> current[6] == tweaks_spec()[6].2);
    assert(r.contains(tweak_action(7)) <==> current[7] == tweaks_spec()[7].2);
}

} // verus!
