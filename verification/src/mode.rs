//! The `@huma_mode` badge: a static tmux format string, re-evaluated by tmux
//! on every status refresh.
use vstd::prelude::*;
use crate::config::Config;
use crate::text::{extend_str, from_chars};

verus! {

/// `#{?<cond>,<icon> ,}`: the icon and a space while the condition holds.
pub open spec fn conditional(cond: Seq<char>, icon: Seq<char>) -> Seq<char> {
    "#{?"@ + cond + ","@ + icon + " ,}"@
}

/// The badge: prefix, copy-mode, synchronized panes, mouse, and the
/// `suspended` key table, each shown with its icon while active.
pub open spec fn mode_text(cfg: Config) -> Seq<char> {
    conditional("client_prefix"@, cfg.mode_prefix@) + conditional(
        "pane_in_mode"@,
        cfg.mode_copy@,
    ) + conditional("pane_synchronized"@, cfg.mode_sync@) + conditional(
        "mouse"@,
        cfg.mode_mouse@,
    ) + conditional("#{==:#{client_key_table},suspended}"@, cfg.mode_suspend@)
}

pub fn build_mode(cfg: &Config) -> (r: String)
    ensures
        r@ == mode_text(*cfg),
{
    let mut out: Vec<char> = Vec::new();
    extend_str(&mut out, "#{?client_prefix,");
    extend_str(&mut out, cfg.mode_prefix.as_str());
    extend_str(&mut out, " ,}#{?pane_in_mode,");
    extend_str(&mut out, cfg.mode_copy.as_str());
    extend_str(&mut out, " ,}#{?pane_synchronized,");
    extend_str(&mut out, cfg.mode_sync.as_str());
    extend_str(&mut out, " ,}#{?mouse,");
    extend_str(&mut out, cfg.mode_mouse.as_str());
    extend_str(&mut out, " ,}#{?#{==:#{client_key_table},suspended},");
    extend_str(&mut out, cfg.mode_suspend.as_str());
    extend_str(&mut out, " ,}");
    proof {
        reveal_strlit("#{?client_prefix,");
        reveal_strlit(" ,}#{?pane_in_mode,");
        reveal_strlit(" ,}#{?pane_synchronized,");
        reveal_strlit(" ,}#{?mouse,");
        reveal_strlit(" ,}#{?#{==:#{client_key_table},suspended},");
        reveal_strlit(" ,}");
        reveal_strlit("#{?");
        reveal_strlit(",");
        reveal_strlit("client_prefix");
        reveal_strlit("pane_in_mode");
        reveal_strlit("pane_synchronized");
        reveal_strlit("mouse");
        reveal_strlit("#{==:#{client_key_table},suspended}");
        assert(out@ =~= mode_text(*cfg));
    }
    from_chars(&out)
}

} // verus!
