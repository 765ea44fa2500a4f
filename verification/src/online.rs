//! Connectivity display.
use vstd::prelude::*;
use crate::config::Config;
use crate::text::{dec, dec_chars, extend_chars, extend_str, from_chars, to_chars};

verus! {

/// Up: the up icon, plus ` <ms>ms` when latency display is on. Down: the
/// down icon.
pub open spec fn online_text(latency: Option<u32>, cfg: Config) -> Seq<char> {
    match latency {
        Some(ms) => if cfg.online_latency {
            cfg.online_up@ + " "@ + dec(ms as nat) + "ms"@
        } else {
            cfg.online_up@
        },
        None => cfg.online_down@,
    }
}

/// Render a probe result: the latency in ms when the host answered.
pub fn format(latency: Option<u32>, cfg: &Config) -> (r: String)
    ensures
        r@ == online_text(latency, *cfg),
{
    match latency {
        Some(ms) => {
            if cfg.online_latency {
                let mut out = to_chars(cfg.online_up.as_str());
                extend_str(&mut out, " ");
                extend_chars(&mut out, &dec_chars(ms as u64));
                extend_str(&mut out, "ms");
                from_chars(&out)
            } else {
                cfg.online_up.clone()
            }
        },
        None => cfg.online_down.clone(),
    }
}

} // verus!
