//! Battery status (`/sys/class/power_supply/BAT*`).
use vstd::prelude::*;
use crate::config::Config;
use crate::text::{
    chars_eq_str, dec, dec_chars, extend_chars, extend_str, from_chars, is_prefix,
    parse_u32, parse_u32_chars, starts_with, to_chars, trim, trim_chars,
};

verus! {

/// `<mark><capacity>%`: the mark is `⚡` while charging, otherwise `!` at or
/// below the low threshold, otherwise nothing.
pub open spec fn battery_text(capacity: u32, status: Seq<char>, low: u32) -> Seq<char> {
    let mark = if status == "Charging"@ {
        "\u{26a1}"@
    } else if capacity <= low {
        "!"@
    } else {
        Seq::empty()
    };
    mark + dec(capacity as nat) + "%"@
}

pub fn format(capacity: u32, status: &str, cfg: &Config) -> (r: String)
    ensures
        r@ == battery_text(capacity, status@, cfg.battery_low),
{
    let st = to_chars(status);
    let mut out: Vec<char> = Vec::new();
    if chars_eq_str(&st, "Charging") {
        extend_str(&mut out, "\u{26a1}");
    } else if capacity <= cfg.battery_low {
        extend_str(&mut out, "!");
    }
    extend_chars(&mut out, &dec_chars(capacity as u64));
    extend_str(&mut out, "%");
    assert(out@ =~= battery_text(capacity, status@, cfg.battery_low));
    from_chars(&out)
}

/// A power supply whose name starts with `BAT` is a battery.
pub fn is_battery_name(name: &str) -> (r: bool)
    ensures
        r == is_prefix("BAT"@, name@),
{
    starts_with(&to_chars(name), &to_chars("BAT"))
}

/// The widget from the battery's `capacity` and `status` files (`None`
/// where a file could not be read): empty unless the capacity, trimmed, is a
/// number; the status is trimmed too.
pub open spec fn widget_text(capacity: Option<Seq<char>>, status: Option<Seq<char>>, low: u32) -> Seq<
    char,
> {
    let cap = match capacity {
        Some(c) => parse_u32(trim(c)),
        None => None,
    };
    let st = match status {
        Some(s) => trim(s),
        None => Seq::empty(),
    };
    match cap {
        Some(c) => battery_text(c, st, low),
        None => Seq::empty(),
    }
}

pub fn widget(capacity: Option<&str>, status: Option<&str>, cfg: &Config) -> (r: String)
    ensures
        r@ == widget_text(
            match capacity {
                Some(c) => Some(c@),
                None => None,
            },
            match status {
                Some(s) => Some(s@),
                None => None,
            },
            cfg.battery_low,
        ),
{
    let cap = match capacity {
        Some(c) => parse_u32_chars(&trim_chars(&to_chars(c))),
        None => None,
    };
    let st = match status {
        Some(s) => from_chars(&trim_chars(&to_chars(s))),
        None => String::new(),
    };
    match cap {
        Some(c) => format(c, st.as_str(), cfg),
        None => String::new(),
    }
}

} // verus!
