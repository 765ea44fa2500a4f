//! System load (`/proc/loadavg`) and memory use (`/proc/meminfo`).
//!
//! The 1-minute load and the used-memory percentage are floating-point
//! quantities; the program computes those two numbers, and the library reads
//! the files' fields and renders the widget.
use vstd::prelude::*;
use crate::config::Config;
use crate::text::{
    dec, dec_chars, extend_chars, extend_str, first_word, first_word_of, from_chars, is_prefix,
    lines, lines_of, parse_u64, parse_u64_chars, slice_chars, starts_with, to_chars, vecs_view,
};

verus! {

/// The 1-minute field of `/proc/loadavg`: its first whitespace-separated word.
pub fn loadavg_field(s: &str) -> (r: Option<String>)
    ensures
        match r {
            Some(w) => first_word(s@) == Some(w@),
            None => first_word(s@) is None,
        },
{
    match first_word_of(&to_chars(s)) {
        Some(w) => Some(from_chars(&w)),
        None => None,
    }
}

/// The number after a `/proc/meminfo` key: the first word, as a `u64`.
pub open spec fn field_value(rest: Seq<char>) -> Option<u64> {
    match first_word(rest) {
        Some(w) => parse_u64(w),
        None => None,
    }
}

/// Scan `/proc/meminfo` lines for `MemTotal:` and `MemAvailable:` (a later
/// line overrides an earlier one); a key line whose value is missing or not a
/// number makes the whole reading fail.
pub open spec fn mem_scan(ls: Seq<Seq<char>>, total: u64, avail: u64) -> Option<(u64, u64)>
    decreases ls.len(),
{
    if ls.len() == 0 {
        Some((total, avail))
    } else {
        let l = ls[0];
        if is_prefix("MemTotal:"@, l) {
            match field_value(l.skip(9)) {
                Some(v) => mem_scan(ls.drop_first(), v, avail),
                None => None,
            }
        } else if is_prefix("MemAvailable:"@, l) {
            match field_value(l.skip(13)) {
                Some(v) => mem_scan(ls.drop_first(), total, v),
                None => None,
            }
        } else {
            mem_scan(ls.drop_first(), total, avail)
        }
    }
}

/// Used and total memory (kB): used is total minus available (never below
/// zero). `None` when the total is zero or missing, or a key's value is bad.
pub open spec fn mem_usage_spec(meminfo: Seq<char>) -> Option<(u64, u64)> {
    match mem_scan(lines(meminfo), 0, 0) {
        Some((t, a)) => if t == 0 {
            None
        } else {
            Some((if t >= a { (t - a) as u64 } else { 0u64 }, t))
        },
        None => None,
    }
}

fn field_value_exec(rest: &[char]) -> (r: Option<u64>)
    ensures
        r == field_value(rest@),
{
    match first_word_of(rest) {
        Some(w) => parse_u64_chars(&w),
        None => None,
    }
}

/// Used and total memory from `/proc/meminfo`; the percentage is
/// `used / total * 100`, rounded.
pub fn mem_usage(meminfo: &str) -> (r: Option<(u64, u64)>)
    ensures
        r == mem_usage_spec(meminfo@),
{
    let ls = lines_of(&to_chars(meminfo));
    let ghost lv = vecs_view(ls@);
    let total_key = to_chars("MemTotal:");
    let avail_key = to_chars("MemAvailable:");
    proof {
        reveal_strlit("MemTotal:");
        reveal_strlit("MemAvailable:");
    }
    let mut total: u64 = 0;
    let mut avail: u64 = 0;
    let mut i: usize = 0;
    assert(lv.skip(0) =~= lv);
    while i < ls.len()
        invariant
            i <= ls.len(),
            lv == vecs_view(ls@),
            lv == lines(meminfo@),
            total_key@ == "MemTotal:"@,
            avail_key@ == "MemAvailable:"@,
            total_key@.len() == 9,
            avail_key@.len() == 13,
            mem_scan(lv, 0, 0) == mem_scan(lv.skip(i as int), total, avail),
        decreases ls.len() - i,
    {
        let l = &ls[i];
        assert(lv.skip(i as int)[0] == l@);
        assert(lv.skip(i as int).drop_first() =~= lv.skip(i + 1));
        if starts_with(l, &total_key) {
            let rest = slice_chars(l, 9, l.len());
            assert(rest@ =~= l@.skip(9));
            match field_value_exec(&rest) {
                Some(v) => {
                    total = v;
                },
                None => {
                    return None;
                },
            }
        } else if starts_with(l, &avail_key) {
            let rest = slice_chars(l, 13, l.len());
            assert(rest@ =~= l@.skip(13));
            match field_value_exec(&rest) {
                Some(v) => {
                    avail = v;
                },
                None => {
                    return None;
                },
            }
        }
        i += 1;
    }
    if total == 0 {
        return None;
    }
    Some((total.saturating_sub(avail), total))
}

/// `<icon> <load>`, plus ` · <mem>%` when the memory percentage is shown.
pub open spec fn load_text(load: Seq<char>, mem: Option<u32>, cfg: Config) -> Seq<char> {
    let base = cfg.load_icon@ + " "@ + load;
    match mem {
        Some(m) => base + " \u{b7} "@ + dec(m as nat) + "%"@,
        None => base,
    }
}

/// Render the widget; `load` is the 1-minute load with two decimals.
pub fn format(load: &str, mem: Option<u32>, cfg: &Config) -> (r: String)
    ensures
        r@ == load_text(load@, mem, *cfg),
{
    let mut out = to_chars(cfg.load_icon.as_str());
    extend_str(&mut out, " ");
    extend_str(&mut out, load);
    match mem {
        Some(m) => {
            extend_str(&mut out, " \u{b7} ");
            extend_chars(&mut out, &dec_chars(m as u64));
            extend_str(&mut out, "%");
        },
        None => {},
    }
    from_chars(&out)
}

} // verus!
