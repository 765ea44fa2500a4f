//! Now-playing widget over the `playerctl` CLI.
//!
//! With several MPRIS players around (browser, Spotify, ...) the player to
//! show is the preferred one if configured, else the first Playing one, else
//! the first Paused one. Nothing shows when nothing plays.
use vstd::prelude::*;
use crate::config::Config;
use crate::text::{
    char_pred, chars_eq_str, drop_while, drop_while_end, extend_chars, extend_str, from_chars,
    is_prefix, lemma_strings_view_push, lines, lines_of, slice_chars, starts_with, strings_view,
    to_chars, trim, trim_chars, trim_end_char, trim_start_char, utf8_lossy, lossy, vecs_view,
};
use crate::tmux::{Action, ActionView, set_global_option};

verus! {

/// What a `playerctl` call printed (decoded), trimmed; `None` when that is empty.
pub open spec fn reply_spec(out: Seq<char>) -> Option<Seq<char>> {
    if trim(out).len() == 0 {
        None
    } else {
        Some(trim(out))
    }
}

/// The answer of a successful `playerctl` call, from its raw output.
pub fn reply(stdout: &[u8]) -> (r: Option<String>)
    ensures
        match r {
            Some(s) => reply_spec(utf8_lossy(stdout@)) == Some(s@),
            None => reply_spec(utf8_lossy(stdout@)) is None,
        },
{
    let t = trim_chars(&to_chars(lossy(stdout).as_str()));
    if t.len() == 0 {
        None
    } else {
        Some(from_chars(&t))
    }
}

/// The trimmed, non-empty lines of `ls`.
pub open spec fn nonempty_trimmed(ls: Seq<Seq<char>>) -> Seq<Seq<char>>
    decreases ls.len(),
{
    if ls.len() == 0 {
        Seq::empty()
    } else {
        let rest = nonempty_trimmed(ls.drop_last());
        if trim(ls.last()).len() > 0 {
            rest.push(trim(ls.last()))
        } else {
            rest
        }
    }
}

/// The player names listed by `playerctl -l`: one per non-blank line, trimmed.
pub fn parse_players(out: &str) -> (r: Vec<String>)
    ensures
        strings_view(r@) == nonempty_trimmed(lines(out@)),
{
    let ls = lines_of(&to_chars(out));
    let ghost lv = vecs_view(ls@);
    let mut r: Vec<String> = Vec::new();
    let mut i: usize = 0;
    while i < ls.len()
        invariant
            i <= ls.len(),
            lv == vecs_view(ls@),
            strings_view(r@) == nonempty_trimmed(lv.take(i as int)),
        decreases ls.len() - i,
    {
        assert(lv.take(i + 1).drop_last() =~= lv.take(i as int));
        assert(lv.take(i + 1).last() == ls@[i as int]@);
        let t = trim_chars(&ls[i]);
        if t.len() > 0 {
            let s = from_chars(&t);
            proof {
                lemma_strings_view_push(r@, s);
            }
            r.push(s);
        }
        i += 1;
    }
    assert(lv.take(i as int) =~= lv);
    r
}

pub open spec fn statuses_view(st: Seq<(String, String)>) -> Seq<(Seq<char>, Seq<char>)> {
    st.map_values(|e: (String, String)| (e.0@, e.1@))
}

/// Index of the first entry satisfying `p`.
pub open spec fn first_where(
    st: Seq<(Seq<char>, Seq<char>)>,
    p: spec_fn((Seq<char>, Seq<char>)) -> bool,
    i: int,
) -> Option<int>
    decreases st.len() - i,
{
    if i < 0 || i >= st.len() {
        None
    } else if p(st[i]) {
        Some(i)
    } else {
        first_where(st, p, i + 1)
    }
}

pub open spec fn name_has_prefix(preferred: Seq<char>) -> spec_fn((Seq<char>, Seq<char>)) -> bool {
    |e: (Seq<char>, Seq<char>)| is_prefix(preferred, e.0)
}

pub open spec fn status_is(s: Seq<char>) -> spec_fn((Seq<char>, Seq<char>)) -> bool {
    |e: (Seq<char>, Seq<char>)| e.1 == s
}

/// Which (name, status) pair to show: with a `preferred` name, the first
/// player whose name equals it or starts with it; otherwise (or if none
/// does) the first Playing player, else the first Paused one.
pub open spec fn choose_spec(st: Seq<(Seq<char>, Seq<char>)>, preferred: Seq<char>) -> Option<int> {
    let pref = if preferred.len() > 0 {
        first_where(st, name_has_prefix(preferred), 0)
    } else {
        None
    };
    if pref is Some {
        pref
    } else if first_where(st, status_is("Playing"@), 0) is Some {
        first_where(st, status_is("Playing"@), 0)
    } else {
        first_where(st, status_is("Paused"@), 0)
    }
}

/// First entry whose name starts with `pre` (`by_name`), or whose status
/// is `lit` (otherwise).
fn find_entry(statuses: &[(String, String)], pre: &[char], lit: &str, by_name: bool) -> (r: Option<
    usize,
>)
    ensures
        by_name ==> match r {
            Some(i) => first_where(statuses_view(statuses@), name_has_prefix(pre@), 0) == Some(
                i as int,
            ),
            None => first_where(statuses_view(statuses@), name_has_prefix(pre@), 0) is None,
        },
        !by_name ==> match r {
            Some(i) => first_where(statuses_view(statuses@), status_is(lit@), 0) == Some(i as int),
            None => first_where(statuses_view(statuses@), status_is(lit@), 0) is None,
        },
{
    let ghost sv = statuses_view(statuses@);
    let ghost p = if by_name {
        name_has_prefix(pre@)
    } else {
        status_is(lit@)
    };
    let mut i: usize = 0;
    while i < statuses.len()
        invariant
            i <= statuses.len(),
            sv == statuses_view(statuses@),
            p == (if by_name {
                name_has_prefix(pre@)
            } else {
                status_is(lit@)
            }),
            first_where(sv, p, 0) == first_where(sv, p, i as int),
        decreases statuses.len() - i,
    {
        assert(sv[i as int] == (statuses@[i as int].0@, statuses@[i as int].1@));
        let hit = if by_name {
            starts_with(&to_chars(statuses[i].0.as_str()), pre)
        } else {
            chars_eq_str(&to_chars(statuses[i].1.as_str()), lit)
        };
        if hit {
            return Some(i);
        }
        i += 1;
    }
    None
}

/// Pick which player to show (see `choose_spec`).
pub fn choose_player<'a>(statuses: &'a [(String, String)], preferred: &str) -> (r: Option<
    &'a (String, String),
>)
    ensures
        match r {
            Some(e) => exists|i: int|
                choose_spec(statuses_view(statuses@), preferred@) == Some(i) && 0 <= i
                    < statuses@.len() && *e == statuses@[i],
            None => choose_spec(statuses_view(statuses@), preferred@) is None,
        },
{
    let pre = to_chars(preferred);
    if pre.len() > 0 {
        if let Some(i) = find_entry(statuses, &pre, "", true) {
            proof {
                lemma_first_where_bounds(statuses_view(statuses@), name_has_prefix(pre@), 0);
            }
            return Some(&statuses[i]);
        }
    }
    if let Some(i) = find_entry(statuses, &pre, "Playing", false) {
        proof {
            lemma_first_where_bounds(statuses_view(statuses@), status_is("Playing"@), 0);
        }
        return Some(&statuses[i]);
    }
    match find_entry(statuses, &pre, "Paused", false) {
        Some(i) => {
            proof {
                lemma_first_where_bounds(statuses_view(statuses@), status_is("Paused"@), 0);
            }
            Some(&statuses[i])
        },
        None => None,
    }
}

proof fn lemma_first_where_bounds(
    st: Seq<(Seq<char>, Seq<char>)>,
    p: spec_fn((Seq<char>, Seq<char>)) -> bool,
    i: int,
)
    ensures
        first_where(st, p, i) matches Some(k) ==> i <= k < st.len() && p(st[k]),
    decreases st.len() - i,
{
    if !(i < 0 || i >= st.len()) && !p(st[i]) {
        lemma_first_where_bounds(st, p, i + 1);
    }
}

/// Tidy metadata: trimmed, then without dangling `-`s at either end (left
/// when the artist or title is empty), trimmed again.
pub open spec fn clean_spec(text: Seq<char>) -> Seq<char> {
    trim(drop_while_end(drop_while(trim(text), char_pred('-')), char_pred('-')))
}

pub fn clean(text: &str) -> (r: String)
    ensures
        r@ == clean_spec(text@),
{
    let a = trim_chars(&to_chars(text));
    let b = trim_start_char(&a, '-');
    let c = trim_end_char(&b, '-');
    from_chars(&trim_chars(&c))
}

/// At most `max` characters: a longer text keeps `max - 1` and ends in `…`.
/// `max == 0` means no limit.
pub open spec fn truncate_spec(text: Seq<char>, max: usize) -> Seq<char> {
    if max == 0 || text.len() <= max {
        text
    } else {
        text.take(max - 1) + seq!['\u{2026}']
    }
}

pub fn truncate(text: &[char], max: usize) -> (r: Vec<char>)
    ensures
        r@ == truncate_spec(text@, max),
{
    if max == 0 || text.len() <= max {
        return slice_chars(text, 0, text.len());
    }
    let mut r = slice_chars(text, 0, max - 1);
    r.push('\u{2026}');
    assert(r@ =~= text@.take(max - 1) + seq!['\u{2026}']);
    r
}

/// The widget: the play or pause icon, then the truncated text after a
/// space; just the icon when the text is empty; nothing for any other status.
pub open spec fn player_text(status: Seq<char>, text: Seq<char>, cfg: Config) -> Seq<char> {
    if status == "Playing"@ || status == "Paused"@ {
        let icon = if status == "Playing"@ {
            cfg.player_playing@
        } else {
            cfg.player_paused@
        };
        let t = truncate_spec(text, cfg.player_max);
        if t.len() == 0 {
            icon
        } else {
            icon + seq![' '] + t
        }
    } else {
        Seq::empty()
    }
}

/// Build the widget from a player status and cleaned metadata.
pub fn format_player(status: &str, text: &str, cfg: &Config) -> (r: String)
    ensures
        r@ == player_text(status@, text@, *cfg),
{
    let st = to_chars(status);
    let icon = if chars_eq_str(&st, "Playing") {
        to_chars(cfg.player_playing.as_str())
    } else if chars_eq_str(&st, "Paused") {
        to_chars(cfg.player_paused.as_str())
    } else {
        return String::new();
    };
    let t = truncate(&to_chars(text), cfg.player_max);
    if t.len() == 0 {
        return from_chars(&icon);
    }
    let mut out = icon;
    out.push(' ');
    extend_chars(&mut out, &t);
    from_chars(&out)
}

/// The widget once a player was chosen (`None`: none to show) and its
/// metadata asked for (`None`: the call gave nothing): the chosen player's
/// status with the cleaned metadata.
pub open spec fn value_spec(chosen: Option<(Seq<char>, Seq<char>)>, metadata: Option<Seq<char>>, cfg: Config) -> Seq<char> {
    match chosen {
        None => Seq::empty(),
        Some((_, status)) => player_text(
            status,
            clean_spec(
                match metadata {
                    Some(m) => m,
                    None => Seq::empty(),
                },
            ),
            cfg,
        ),
    }
}

pub fn value(chosen: Option<&(String, String)>, metadata: Option<&str>, cfg: &Config) -> (r: String)
    ensures
        r@ == value_spec(
            match chosen {
                Some(e) => Some((e.0@, e.1@)),
                None => None,
            },
            match metadata {
                Some(m) => Some(m@),
                None => None,
            },
            *cfg,
        ),
{
    match chosen {
        None => String::new(),
        Some(e) => {
            let text = match metadata {
                Some(m) => clean(m),
                None => clean(""),
            };
            proof {
                reveal_strlit("");
            }
            format_player(e.1.as_str(), text.as_str(), cfg)
        },
    }
}

/// The command that publishes the widget as `@huma_player`.
pub fn update(value: &str) -> (a: Action)
    ensures
        a@ == ActionView::SetGlobal("@huma_player"@, value@),
{
    set_global_option("@huma_player", value)
}

/// The now-playing text fits the configured width: with a limit, at most
/// `max` characters; a text that already fits is kept whole.
pub proof fn truncate_fits(text: Seq<char>, max: usize)
    ensures
        max > 0 ==> truncate_spec(text, max).len() <= max,
        text.len() <= max ==> truncate_spec(text, max) == text,
{
}

proof fn lemma_first_where_range(
    st: Seq<(Seq<char>, Seq<char>)>,
    p: spec_fn((Seq<char>, Seq<char>)) -> bool,
    i: int,
)
    ensures
        first_where(st, p, i) matches Some(k) ==> 0 <= k < st.len() && p(st[k]),
    decreases st.len() - i,
{
    if 0 <= i < st.len() && !p(st[i]) {
        lemma_first_where_range(st, p, i + 1);
    }
}

/// The chosen entry is one of the statuses.
pub proof fn chosen_in_range(st: Seq<(Seq<char>, Seq<char>)>, preferred: Seq<char>)
    ensures
        choose_spec(st, preferred) matches Some(i) ==> 0 <= i < st.len(),
{
    lemma_first_where_range(st, name_has_prefix(preferred), 0);
    lemma_first_where_range(st, status_is("Playing"@), 0);
    lemma_first_where_range(st, status_is("Paused"@), 0);
}

/// Empty when nothing is playing: when no player is Playing or Paused, the
/// widget is empty, whatever player is preferred and whatever its metadata.
pub proof fn none_when_idle(
    st: Seq<(Seq<char>, Seq<char>)>,
    preferred: Seq<char>,
    metadata: Option<Seq<char>>,
    cfg: Config,
)
    requires
        forall|k: int| 0 <= k < st.len() ==> #[trigger] st[k].1 != "Playing"@ && st[k].1 != "Paused"@,
    ensures
        value_spec(
            match choose_spec(st, preferred) {
                Some(i) => Some(st[i]),
                None => None,
            },
            metadata,
            cfg,
        ) == Seq::<char>::empty(),
{
    chosen_in_range(st, preferred);
}

} // verus!
