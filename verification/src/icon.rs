//! Window-name icons: one Nerd Font glyph per command, for
//! `automatic-rename-format`.
//!
//! `@huma-icon-shell` / `@huma-icon-editor` override the glyph of every shell /
//! editor (empty: the built-in per-command glyph); `@huma-icon-default` is the
//! glyph of commands without one.
use vstd::prelude::*;
use crate::config::Config;
use crate::text::{chars_eq_str, from_chars, to_chars, trim, trim_chars};

verus! {

/// `str::to_lowercase`'s result for `s`.
pub uninterp spec fn lowercase(s: Seq<char>) -> Seq<char>;

/// An ASCII character's lowercase: `A`-`Z` become `a`-`z`, the rest stay.
pub open spec fn ascii_lower(c: char) -> char {
    if 'A' <= c && c <= 'Z' {
        ((c as int) + 32) as char
    } else {
        c
    }
}

pub open spec fn is_ascii(s: Seq<char>) -> bool {
    forall|i: int| 0 <= i < s.len() ==> (#[trigger] s[i] as int) < 0x80
}

/// The lowercase of `s`: letter by letter for ASCII text, as
/// `str::to_lowercase` gives it otherwise.
pub open spec fn lower(s: Seq<char>) -> Seq<char> {
    if is_ascii(s) {
        s.map_values(|c: char| ascii_lower(c))
    } else {
        lowercase(s)
    }
}

/// `str::to_lowercase`: the Unicode lowercase of `s`. Stated: the result is a
/// function of `s`, and an ASCII string has each letter lowercased and every
/// other character kept; the Unicode case mapping of other characters is
/// left unstated.
#[verifier::external_body]
fn to_lowercase(s: &str) -> (r: String)
    ensures
        r@ == lowercase(s@),
        is_ascii(s@) ==> r@ == s@.map_values(|c: char| ascii_lower(c)),
{
    s.to_lowercase()
}

pub open spec fn shells() -> Seq<Seq<char>> {
    seq![
        "bash"@,
        "zsh"@,
        "fish"@,
        "sh"@,
        "dash"@,
        "nu"@,
        "tcsh"@,
        "csh"@,
        "ksh"@,
        "pwsh"@,
        "powershell"@,
    ]
}

pub open spec fn editors() -> Seq<Seq<char>> {
    seq![
        "nvim"@,
        "vim"@,
        "vi"@,
        "hx"@,
        "helix"@,
        "nano"@,
        "emacs"@,
        "lvim"@,
        "code"@,
        "code-insiders"@,
        "micro"@,
        "kak"@,
    ]
}

fn shell_names() -> (r: Vec<&'static str>)
    ensures
        r@.map_values(|s: &str| s@) == shells(),
{
    let r = vec!["bash", "zsh", "fish", "sh", "dash", "nu", "tcsh", "csh", "ksh", "pwsh", "powershell"];
    assert(r@.map_values(|s: &str| s@) =~= shells());
    r
}

fn editor_names() -> (r: Vec<&'static str>)
    ensures
        r@.map_values(|s: &str| s@) == editors(),
{
    let r = vec![
        "nvim",
        "vim",
        "vi",
        "hx",
        "helix",
        "nano",
        "emacs",
        "lvim",
        "code",
        "code-insiders",
        "micro",
        "kak",
    ];
    assert(r@.map_values(|s: &str| s@) =~= editors());
    r
}

fn member(c: &[char], names: &Vec<&'static str>) -> (r: bool)
    ensures
        r == names@.map_values(|s: &str| s@).contains(c@),
{
    let ghost nv = names@.map_values(|s: &str| s@);
    let mut i: usize = 0;
    while i < names.len()
        invariant
            i <= names.len(),
            nv == names@.map_values(|s: &str| s@),
            forall|j: int| 0 <= j < i ==> nv[j] != c@,
        decreases names.len() - i,
    {
        if chars_eq_str(c, names[i]) {
            assert(nv[i as int] == c@);
            return true;
        }
        i += 1;
    }
    proof {
        if nv.contains(c@) {
            let j = choose|j: int| 0 <= j < nv.len() && nv[j] == c@;
        }
    }
    false
}

/// The built-in glyphs, by lower-case command name.
pub open spec fn icon_table() -> Seq<(Seq<char>, Seq<char>)> {
    seq![
        ("bash"@, "\u{f489}"@),
        ("zsh"@, "\u{f489}"@),
        ("fish"@, "\u{f489}"@),
        ("sh"@, "\u{f489}"@),
        ("dash"@, "\u{f489}"@),
        ("nu"@, "\u{f489}"@),
        ("tcsh"@, "\u{f489}"@),
        ("csh"@, "\u{f489}"@),
        ("ksh"@, "\u{f489}"@),
        ("pwsh"@, "\u{ebc7}"@),
        ("powershell"@, "\u{ebc7}"@),
        ("nvim"@, "\u{e62b}"@),
        ("vim"@, "\u{e62b}"@),
        ("vi"@, "\u{e62b}"@),
        ("lvim"@, "\u{e62b}"@),
        ("hx"@, "\u{f044}"@),
        ("helix"@, "\u{f044}"@),
        ("nano"@, "\u{f044}"@),
        ("micro"@, "\u{f044}"@),
        ("kak"@, "\u{f044}"@),
        ("emacs"@, "\u{e632}"@),
        ("code"@, "\u{e70c}"@),
        ("code-insiders"@, "\u{e70c}"@),
        ("git"@, "\u{e702}"@),
        ("lazygit"@, "\u{e702}"@),
        ("tig"@, "\u{e702}"@),
        ("ssh"@, "\u{f0c2e}"@),
        ("mosh"@, "\u{f0c2e}"@),
        ("docker"@, "\u{f308}"@),
        ("lazydocker"@, "\u{f308}"@),
        ("podman"@, "\u{f308}"@),
        ("kubectl"@, "\u{f10fe}"@),
        ("k9s"@, "\u{f10fe}"@),
        ("python"@, "\u{e73c}"@),
        ("python3"@, "\u{e73c}"@),
        ("ipython"@, "\u{e73c}"@),
        ("node"@, "\u{e718}"@),
        ("npm"@, "\u{e71e}"@),
        ("cargo"@, "\u{e7a8}"@),
        ("rustc"@, "\u{e7a8}"@),
        ("go"@, "\u{e627}"@),
        ("ruby"@, "\u{e739}"@),
        ("lua"@, "\u{e620}"@),
        ("java"@, "\u{e738}"@),
        ("make"@, "\u{f0ad}"@),
        ("htop"@, "\u{f080}"@),
        ("btop"@, "\u{f080}"@),
        ("top"@, "\u{f080}"@),
        ("man"@, "\u{f02d}"@),
        ("less"@, "\u{f02d}"@),
        ("tmux"@, "\u{ebc8}"@),
        ("ranger"@, "\u{f07b}"@),
        ("yazi"@, "\u{f07b}"@),
        ("lf"@, "\u{f07b}"@),
        ("nnn"@, "\u{f07b}"@),
        ("mc"@, "\u{f07b}"@),
        ("psql"@, "\u{e76e}"@),
        ("mysql"@, "\u{e704}"@),
        ("sqlite3"@, "\u{e7c4}"@),
        ("curl"@, "\u{f0ac}"@),
        ("wget"@, "\u{f0ac}"@),
    ]
}

fn icon_entries() -> (r: Vec<(&'static str, &'static str)>)
    ensures
        r@.map_values(|e: (&str, &str)| (e.0@, e.1@)) == icon_table(),
{
    let r = vec![
        ("bash", "\u{f489}"),
        ("zsh", "\u{f489}"),
        ("fish", "\u{f489}"),
        ("sh", "\u{f489}"),
        ("dash", "\u{f489}"),
        ("nu", "\u{f489}"),
        ("tcsh", "\u{f489}"),
        ("csh", "\u{f489}"),
        ("ksh", "\u{f489}"),
        ("pwsh", "\u{ebc7}"),
        ("powershell", "\u{ebc7}"),
        ("nvim", "\u{e62b}"),
        ("vim", "\u{e62b}"),
        ("vi", "\u{e62b}"),
        ("lvim", "\u{e62b}"),
        ("hx", "\u{f044}"),
        ("helix", "\u{f044}"),
        ("nano", "\u{f044}"),
        ("micro", "\u{f044}"),
        ("kak", "\u{f044}"),
        ("emacs", "\u{e632}"),
        ("code", "\u{e70c}"),
        ("code-insiders", "\u{e70c}"),
        ("git", "\u{e702}"),
        ("lazygit", "\u{e702}"),
        ("tig", "\u{e702}"),
        ("ssh", "\u{f0c2e}"),
        ("mosh", "\u{f0c2e}"),
        ("docker", "\u{f308}"),
        ("lazydocker", "\u{f308}"),
        ("podman", "\u{f308}"),
        ("kubectl", "\u{f10fe}"),
        ("k9s", "\u{f10fe}"),
        ("python", "\u{e73c}"),
        ("python3", "\u{e73c}"),
        ("ipython", "\u{e73c}"),
        ("node", "\u{e718}"),
        ("npm", "\u{e71e}"),
        ("cargo", "\u{e7a8}"),
        ("rustc", "\u{e7a8}"),
        ("go", "\u{e627}"),
        ("ruby", "\u{e739}"),
        ("lua", "\u{e620}"),
        ("java", "\u{e738}"),
        ("make", "\u{f0ad}"),
        ("htop", "\u{f080}"),
        ("btop", "\u{f080}"),
        ("top", "\u{f080}"),
        ("man", "\u{f02d}"),
        ("less", "\u{f02d}"),
        ("tmux", "\u{ebc8}"),
        ("ranger", "\u{f07b}"),
        ("yazi", "\u{f07b}"),
        ("lf", "\u{f07b}"),
        ("nnn", "\u{f07b}"),
        ("mc", "\u{f07b}"),
        ("psql", "\u{e76e}"),
        ("mysql", "\u{e704}"),
        ("sqlite3", "\u{e7c4}"),
        ("curl", "\u{f0ac}"),
        ("wget", "\u{f0ac}"),
    ];
    assert(r@.map_values(|e: (&str, &str)| (e.0@, e.1@)) =~= icon_table());
    r
}

/// The glyph of the first table entry named `cmd`.
pub open spec fn table_lookup(t: Seq<(Seq<char>, Seq<char>)>, cmd: Seq<char>) -> Option<Seq<char>>
    decreases t.len(),
{
    if t.len() == 0 {
        None
    } else if t[0].0 == cmd {
        Some(t[0].1)
    } else {
        table_lookup(t.drop_first(), cmd)
    }
}

/// The built-in glyph for a (lower-case) command.
pub fn lookup(cmd: &str) -> (r: Option<String>)
    ensures
        match r {
            Some(g) => table_lookup(icon_table(), cmd@) == Some(g@),
            None => table_lookup(icon_table(), cmd@) is None,
        },
{
    let c = to_chars(cmd);
    let entries = icon_entries();
    let ghost tv = entries@.map_values(|e: (&str, &str)| (e.0@, e.1@));
    let mut i: usize = 0;
    assert(tv.skip(0) =~= tv);
    while i < entries.len()
        invariant
            i <= entries.len(),
            tv == entries@.map_values(|e: (&str, &str)| (e.0@, e.1@)),
            tv == icon_table(),
            c@ == cmd@,
            table_lookup(tv, c@) == table_lookup(tv.skip(i as int), c@),
        decreases entries.len() - i,
    {
        assert(tv.skip(i as int)[0] == tv[i as int]);
        assert(tv.skip(i as int).drop_first() =~= tv.skip(i + 1));
        let (name, glyph) = entries[i];
        if chars_eq_str(&c, name) {
            return Some(glyph.to_owned());
        }
        i += 1;
    }
    None
}

/// The glyph for a command: the trimmed, lower-cased name selects the
/// category override (shell, then editor) when one is set, else the
/// built-in glyph, else the default.
pub open spec fn icon_spec(cmd: Seq<char>, cfg: Config) -> Seq<char> {
    let c = lower(trim(cmd));
    if shells().contains(c) && cfg.icon_shell@.len() > 0 {
        cfg.icon_shell@
    } else if editors().contains(c) && cfg.icon_editor@.len() > 0 {
        cfg.icon_editor@
    } else {
        match table_lookup(icon_table(), c) {
            Some(g) => g,
            None => cfg.icon_default@,
        }
    }
}

/// Resolve the icon for a command: category override, then the built-in
/// map, then the fallback.
pub fn icon(cmd: &str, cfg: &Config) -> (r: String)
    ensures
        r@ == icon_spec(cmd@, *cfg),
{
    let trimmed = from_chars(&trim_chars(&to_chars(cmd)));
    let lower = to_lowercase(trimmed.as_str());
    let c = to_chars(lower.as_str());
    if member(&c, &shell_names()) && !cfg.icon_shell.as_str().is_empty() {
        return cfg.icon_shell.clone();
    }
    if member(&c, &editor_names()) && !cfg.icon_editor.as_str().is_empty() {
        return cfg.icon_editor.clone();
    }
    match lookup(lower.as_str()) {
        Some(g) => g,
        None => cfg.icon_default.clone(),
    }
}

/// Every shell gets the shell override when one is set: for `bash`, `zsh`,
/// `fish`, `sh`, `dash`, `nu`, `tcsh`, `csh`, `ksh`, `pwsh` and `powershell`,
/// in any ASCII case and with surrounding blanks, the icon is
/// `@huma-icon-shell` whenever that is non-empty.
pub proof fn shell_override_wins(cmd: Seq<char>, cfg: Config)
    requires
        is_ascii(trim(cmd)),
        seq![
            "bash"@,
            "zsh"@,
            "fish"@,
            "sh"@,
            "dash"@,
            "nu"@,
            "tcsh"@,
            "csh"@,
            "ksh"@,
            "pwsh"@,
            "powershell"@,
        ].contains(trim(cmd).map_values(|c: char| ascii_lower(c))),
        cfg.icon_shell@.len() > 0,
    ensures
        icon_spec(cmd, cfg) == cfg.icon_shell@,
{
    assert(seq![
        "bash"@,
        "zsh"@,
        "fish"@,
        "sh"@,
        "dash"@,
        "nu"@,
        "tcsh"@,
        "csh"@,
        "ksh"@,
        "pwsh"@,
        "powershell"@,
    ] =~= shells());
}

/// Every editor gets the editor override when one is set: for `nvim`, `vim`,
/// `vi`, `hx`, `helix`, `nano`, `emacs`, `lvim`, `code`, `code-insiders`,
/// `micro` and `kak`, in any ASCII case and with surrounding blanks, the
/// icon is `@huma-icon-editor` whenever that is non-empty (no editor is a
/// shell, so the shell override never takes its place).
pub proof fn editor_override_wins(cmd: Seq<char>, cfg: Config)
    requires
        is_ascii(trim(cmd)),
        seq![
            "nvim"@,
            "vim"@,
            "vi"@,
            "hx"@,
            "helix"@,
            "nano"@,
            "emacs"@,
            "lvim"@,
            "code"@,
            "code-insiders"@,
            "micro"@,
            "kak"@,
        ].contains(trim(cmd).map_values(|c: char| ascii_lower(c))),
        cfg.icon_editor@.len() > 0,
    ensures
        icon_spec(cmd, cfg) == cfg.icon_editor@,
{
    let c = trim(cmd).map_values(|c: char| ascii_lower(c));
    assert(seq![
        "nvim"@,
        "vim"@,
        "vi"@,
        "hx"@,
        "helix"@,
        "nano"@,
        "emacs"@,
        "lvim"@,
        "code"@,
        "code-insiders"@,
        "micro"@,
        "kak"@,
    ] =~= editors());
    lemma_no_editor_is_shell(c);
}

/// No name is both an editor and a shell.
proof fn lemma_no_editor_is_shell(c: Seq<char>)
    requires
        editors().contains(c),
    ensures
        !shells().contains(c),
{
    reveal_strlit("bash");
    reveal_strlit("zsh");
    reveal_strlit("fish");
    reveal_strlit("sh");
    reveal_strlit("dash");
    reveal_strlit("nu");
    reveal_strlit("tcsh");
    reveal_strlit("csh");
    reveal_strlit("ksh");
    reveal_strlit("pwsh");
    reveal_strlit("powershell");
    reveal_strlit("nvim");
    reveal_strlit("vim");
    reveal_strlit("vi");
    reveal_strlit("hx");
    reveal_strlit("helix");
    reveal_strlit("nano");
    reveal_strlit("emacs");
    reveal_strlit("lvim");
    reveal_strlit("code");
    reveal_strlit("code-insiders");
    reveal_strlit("micro");
    reveal_strlit("kak");
    let j = choose|j: int| 0 <= j < editors().len() && editors()[j] == c;
    if shells().contains(c) {
        let i = choose|i: int| 0 <= i < shells().len() && shells()[i] == c;
        assert(shells()[i][0] == editors()[j][0]);
        assert(shells()[i].len() == editors()[j].len());
        assert(shells()[i].last() == editors()[j].last());
        assert(false);
    }
}

} // verus!
