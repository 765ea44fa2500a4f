//! SSH target of the active pane (`@huma_ssh`).
//!
//! Whether the active pane runs `ssh` is decided by walking the process tree
//! below the pane's shell (a snapshot of `/proc` that the caller gathers), and
//! the destination host (or `user@host`) is read from that ssh's argv.
use vstd::prelude::*;
use crate::config::Config;
use crate::tmux::{Action, ActionView, set_global_option};
use crate::text::{
    char_pred, chars_eq_str, extend_chars, find_char, from_chars, index_of, is_prefix,
    lemma_index_of, lemma_strings_view_push, parse_i32, parse_i32_chars, slice_chars, starts_with,
    strings_view, to_chars, trim, trim_chars, utf8_lossy, lossy, vecs_view, words, words_of,
};

verus! {

/// Letters of the ssh options that consume the following argv token.
pub open spec fn value_opt_letter(c: char) -> bool {
    c == 'b' || c == 'c' || c == 'D' || c == 'E' || c == 'e' || c == 'F' || c == 'I' || c == 'i'
        || c == 'J' || c == 'L' || c == 'l' || c == 'm' || c == 'O' || c == 'o' || c == 'p'
        || c == 'Q' || c == 'R' || c == 'S' || c == 'W' || c == 'w'
}

/// `a` is one of the ssh options that take a value (`-b`, `-c`, `-D`, ... `-w`).
pub open spec fn takes_value(a: Seq<char>) -> bool {
    a.len() == 2 && a[0] == '-' && value_opt_letter(a[1])
}

pub open spec fn dash_l() -> Seq<char> {
    seq!['-', 'l']
}

/// Scans `argv[i..]` for the destination, tracking the user given by `-l`.
/// Returns the user last set by `-l` (if any) and the first non-option token.
pub open spec fn scan(argv: Seq<Seq<char>>, i: int, user: Option<Seq<char>>) -> (
    Option<Seq<char>>,
    Option<Seq<char>>,
)
    decreases argv.len() + 2 - i,
{
    if i < 0 || i >= argv.len() {
        (user, None)
    } else {
        let a = argv[i];
        if a == dash_l() {
            scan(argv, i + 2, if i + 1 < argv.len() { Some(argv[i + 1]) } else { None })
        } else if takes_value(a) {
            scan(argv, i + 2, user)
        } else if a.len() > 0 && a[0] == '-' {
            scan(argv, i + 1, user)
        } else {
            (user, Some(a))
        }
    }
}

pub open spec fn ssh_scheme() -> Seq<char> {
    seq!['s', 's', 'h', ':', '/', '/']
}

/// The destination without a leading `ssh://`.
pub open spec fn strip_scheme(d: Seq<char>) -> Seq<char> {
    if is_prefix(ssh_scheme(), d) {
        d.skip(6)
    } else {
        d
    }
}

pub open spec fn host_end_pred() -> spec_fn(char) -> bool {
    |c: char| c == '/' || c == ':'
}

/// The display target of an `ssh` argv (argv[0] is the program name).
pub open spec fn ssh_target(argv: Seq<Seq<char>>, user_at_host: bool) -> Option<Seq<char>> {
    let (user, dest) = scan(argv, 1, None);
    match dest {
        None => None,
        Some(d0) => {
            let d = strip_scheme(d0);
            let at = index_of(d, char_pred('@'));
            let u = if at < d.len() { Some(d.take(at as int)) } else { user };
            let rest = if at < d.len() { d.skip(at + 1 as int) } else { d };
            let host = rest.take(index_of(rest, host_end_pred()) as int);
            if host.len() == 0 {
                None
            } else {
                match u {
                    Some(un) => if user_at_host && un.len() > 0 {
                        Some(un + seq!['@'] + host)
                    } else {
                        Some(host)
                    },
                    None => Some(host),
                }
            }
        },
    }
}

pub open spec fn opt_view(o: Option<Vec<char>>) -> Option<Seq<char>> {
    match o {
        Some(v) => Some(v@),
        None => None,
    }
}

fn is_value_opt(a: &[char]) -> (b: bool)
    ensures
        b == takes_value(a@),
{
    if a.len() != 2 || a[0] != '-' {
        return false;
    }
    let c = a[1];
    c == 'b' || c == 'c' || c == 'D' || c == 'E' || c == 'e' || c == 'F' || c == 'I' || c == 'i'
        || c == 'J' || c == 'L' || c == 'l' || c == 'm' || c == 'O' || c == 'o' || c == 'p'
        || c == 'Q' || c == 'R' || c == 'S' || c == 'W' || c == 'w'
}

/// The `-l` user and the destination token of an ssh argv.
fn scan_argv(argv: &[String]) -> (r: (Option<Vec<char>>, Option<Vec<char>>))
    ensures
        (opt_view(r.0), opt_view(r.1)) == scan(strings_view(argv@), 1, None),
{
    let ghost av = strings_view(argv@);
    let mut i: usize = 1;
    let mut user: Option<Vec<char>> = None;
    loop
        invariant
            av == strings_view(argv@),
            av.len() == argv.len(),
            1 <= i,
            scan(av, 1, None) == scan(av, i as int, opt_view(user)),
        decreases argv.len() - i,
    {
        if i >= argv.len() {
            return (user, None);
        }
        let a = to_chars(argv[i].as_str());
        assert(av[i as int] == a@);
        if a.len() == 2 && a[0] == '-' && a[1] == 'l' {
            assert(a@ =~= dash_l());
            if i + 1 >= argv.len() {
                assert(scan(av, i + 2, None) == (None::<Seq<char>>, None::<Seq<char>>));
                return (None, None);
            }
            let u = to_chars(argv[i + 1].as_str());
            assert(av[i + 1] == u@);
            user = Some(u);
            i = i + 2;
        } else {
            assert(a@ != dash_l()) by {
                if a@ == dash_l() {
                    assert(a@[0] == '-' && a@[1] == 'l');
                }
            }
            if is_value_opt(&a) {
                if i + 1 >= argv.len() {
                    assert(scan(av, i + 2, opt_view(user)) == (opt_view(user), None::<Seq<char>>));
                    return (user, None);
                }
                i = i + 2;
            } else if a.len() > 0 && a[0] == '-' {
                i = i + 1;
            } else {
                return (user, Some(a));
            }
        }
    }
}

fn find_host_end(v: &[char]) -> (k: usize)
    ensures
        k == index_of(v@, host_end_pred()),
        k <= v.len(),
{
    let mut i: usize = 0;
    while i < v.len() && v[i] != '/' && v[i] != ':'
        invariant
            i <= v.len(),
            forall|j: int| 0 <= j < i ==> !(host_end_pred())(#[trigger] v@[j]),
        decreases v.len() - i,
    {
        i += 1;
    }
    proof {
        lemma_index_of(v@, host_end_pred(), i as int);
    }
    i
}

/// Parse an `ssh` argv into the display target; `user_at_host` controls
/// whether the username is included.
pub fn parse_ssh_target(argv: &[String], user_at_host: bool) -> (r: Option<String>)
    ensures
        match r {
            Some(s) => ssh_target(strings_view(argv@), user_at_host) == Some(s@),
            None => ssh_target(strings_view(argv@), user_at_host) is None,
        },
{
    let (user, dest) = scan_argv(argv);
    let d0 = match dest {
        None => {
            return None;
        },
        Some(d) => d,
    };
    let scheme = to_chars("ssh://");
    proof {
        reveal_strlit("ssh://");
        assert(scheme@ =~= ssh_scheme());
    }
    let d = if starts_with(&d0, &scheme) {
        slice_chars(&d0, 6, d0.len())
    } else {
        d0
    };
    assert(d@ == strip_scheme(d0@)) by {
        if is_prefix(ssh_scheme(), d0@) {
            assert(d0@.skip(6) =~= d0@.subrange(6, d0@.len() as int));
        }
    }
    let at = find_char(&d, '@');
    let (u, rest) = if at < d.len() {
        (Some(slice_chars(&d, 0, at)), slice_chars(&d, at + 1, d.len()))
    } else {
        (user, d)
    };
    assert(opt_view(u) == (if at < d@.len() { Some(d@.take(at as int)) } else { opt_view(user) }))
        by {
        if at < d@.len() {
            assert(d@.subrange(0, at as int) =~= d@.take(at as int));
        }
    }
    assert(rest@ == (if at < d@.len() { d@.skip(at + 1 as int) } else { d@ })) by {
        if at < d@.len() {
            assert(d@.subrange(at + 1, d@.len() as int) =~= d@.skip(at + 1 as int));
        }
    }
    let he = find_host_end(&rest);
    let host = slice_chars(&rest, 0, he);
    assert(host@ =~= rest@.take(he as int));
    if host.len() == 0 {
        return None;
    }
    match u {
        Some(un) => {
            if user_at_host && un.len() > 0 {
                let mut out = un;
                out.push('@');
                extend_chars(&mut out, &host);
                Some(from_chars(&out))
            } else {
                Some(from_chars(&host))
            }
        },
        None => Some(from_chars(&host)),
    }
}


// ---------------------------------------------------------------------------
// The process tree below the pane
// ---------------------------------------------------------------------------

/// What `/proc` says about one process: its command name, its children and
/// its argv.
pub struct ProcInfo {
    pub pid: i32,
    pub comm: String,
    pub children: Vec<i32>,
    pub cmdline: Vec<String>,
}

/// A snapshot of the processes below a pane.
pub struct ProcTable {
    pub procs: Vec<ProcInfo>,
}

/// The entry for `pid` (the first one), if any.
pub open spec fn lookup_proc(procs: Seq<ProcInfo>, pid: i32) -> Option<ProcInfo>
    decreases procs.len(),
{
    if procs.len() == 0 {
        None
    } else if procs[0].pid == pid {
        Some(procs[0])
    } else {
        lookup_proc(procs.drop_first(), pid)
    }
}

/// `pid`'s children (none when unknown, as for an unreadable `/proc` file).
pub open spec fn children_of(t: ProcTable, pid: i32) -> Seq<i32> {
    match lookup_proc(t.procs@, pid) {
        Some(p) => p.children@,
        None => Seq::empty(),
    }
}

/// `pid`'s command name (empty when unknown).
pub open spec fn comm_of(t: ProcTable, pid: i32) -> Seq<char> {
    match lookup_proc(t.procs@, pid) {
        Some(p) => p.comm@,
        None => Seq::empty(),
    }
}

/// `pid`'s argv (empty when unknown).
pub open spec fn cmdline_of(t: ProcTable, pid: i32) -> Seq<Seq<char>> {
    match lookup_proc(t.procs@, pid) {
        Some(p) => strings_view(p.cmdline@),
        None => Seq::empty(),
    }
}

/// Depth-first search of `cs[k..]` and their descendants (at most `depth`
/// more levels) for an `ssh` process with a non-empty argv: each child is
/// checked itself, then its own subtree, before its next sibling.
pub open spec fn find_in(t: ProcTable, cs: Seq<i32>, k: int, depth: nat) -> Option<Seq<Seq<char>>>
    decreases depth, cs.len() - k,
{
    if k < 0 || k >= cs.len() {
        None
    } else {
        let c = cs[k];
        if comm_of(t, c) == "ssh"@ && cmdline_of(t, c).len() > 0 {
            Some(cmdline_of(t, c))
        } else if depth > 0 && find_in(t, children_of(t, c), 0, (depth - 1) as nat) is Some {
            find_in(t, children_of(t, c), 0, (depth - 1) as nat)
        } else {
            find_in(t, cs, k + 1, depth)
        }
    }
}

/// The argv of an `ssh` process below `pid` (children, and `depth` more
/// levels of descendants).
pub open spec fn find_ssh_spec(t: ProcTable, pid: i32, depth: nat) -> Option<Seq<Seq<char>>> {
    find_in(t, children_of(t, pid), 0, depth)
}

impl ProcTable {
    fn index_of_pid(&self, pid: i32) -> (r: Option<usize>)
        ensures
            match r {
                Some(i) => i < self.procs.len() && lookup_proc(self.procs@, pid) == Some(
                    self.procs@[i as int],
                ),
                None => lookup_proc(self.procs@, pid) is None,
            },
    {
        let mut i: usize = 0;
        assert(self.procs@.skip(0) =~= self.procs@);
        while i < self.procs.len()
            invariant
                i <= self.procs.len(),
                lookup_proc(self.procs@, pid) == lookup_proc(self.procs@.skip(i as int), pid),
            decreases self.procs.len() - i,
        {
            assert(self.procs@.skip(i as int)[0] == self.procs@[i as int]);
            assert(self.procs@.skip(i as int).drop_first() =~= self.procs@.skip(i + 1));
            if self.procs[i].pid == pid {
                return Some(i);
            }
            i += 1;
        }
        None
    }
}

fn clone_strings(v: &Vec<String>) -> (r: Vec<String>)
    ensures
        strings_view(r@) == strings_view(v@),
{
    let mut r: Vec<String> = Vec::new();
    let mut i: usize = 0;
    while i < v.len()
        invariant
            i <= v.len(),
            strings_view(r@) == strings_view(v@).take(i as int),
        decreases v.len() - i,
    {
        proof {
            lemma_strings_view_push(r@, v@[i as int]);
        }
        r.push(v[i].clone());
        assert(strings_view(v@).take(i + 1) =~= strings_view(v@).take(i as int).push(v@[i as int]@));
        i += 1;
    }
    assert(strings_view(v@).take(i as int) =~= strings_view(v@));
    r
}

/// Find an `ssh` process below `pid` (children, and `depth` more levels of
/// descendants, depth first); its argv.
pub fn find_ssh(t: &ProcTable, pid: i32, depth: u8) -> (r: Option<Vec<String>>)
    ensures
        match r {
            Some(a) => find_ssh_spec(*t, pid, depth as nat) == Some(strings_view(a@)),
            None => find_ssh_spec(*t, pid, depth as nat) is None,
        },
    decreases depth,
{
    let empty: Vec<i32> = Vec::new();
    let cs: &Vec<i32> = match t.index_of_pid(pid) {
        Some(i) => &t.procs[i].children,
        None => &empty,
    };
    assert(cs@ == children_of(*t, pid));
    let mut k: usize = 0;
    while k < cs.len()
        invariant
            k <= cs.len(),
            cs@ == children_of(*t, pid),
            find_in(*t, cs@, 0, depth as nat) == find_in(*t, cs@, k as int, depth as nat),
        decreases cs.len() - k,
    {
        let c = cs[k];
        match t.index_of_pid(c) {
            Some(i) => {
                let p = &t.procs[i];
                if chars_eq_str(&to_chars(p.comm.as_str()), "ssh") && p.cmdline.len() > 0 {
                    return Some(clone_strings(&p.cmdline));
                }
            },
            None => {},
        }
        assert(!(comm_of(*t, c) == "ssh"@ && cmdline_of(*t, c).len() > 0));
        if depth > 0 {
            match find_ssh(t, c, depth - 1) {
                Some(a) => {
                    return Some(a);
                },
                None => {},
            }
        }
        k += 1;
    }
    None
}

/// The numbers among the whitespace-separated words of `s` (as
/// `/proc/<pid>/task/<pid>/children` lists them); other words are skipped.
pub open spec fn pids_in(ws: Seq<Seq<char>>) -> Seq<i32>
    decreases ws.len(),
{
    if ws.len() == 0 {
        Seq::empty()
    } else {
        let rest = pids_in(ws.drop_last());
        match parse_i32(ws.last()) {
            Some(p) => rest.push(p),
            None => rest,
        }
    }
}

pub fn parse_children(s: &str) -> (r: Vec<i32>)
    ensures
        r@ == pids_in(words(s@)),
{
    let ws = words_of(&to_chars(s));
    let ghost wv = vecs_view(ws@);
    let mut r: Vec<i32> = Vec::new();
    let mut i: usize = 0;
    while i < ws.len()
        invariant
            i <= ws.len(),
            wv == vecs_view(ws@),
            r@ == pids_in(wv.take(i as int)),
        decreases ws.len() - i,
    {
        assert(wv.take(i + 1).drop_last() =~= wv.take(i as int));
        assert(wv.take(i + 1).last() == ws@[i as int]@);
        match parse_i32_chars(&ws[i]) {
            Some(p) => r.push(p),
            None => {},
        }
        i += 1;
    }
    assert(wv.take(i as int) =~= wv);
    r
}

/// The argv in `/proc/<pid>/cmdline`: NUL-separated, empty pieces dropped,
/// each decoded as UTF-8 with invalid sequences replaced.
pub open spec fn nul_pieces(b: Seq<u8>) -> Seq<Seq<u8>>
    decreases b.len(),
{
    if b.len() == 0 {
        Seq::empty()
    } else {
        let rest = nul_pieces(b.drop_last());
        if b.last() == 0 {
            rest
        } else if b.len() >= 2 && b[b.len() - 2] != 0 && rest.len() > 0 {
            rest.drop_last().push(rest.last().push(b.last()))
        } else {
            rest.push(seq![b.last()])
        }
    }
}

pub open spec fn lossy_all(ps: Seq<Seq<u8>>) -> Seq<Seq<char>> {
    ps.map_values(|p: Seq<u8>| utf8_lossy(p))
}

/// The argv from the bytes of `/proc/<pid>/cmdline`.
pub fn parse_cmdline(b: &[u8]) -> (r: Vec<String>)
    ensures
        strings_view(r@) == lossy_all(nul_pieces(b@)),
{
    let mut pieces: Vec<Vec<u8>> = Vec::new();
    let mut i: usize = 0;
    while i < b.len()
        invariant
            i <= b.len(),
            pieces@.map_values(|p: Vec<u8>| p@) == nul_pieces(b@.take(i as int)),
        decreases b.len() - i,
    {
        let ghost before = pieces@.map_values(|p: Vec<u8>| p@);
        assert(b@.take(i + 1).drop_last() =~= b@.take(i as int));
        assert(b@.take(i + 1).last() == b@[i as int]);
        if b[i] != 0 {
            if i >= 1 && b[i - 1] != 0 && pieces.len() > 0 {
                let last = pieces.len() - 1;
                let mut p = pieces.pop().unwrap();
                p.push(b[i]);
                pieces.push(p);
                assert(b@.take(i + 1)[i - 1] == b@[i - 1]);
                assert(pieces@.map_values(|p: Vec<u8>| p@) =~= before.drop_last().push(
                    before.last().push(b@[i as int]),
                ));
            } else {
                let mut p: Vec<u8> = Vec::new();
                p.push(b[i]);
                pieces.push(p);
                proof {
                    if i >= 1 {
                        assert(b@.take(i + 1)[i - 1] == b@[i - 1]);
                    }
                }
                assert(pieces@.map_values(|p: Vec<u8>| p@) =~= before.push(seq![b@[i as int]]));
            }
        }
        i += 1;
    }
    assert(b@.take(i as int) =~= b@);
    let ghost pv = pieces@.map_values(|p: Vec<u8>| p@);
    let mut r: Vec<String> = Vec::new();
    let mut j: usize = 0;
    while j < pieces.len()
        invariant
            j <= pieces.len(),
            pv == pieces@.map_values(|p: Vec<u8>| p@),
            strings_view(r@) == lossy_all(pv.take(j as int)),
        decreases pieces.len() - j,
    {
        let s = lossy(pieces[j].as_slice());
        proof {
            lemma_strings_view_push(r@, s);
        }
        r.push(s);
        assert(lossy_all(pv.take(j + 1)) =~= lossy_all(pv.take(j as int)).push(
            utf8_lossy(pv[j as int]),
        ));
        j += 1;
    }
    assert(pv.take(j as int) =~= pv);
    r
}

impl ProcInfo {
    /// A process from its `/proc` files: `comm` (trimmed), `children`
    /// (the numbers listed) and `cmdline`; a file that could not be read
    /// counts as empty.
    pub fn from_proc(pid: i32, comm: Option<&str>, children: Option<&str>, cmdline: Option<&[u8]>) -> (r: Self)
        ensures
            r.pid == pid,
            r.comm@ == match comm {
                Some(c) => trim(c@),
                None => Seq::empty(),
            },
            r.children@ == match children {
                Some(c) => pids_in(words(c@)),
                None => Seq::empty(),
            },
            strings_view(r.cmdline@) == match cmdline {
                Some(b) => lossy_all(nul_pieces(b@)),
                None => Seq::empty(),
            },
    {
        let comm = match comm {
            Some(c) => from_chars(&trim_chars(&to_chars(c))),
            None => String::new(),
        };
        let children = match children {
            Some(c) => parse_children(c),
            None => Vec::new(),
        };
        let cmdline = match cmdline {
            Some(b) => parse_cmdline(b),
            None => {
                let v: Vec<String> = Vec::new();
                assert(strings_view(v@) =~= Seq::<Seq<char>>::empty());
                v
            },
        };
        ProcInfo { pid, comm, children, cmdline }
    }
}

/// The pane's shell pid from `display-message -p '#{pane_pid}'` output.
pub fn pane_pid(out: &str) -> (r: Option<i32>)
    ensures
        r == parse_i32(trim(out@)),
{
    parse_i32_chars(&trim_chars(&to_chars(out)))
}

/// The active pane's ssh target: empty unless an `ssh` runs within two
/// levels below the pane's shell and its argv names a destination.
pub open spec fn target_spec(t: ProcTable, pane: Option<i32>, user_at_host: bool) -> Seq<char> {
    match pane {
        None => Seq::empty(),
        Some(pid) => match find_ssh_spec(t, pid, 2) {
            Some(argv) => match ssh_target(argv, user_at_host) {
                Some(s) => s,
                None => Seq::empty(),
            },
            None => Seq::empty(),
        },
    }
}

/// The active pane's ssh target, or empty if it isn't in ssh.
pub fn target(t: &ProcTable, pane: Option<i32>, cfg: &Config) -> (r: String)
    ensures
        r@ == target_spec(*t, pane, cfg.ssh_user_at_host),
{
    let pid = match pane {
        Some(p) => p,
        None => {
            return String::new();
        },
    };
    match find_ssh(t, pid, 2) {
        Some(argv) => match parse_ssh_target(&argv, cfg.ssh_user_at_host) {
            Some(s) => s,
            None => String::new(),
        },
        None => String::new(),
    }
}

/// The command that publishes the widget as `@huma_ssh`.
pub fn update(value: &str) -> (a: Action)
    ensures
        a@ == ActionView::SetGlobal("@huma_ssh"@, value@),
{
    set_global_option("@huma_ssh", value)
}

/// A host name as it appears in argv: not an option, no user, port or path.
pub open spec fn plain_host(h: Seq<char>) -> bool {
    &&& h.len() > 0
    &&& h[0] != '-'
    &&& forall|i: int| 0 <= i < h.len() ==> h[i] != '@' && h[i] != '/' && h[i] != ':'
}

/// Every ssh option that takes a value (`-b -c -D -E -e -F -I -i -J -L -l -m
/// -O -o -p -Q -R -S -W -w`) consumes the following token: in
/// `ssh -<c> <v> <host>` the destination is `host`, never taken from `v`;
/// only `-l` contributes, as the user shown in the `user@host` form.
pub proof fn value_option_consumes_next(c: char, v: Seq<char>, host: Seq<char>, user_at_host: bool)
    requires
        c == 'b' || c == 'c' || c == 'D' || c == 'E' || c == 'e' || c == 'F' || c == 'I' || c
            == 'i' || c == 'J' || c == 'L' || c == 'l' || c == 'm' || c == 'O' || c == 'o' || c
            == 'p' || c == 'Q' || c == 'R' || c == 'S' || c == 'W' || c == 'w',
        plain_host(host),
    ensures
        ({
            let argv = seq![seq!['s', 's', 'h'], seq!['-', c], v, host];
            &&& (c != 'l' || !user_at_host || v.len() == 0) ==> ssh_target(argv, user_at_host)
                == Some(host)
            &&& (c == 'l' && user_at_host && v.len() > 0) ==> ssh_target(argv, user_at_host)
                == Some(v + seq!['@'] + host)
        }),
{
    let argv = seq![seq!['s', 's', 'h'], seq!['-', c], v, host];
    let u = if c == 'l' { Some(v) } else { None::<Seq<char>> };
    assert(argv[1] == seq!['-', c]);
    if c == 'l' {
        assert(argv[1] == dash_l());
    } else {
        assert(argv[1] != dash_l()) by {
            assert(dash_l()[1] == 'l');
        }
        assert(takes_value(argv[1]));
    }
    assert(argv[3] == host);
    assert(host != dash_l()) by {
        assert(dash_l()[0] == '-');
    }
    assert(!takes_value(host));
    assert(scan(argv, 3, u) == (u, Some(host)));
    assert(scan(argv, 1, None) == (u, Some(host)));
    assert(!is_prefix(ssh_scheme(), host)) by {
        if is_prefix(ssh_scheme(), host) {
            assert(host.subrange(0, 6)[3] == ssh_scheme()[3]);
            assert(host[3] == ':');
        }
    }
    assert(strip_scheme(host) == host);
    lemma_index_of(host, char_pred('@'), host.len() as int);
    lemma_index_of(host, host_end_pred(), host.len() as int);
    assert(host.take(host.len() as int) =~= host);
}

} // verus!
