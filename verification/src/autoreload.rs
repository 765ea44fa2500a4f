//! Config auto-reload: each daemon tick compares the watched config files'
//! modification times with the ones seen before and reports when they changed.
//!
//! The first observation only records the baseline; after that, a change of
//! any mtime (or a newly seen file) asks for a reload.
use vstd::prelude::*;
use crate::config::Config;
use crate::path::{
    chars_lt, file_name_spec, key_eq, key_less, key_lt, lemma_key_lt_irrefl, lemma_key_lt_total,
    lemma_key_lt_trans, path_key, path_key_exec,
};
use crate::text::{
    extend_chars, extend_str, from_chars, join, join_chars, slice_chars, split_trim,
    split_trim_nonempty, strings_view, to_chars, vecs_view, lemma_vecs_view_push,
};

verus! {

/// A path as `Path` compares it: its component key.
pub type PathKey = Seq<Seq<char>>;

/// One remembered mtime: the path's component key and the time.
pub open spec fn entry_view(e: (Vec<Vec<char>>, u128)) -> (PathKey, u128) {
    (vecs_view(e.0@), e.1)
}

pub open spec fn entries_view(e: Seq<(Vec<Vec<char>>, u128)>) -> Seq<(PathKey, u128)> {
    e.map_values(|x: (Vec<Vec<char>>, u128)| entry_view(x))
}

/// The map the entries describe; a later entry for a key overrides earlier ones.
pub open spec fn entries_map(e: Seq<(PathKey, u128)>) -> Map<PathKey, u128>
    decreases e.len(),
{
    if e.len() == 0 {
        Map::empty()
    } else {
        entries_map(e.drop_last()).insert(e.last().0, e.last().1)
    }
}

/// The entries without any for `k`.
pub open spec fn without_key(e: Seq<(PathKey, u128)>, k: PathKey) -> Seq<(PathKey, u128)>
    decreases e.len(),
{
    if e.len() == 0 {
        Seq::empty()
    } else {
        let f = without_key(e.drop_last(), k);
        if e.last().0 == k {
            f
        } else {
            f.push(e.last())
        }
    }
}

proof fn lemma_without_key(e: Seq<(PathKey, u128)>, k: PathKey)
    ensures
        entries_map(without_key(e, k)) == entries_map(e).remove(k),
    decreases e.len(),
{
    if e.len() > 0 {
        lemma_without_key(e.drop_last(), k);
        let f = without_key(e.drop_last(), k);
        if e.last().0 != k {
            assert(f.push(e.last()).drop_last() =~= f);
        }
        assert(entries_map(without_key(e, k)) =~= entries_map(e).remove(k));
    } else {
        assert(entries_map(e).remove(k) =~= Map::empty());
    }
}

/// The last entry for `k` at or before index `i` decides its value.
proof fn lemma_entries_map_lookup(e: Seq<(PathKey, u128)>, k: PathKey, i: int)
    requires
        -1 <= i < e.len(),
        forall|j: int| i < j < e.len() ==> e[j].0 != k,
        i >= 0 ==> e[i].0 == k,
    ensures
        i >= 0 ==> entries_map(e).contains_key(k) && entries_map(e)[k] == e[i].1,
        i < 0 ==> !entries_map(e).contains_key(k),
    decreases e.len(),
{
    if e.len() > 0 {
        if i == e.len() - 1 {
        } else {
            lemma_entries_map_lookup(e.drop_last(), k, i);
        }
    }
}

/// The modification times seen so far, keyed by path (as `Path` compares).
pub struct MtimeTable {
    entries: Vec<(Vec<Vec<char>>, u128)>,
}

impl View for MtimeTable {
    type V = Map<PathKey, u128>;

    closed spec fn view(&self) -> Map<PathKey, u128> {
        entries_map(entries_view(self.entries@))
    }
}

impl MtimeTable {
    /// Nothing seen yet.
    pub fn new() -> (t: Self)
        ensures
            t@ == Map::<PathKey, u128>::empty(),
    {
        let t = MtimeTable { entries: Vec::new() };
        assert(entries_view(t.entries@) =~= Seq::empty());
        t
    }

    /// The time recorded for the path with key `k`.
    pub fn get(&self, k: &Vec<Vec<char>>) -> (r: Option<u128>)
        ensures
            match r {
                Some(t) => self@.contains_key(vecs_view(k@)) && self@[vecs_view(k@)] == t,
                None => !self@.contains_key(vecs_view(k@)),
            },
    {
        let ghost ev = entries_view(self.entries@);
        let ghost kv = vecs_view(k@);
        let mut i: usize = self.entries.len();
        while i > 0
            invariant
                i <= self.entries.len(),
                ev == entries_view(self.entries@),
                kv == vecs_view(k@),
                forall|j: int| i <= j < ev.len() ==> ev[j].0 != kv,
            decreases i,
        {
            assert(ev[i - 1] == entry_view(self.entries@[i - 1]));
            if key_eq(&self.entries[i - 1].0, k) {
                proof {
                    lemma_entries_map_lookup(ev, kv, i - 1);
                }
                return Some(self.entries[i - 1].1);
            }
            i -= 1;
        }
        proof {
            lemma_entries_map_lookup(ev, kv, -1);
        }
        None
    }

    /// Record `t` for the path with key `k`, replacing what was recorded.
    pub fn insert(&mut self, k: Vec<Vec<char>>, t: u128)
        ensures
            final(self)@ == old(self)@.insert(vecs_view(k@), t),
    {
        let ghost ev = entries_view(self.entries@);
        let ghost kv = vecs_view(k@);
        let mut kept: Vec<(Vec<Vec<char>>, u128)> = Vec::new();
        let mut i: usize = 0;
        while i < self.entries.len()
            invariant
                i <= self.entries.len(),
                ev == entries_view(self.entries@),
                kv == vecs_view(k@),
                entries_view(kept@) == without_key(ev.take(i as int), kv),
            decreases self.entries.len() - i,
        {
            let ghost before = kept@;
            assert(ev.take(i + 1).drop_last() =~= ev.take(i as int));
            assert(ev.take(i + 1).last() == entry_view(self.entries@[i as int]));
            if !key_eq(&self.entries[i].0, &k) {
                let e = (clone_key(&self.entries[i].0), self.entries[i].1);
                kept.push(e);
                assert(entries_view(kept@) =~= entries_view(before).push(ev[i as int]));
            }
            i += 1;
        }
        assert(ev.take(i as int) =~= ev);
        proof {
            lemma_without_key(ev, kv);
        }
        let ghost kept_v = entries_view(kept@);
        kept.push((k, t));
        assert(entries_view(kept@) =~= kept_v.push((kv, t)));
        assert(entries_view(kept@).drop_last() =~= kept_v);
        self.entries = kept;
        assert(self@ =~= old(self)@.insert(kv, t));
    }
}

fn clone_key(k: &Vec<Vec<char>>) -> (r: Vec<Vec<char>>)
    ensures
        vecs_view(r@) == vecs_view(k@),
{
    let mut r: Vec<Vec<char>> = Vec::new();
    let mut i: usize = 0;
    while i < k.len()
        invariant
            i <= k.len(),
            vecs_view(r@) == vecs_view(k@).take(i as int),
        decreases k.len() - i,
    {
        let c = slice_chars(&k[i], 0, k[i].len());
        assert(c@ =~= k@[i as int]@);
        proof {
            lemma_vecs_view_push(r@, c);
        }
        r.push(c);
        assert(vecs_view(r@) =~= vecs_view(k@).take(i + 1));
        i += 1;
    }
    assert(vecs_view(k@).take(k.len() as int) =~= vecs_view(k@));
    r
}

/// A watched file and its current mtime (`None` when it cannot be read).
pub open spec fn current_view(c: Seq<(String, Option<u128>)>) -> Seq<(Seq<char>, Option<u128>)> {
    c.map_values(|e: (String, Option<u128>)| (e.0@, e.1))
}

/// Update `seen` with the current mtimes, in order, and collect the files
/// whose mtime differs from the one seen (a newly seen file counts once).
/// Files without an mtime are skipped.
pub open spec fn detect(seen: Map<PathKey, u128>, cur: Seq<(Seq<char>, Option<u128>)>) -> (
    Map<PathKey, u128>,
    Seq<Seq<char>>,
)
    decreases cur.len(),
{
    if cur.len() == 0 {
        (seen, Seq::empty())
    } else {
        let (m, changed) = detect(seen, cur.drop_last());
        let (p, mt) = cur.last();
        match mt {
            None => (m, changed),
            Some(t) => {
                let k = path_key(p);
                if m.contains_key(k) && m[k] == t {
                    (m, changed)
                } else {
                    (m.insert(k, t), changed.push(p))
                }
            },
        }
    }
}

/// Update `seen` with the current mtimes and return the files whose mtime
/// changed (a newly-seen file with an mtime counts as changed once).
pub fn detect_changes(seen: &mut MtimeTable, current: &[(String, Option<u128>)]) -> (changed: Vec<
    String,
>)
    ensures
        (final(seen)@, strings_view(changed@)) == detect(old(seen)@, current_view(current@)),
{
    let ghost cv = current_view(current@);
    let ghost start = seen@;
    let mut changed: Vec<String> = Vec::new();
    let mut i: usize = 0;
    while i < current.len()
        invariant
            i <= current.len(),
            cv == current_view(current@),
            start == old(seen)@,
            (seen@, strings_view(changed@)) == detect(start, cv.take(i as int)),
        decreases current.len() - i,
    {
        assert(cv.take(i + 1).drop_last() =~= cv.take(i as int));
        assert(cv.take(i + 1).last() == (current@[i as int].0@, current@[i as int].1));
        let (path, mt) = (&current[i].0, current[i].1);
        match mt {
            None => {},
            Some(t) => {
                let k = path_key_exec(&to_chars(path.as_str()));
                let differs = match seen.get(&k) {
                    Some(prev) => prev != t,
                    None => true,
                };
                if differs {
                    let ghost before = changed@;
                    seen.insert(k, t);
                    changed.push(path.clone());
                    assert(strings_view(changed@) =~= strings_view(before).push(path@));
                }
            },
        }
        i += 1;
    }
    assert(cv.take(i as int) =~= cv);
    changed
}

/// Polls the watched files once per daemon tick.
pub struct Watcher {
    pub seen: MtimeTable,
    pub primed: bool,
}

impl Watcher {
    /// Nothing seen, not yet primed.
    pub fn new() -> (w: Self)
        ensures
            w.seen@ == Map::<PathKey, u128>::empty(),
            !w.primed,
    {
        Watcher { seen: MtimeTable::new(), primed: false }
    }

    /// One poll cycle over the watched files' current mtimes; returns whether
    /// the files must be re-sourced. With autoreload off nothing changes.
    /// Otherwise the mtimes are recorded, and a reload is due when some file
    /// changed, except on the very first cycle, which only records the baseline.
    pub fn tick(&mut self, cfg: &Config, current: &[(String, Option<u128>)]) -> (reload: bool)
        ensures
            !cfg.autoreload ==> final(self).seen@ == old(self).seen@ && final(self).primed
                == old(self).primed && !reload,
            cfg.autoreload ==> ({
                let (m, changed) = detect(old(self).seen@, current_view(current@));
                &&& final(self).seen@ == m
                &&& final(self).primed
                &&& reload == (old(self).primed && changed.len() > 0)
            }),
    {
        if !cfg.autoreload {
            return false;
        }
        let changed = detect_changes(&mut self.seen, current);
        if !self.primed {
            self.primed = true;
            return false;
        }
        changed.len() > 0
    }
}



/// The configuration files reported by tmux (`#{config_files}`, a comma
/// list) followed by `@huma-autoreload-configs`.
pub open spec fn watch_list(config_files: Seq<char>, cfg: Config) -> Seq<Seq<char>> {
    split_trim_nonempty(config_files, ',') + strings_view(cfg.autoreload_configs@)
}

/// `l[a]` is the first path in `l` with its component key.
pub open spec fn first_of_key(l: Seq<Seq<char>>, a: int) -> bool {
    forall|b: int| 0 <= b < a ==> path_key(#[trigger] l[b]) != path_key(l[a])
}

/// `r` is `l` sorted by path and deduplicated, as sorting and then
/// deduplicating `PathBuf`s does: strictly increasing by path, every path of
/// `l` present, each kept entry being the first spelling of its path in `l`.
pub open spec fn sorted_unique_paths(l: Seq<Seq<char>>, r: Seq<Seq<char>>) -> bool {
    &&& keys_sorted(r)
    &&& covers(r, l, l.len() as int)
    &&& sourced(r, l, l.len() as int)
}

/// Strictly increasing by path.
pub open spec fn keys_sorted(r: Seq<Seq<char>>) -> bool {
    forall|i: int, j: int|
        0 <= i < j < r.len() ==> key_lt(path_key(#[trigger] r[i]), path_key(#[trigger] r[j]))
}

/// Some entry of `r` has the path key `k`.
pub open spec fn has_path(r: Seq<Seq<char>>, k: PathKey) -> bool {
    exists|i: int| 0 <= i < r.len() && path_key(#[trigger] r[i]) == k
}

/// `x` is, among `l[..a]`, the first spelling of its path.
pub open spec fn first_spelling(l: Seq<Seq<char>>, a: int, x: Seq<char>) -> bool {
    exists|b: int| 0 <= b < a && #[trigger] l[b] == x && first_of_key(l, b)
}

/// Every path among `l[..a]` is in `r`.
pub open spec fn covers(r: Seq<Seq<char>>, l: Seq<Seq<char>>, a: int) -> bool {
    forall|b: int| 0 <= b < a ==> has_path(r, path_key(#[trigger] l[b]))
}

/// Every entry of `r` is the first spelling in `l[..a]` of its path.
pub open spec fn sourced(r: Seq<Seq<char>>, l: Seq<Seq<char>>, a: int) -> bool {
    forall|i: int| 0 <= i < r.len() ==> first_spelling(l, a, #[trigger] r[i])
}

/// `covers`, with `pos[b]` the index in `r` of `l[b]`'s path.
spec fn covers_at(r: Seq<Seq<char>>, l: Seq<Seq<char>>, a: int, pos: Seq<int>) -> bool {
    &&& pos.len() == a
    &&& forall|b: int|
        0 <= b < a ==> 0 <= #[trigger] pos[b] < r.len() && path_key(r[pos[b]]) == path_key(l[b])
}

/// `sourced`, with `src[i]` the index in `l` that `r[i]` came from.
spec fn sourced_at(r: Seq<Seq<char>>, l: Seq<Seq<char>>, a: int, src: Seq<int>) -> bool {
    &&& src.len() == r.len()
    &&& forall|i: int|
        0 <= i < r.len() ==> 0 <= #[trigger] src[i] < a && r[i] == l[src[i]] && first_of_key(
            l,
            src[i],
        )
}

proof fn lemma_done(r: Seq<Seq<char>>, l: Seq<Seq<char>>, pos: Seq<int>, src: Seq<int>)
    requires
        covers_at(r, l, l.len() as int, pos),
        sourced_at(r, l, l.len() as int, src),
    ensures
        covers(r, l, l.len() as int),
        sourced(r, l, l.len() as int),
{
    assert forall|b: int| 0 <= b < l.len() implies has_path(r, path_key(#[trigger] l[b])) by {
        let i = pos[b];
        assert(0 <= i < r.len() && path_key(r[i]) == path_key(l[b]));
    }
    assert forall|i: int| 0 <= i < r.len() implies first_spelling(l, l.len() as int, #[trigger] r[i]) by {
        let b = src[i];
        assert(0 <= b < l.len() && l[b] == r[i] && first_of_key(l, b));
    }
}

/// Inserting `l[a]` at `j`, where everything before `j` is smaller and
/// nothing from `j` on is smaller or equal, keeps all three properties.
proof fn lemma_insert(r: Seq<Seq<char>>, l: Seq<Seq<char>>, a: int, j: int, pos: Seq<int>, src: Seq<int>) -> (res: (Seq<int>, Seq<int>))
    requires
        0 <= a < l.len(),
        0 <= j <= r.len(),
        forall|t: int| 0 <= t < j ==> key_lt(path_key(#[trigger] r[t]), path_key(l[a])),
        j < r.len() ==> !key_lt(path_key(r[j]), path_key(l[a])) && path_key(r[j]) != path_key(
            l[a],
        ),
        keys_sorted(r),
        covers_at(r, l, a, pos),
        sourced_at(r, l, a, src),
    ensures
        keys_sorted(r.insert(j, l[a])),
        covers_at(r.insert(j, l[a]), l, a + 1, res.0),
        sourced_at(r.insert(j, l[a]), l, a + 1, res.1),
{
    let kv = path_key(l[a]);
    let nv = r.insert(j, l[a]);
    assert forall|i: int| j <= i < r.len() implies key_lt(kv, path_key(#[trigger] r[i])) by {
        lemma_key_lt_total(path_key(r[j]), kv);
        if i > j {
            assert(key_lt(path_key(r[j]), path_key(r[i])));
            lemma_key_lt_trans(kv, path_key(r[j]), path_key(r[i]));
        }
    }
    assert forall|i: int| 0 <= i < r.len() implies path_key(#[trigger] r[i]) != kv by {
        lemma_key_lt_irrefl(kv);
        if i >= j {
            assert(key_lt(kv, path_key(r[i])));
        }
    }
    assert forall|i: int, i2: int| 0 <= i < i2 < nv.len() implies key_lt(
        path_key(#[trigger] nv[i]),
        path_key(#[trigger] nv[i2]),
    ) by {
        if i2 < j {
            assert(nv[i] == r[i] && nv[i2] == r[i2]);
        } else if i2 == j {
            assert(nv[i] == r[i] && nv[i2] == l[a]);
        } else if i == j {
            assert(nv[i] == l[a] && nv[i2] == r[i2 - 1]);
        } else if i < j {
            assert(nv[i] == r[i] && nv[i2] == r[i2 - 1]);
            lemma_key_lt_trans(path_key(r[i]), kv, path_key(r[i2 - 1]));
        } else {
            assert(nv[i] == r[i - 1] && nv[i2] == r[i2 - 1]);
        }
    }
    let pos2 = Seq::new(
        (a + 1) as nat,
        |b: int|
            if b < a {
                if pos[b] >= j {
                    pos[b] + 1
                } else {
                    pos[b]
                }
            } else {
                j
            },
    );
    assert forall|b: int| 0 <= b < a + 1 implies 0 <= #[trigger] pos2[b] < nv.len() && path_key(
        nv[pos2[b]],
    ) == path_key(l[b]) by {
        if b < a {
            if pos[b] >= j {
                assert(nv[pos[b] + 1] == r[pos[b]]);
            } else {
                assert(nv[pos[b]] == r[pos[b]]);
            }
        } else {
            assert(nv[j] == l[a]);
        }
    }
    assert forall|b: int| 0 <= b < a implies path_key(#[trigger] l[b]) != kv by {
        assert(path_key(r[pos[b]]) == path_key(l[b]));
    }
    assert(first_of_key(l, a));
    let src2 = src.insert(j, a);
    assert forall|i: int| 0 <= i < nv.len() implies 0 <= #[trigger] src2[i] < a + 1 && nv[i]
        == l[src2[i]] && first_of_key(l, src2[i]) by {
        if i == j {
        } else if i < j {
            assert(nv[i] == r[i] && src2[i] == src[i]);
        } else {
            assert(nv[i] == r[i - 1] && src2[i] == src[i - 1]);
        }
    }
    (pos2, src2)
}

/// The files to watch: tmux's config files plus the extra ones, sorted and
/// deduplicated as paths. `config_files` is what
/// `display-message -p '#{config_files}'` printed (empty if it failed).
pub fn watched_files(config_files: &str, cfg: &Config) -> (r: Vec<String>)
    ensures
        sorted_unique_paths(watch_list(config_files@, *cfg), strings_view(r@)),
{
    let mut l = split_trim(config_files, ',');
    let mut e: usize = 0;
    let ghost first = strings_view(l@);
    while e < cfg.autoreload_configs.len()
        invariant
            e <= cfg.autoreload_configs.len(),
            strings_view(l@) == first + strings_view(cfg.autoreload_configs@).take(e as int),
        decreases cfg.autoreload_configs.len() - e,
    {
        proof {
            crate::text::lemma_strings_view_push(l@, cfg.autoreload_configs@[e as int]);
        }
        l.push(cfg.autoreload_configs[e].clone());
        assert(strings_view(cfg.autoreload_configs@).take(e + 1) =~= strings_view(
            cfg.autoreload_configs@,
        ).take(e as int).push(cfg.autoreload_configs@[e as int]@));
        e += 1;
    }
    assert(strings_view(cfg.autoreload_configs@).take(e as int) =~= strings_view(
        cfg.autoreload_configs@,
    ));
    let ghost lv = strings_view(l@);
    assert(lv == watch_list(config_files@, *cfg));
    let mut r: Vec<String> = Vec::new();
    let mut a: usize = 0;
    let ghost mut pos: Seq<int> = Seq::empty();
    let ghost mut src: Seq<int> = Seq::empty();
    while a < l.len()
        invariant
            a <= l.len(),
            lv == strings_view(l@),
            keys_sorted(strings_view(r@)),
            covers_at(strings_view(r@), lv, a as int, pos),
            sourced_at(strings_view(r@), lv, a as int, src),
        decreases l.len() - a,
    {
        let ghost rv = strings_view(r@);
        let k = path_key_exec(&to_chars(l[a].as_str()));
        let ghost kv = vecs_view(k@);
        assert(kv == path_key(lv[a as int]));
        let mut j: usize = 0;
        let mut go = true;
        while go && j < r.len()
            invariant
                j <= r.len(),
                rv == strings_view(r@),
                kv == vecs_view(k@),
                forall|t: int| 0 <= t < j ==> key_lt(path_key(#[trigger] rv[t]), kv),
                !go ==> j < r.len() && !key_lt(path_key(rv[j as int]), kv),
            decreases r.len() - j + (if go { 1int } else { 0int }),
        {
            let kj = path_key_exec(&to_chars(r[j].as_str()));
            assert(vecs_view(kj@) == path_key(rv[j as int]));
            if key_less(&kj, &k) {
                j += 1;
            } else {
                go = false;
            }
        }
        let mut dup = false;
        if j < r.len() {
            let kj = path_key_exec(&to_chars(r[j].as_str()));
            assert(vecs_view(kj@) == path_key(rv[j as int]));
            dup = key_eq(&kj, &k);
        }
        if dup {
            proof {
                assert(path_key(rv[j as int]) == path_key(lv[a as int]));
                pos = pos.push(j as int);
            }
        } else {
            proof {
                let (p2, s2) = lemma_insert(rv, lv, a as int, j as int, pos, src);
                pos = p2;
                src = s2;
            }
            r.insert(j, l[a].clone());
            assert(strings_view(r@) =~= rv.insert(j as int, lv[a as int]));
        }
        a += 1;
    }
    proof {
        lemma_done(strings_view(r@), lv, pos, src);
    }
    r
}

/// The arguments of the `source-file` command that reloads `files`.
pub open spec fn reload_args_spec(files: Seq<Seq<char>>) -> Seq<Seq<char>> {
    seq!["source-file"@] + files
}

pub fn reload_args(files: &[String]) -> (r: Vec<String>)
    ensures
        strings_view(r@) == reload_args_spec(strings_view(files@)),
{
    let mut r: Vec<String> = Vec::new();
    r.push("source-file".to_owned());
    let mut i: usize = 0;
    while i < files.len()
        invariant
            i <= files.len(),
            strings_view(r@) == seq!["source-file"@] + strings_view(files@).take(i as int),
        decreases files.len() - i,
    {
        proof {
            crate::text::lemma_strings_view_push(r@, files@[i as int]);
        }
        r.push(files[i].clone());
        assert(strings_view(files@).take(i + 1) =~= strings_view(files@).take(i as int).push(
            files@[i as int]@,
        ));
        i += 1;
    }
    assert(strings_view(files@).take(i as int) =~= strings_view(files@));
    r
}

/// The file names (`Path::file_name`) of `files` that have one, in order.
pub open spec fn file_names(files: Seq<Seq<char>>) -> Seq<Seq<char>>
    decreases files.len(),
{
    if files.len() == 0 {
        Seq::empty()
    } else {
        let rest = file_names(files.drop_last());
        match file_name_spec(files.last()) {
            Some(n) => rest.push(n),
            None => rest,
        }
    }
}

/// `Path::file_name`.
pub fn file_name(path: &str) -> (r: Option<String>)
    ensures
        match r {
            Some(n) => file_name_spec(path@) == Some(n@),
            None => file_name_spec(path@) is None,
        },
{
    let k = path_key_exec(&to_chars(path));
    if k.len() > 0 {
        let last = &k[k.len() - 1];
        assert(vecs_view(k@).last() == last@);
        if last.len() > 0 && last[0] == '\u{4}' {
            let n = slice_chars(last, 1, last.len());
            assert(n@ =~= last@.drop_first());
            return Some(from_chars(&n));
        }
    }
    None
}

/// The notice shown when the reload failed: `huma: reload error: <why>`.
pub fn reload_error(why: &str) -> (r: String)
    ensures
        r@ == "huma: reload error: "@ + why@,
{
    let mut out = to_chars("huma: reload error: ");
    extend_str(&mut out, why);
    from_chars(&out)
}

/// The confirmation shown after a reload: `huma: reloaded <names>`.
pub open spec fn reload_message_spec(files: Seq<Seq<char>>) -> Seq<char> {
    "huma: reloaded "@ + join(file_names(files), seq![',', ' '])
}

pub fn reload_message(files: &[String]) -> (r: String)
    ensures
        r@ == reload_message_spec(strings_view(files@)),
{
    let mut names: Vec<Vec<char>> = Vec::new();
    let mut i: usize = 0;
    while i < files.len()
        invariant
            i <= files.len(),
            vecs_view(names@) == file_names(strings_view(files@).take(i as int)),
        decreases files.len() - i,
    {
        assert(strings_view(files@).take(i + 1).drop_last() =~= strings_view(files@).take(
            i as int,
        ));
        assert(strings_view(files@).take(i + 1).last() == files@[i as int]@);
        match file_name(files[i].as_str()) {
            Some(n) => {
                let c = to_chars(n.as_str());
                proof {
                    lemma_vecs_view_push(names@, c);
                }
                names.push(c);
            },
            None => {},
        }
        i += 1;
    }
    assert(strings_view(files@).take(i as int) =~= strings_view(files@));
    let sep = to_chars(", ");
    proof {
        reveal_strlit(", ");
        assert(sep@ =~= seq![',', ' ']);
    }
    let mut out = to_chars("huma: reloaded ");
    extend_chars(&mut out, &join_chars(&names, &sep));
    from_chars(&out)
}

/// No path key occurs twice among the entries that carry an mtime.
pub open spec fn distinct_paths(cur: Seq<(Seq<char>, Option<u128>)>) -> bool {
    forall|i: int, j: int|
        0 <= i < j < cur.len() && cur[i].1 is Some && cur[j].1 is Some ==> path_key(
            #[trigger] cur[i].0,
        ) != path_key(#[trigger] cur[j].0)
}

/// After a poll, every file polled with an mtime is recorded with that mtime.
proof fn lemma_detect_records(seen: Map<PathKey, u128>, cur: Seq<(Seq<char>, Option<u128>)>)
    requires
        distinct_paths(cur),
    ensures
        forall|i: int|
            0 <= i < cur.len() && #[trigger] cur[i].1 is Some ==> detect(seen, cur).0.contains_key(
                path_key(cur[i].0),
            ) && detect(seen, cur).0[path_key(cur[i].0)] == cur[i].1->0,
    decreases cur.len(),
{
    if cur.len() > 0 {
        let pre = cur.drop_last();
        assert forall|i: int, j: int|
            0 <= i < j < pre.len() && pre[i].1 is Some && pre[j].1 is Some implies path_key(
            #[trigger] pre[i].0,
        ) != path_key(#[trigger] pre[j].0) by {
            assert(pre[i] == cur[i] && pre[j] == cur[j]);
        }
        lemma_detect_records(seen, pre);
        assert forall|i: int|
            0 <= i < cur.len() && #[trigger] cur[i].1 is Some implies detect(
            seen,
            cur,
        ).0.contains_key(path_key(cur[i].0)) && detect(seen, cur).0[path_key(cur[i].0)]
            == cur[i].1->0 by {
            if i < cur.len() - 1 {
                assert(pre[i] == cur[i]);
                if cur.last().1 is Some {
                    assert(path_key(cur[i].0) != path_key(cur[cur.len() - 1].0));
                }
            }
        }
    }
}

/// Polling the same mtimes again reports nothing and records nothing new.
proof fn lemma_detect_unchanged(m: Map<PathKey, u128>, cur: Seq<(Seq<char>, Option<u128>)>)
    requires
        forall|i: int|
            0 <= i < cur.len() && #[trigger] cur[i].1 is Some ==> m.contains_key(
                path_key(cur[i].0),
            ) && m[path_key(cur[i].0)] == cur[i].1->0,
    ensures
        detect(m, cur) == (m, Seq::<Seq<char>>::empty()),
    decreases cur.len(),
{
    if cur.len() > 0 {
        let pre = cur.drop_last();
        assert forall|i: int| 0 <= i < pre.len() && #[trigger] pre[i].1 is Some implies m.contains_key(
            path_key(pre[i].0),
        ) && m[path_key(pre[i].0)] == pre[i].1->0 by {
            assert(pre[i] == cur[i]);
        }
        lemma_detect_unchanged(m, pre);
        if cur.last().1 is Some {
            assert(cur[cur.len() - 1].1 is Some);
        }
    }
}

/// A change is reported once: polling files (each path once) whose mtimes
/// have not moved since the previous poll reports no change and leaves the
/// recorded mtimes as they are.
pub proof fn change_reported_once(seen: Map<PathKey, u128>, cur: Seq<(Seq<char>, Option<u128>)>)
    requires
        distinct_paths(cur),
    ensures
        detect(detect(seen, cur).0, cur) == (detect(seen, cur).0, Seq::<Seq<char>>::empty()),
{
    lemma_detect_records(seen, cur);
    lemma_detect_unchanged(detect(seen, cur).0, cur);
}

/// A file without an mtime (missing, unreadable) never counts as changed and
/// records nothing: polling with or without it gives the same outcome.
pub proof fn missing_mtime_ignored(seen: Map<PathKey, u128>, cur: Seq<(Seq<char>, Option<u128>)>, k: int)
    requires
        0 <= k < cur.len(),
        cur[k].1 is None,
    ensures
        detect(seen, cur) == detect(seen, cur.remove(k)),
    decreases cur.len(),
{
    if k == cur.len() - 1 {
        assert(cur.remove(k) =~= cur.drop_last());
    } else {
        missing_mtime_ignored(seen, cur.drop_last(), k);
        assert(cur.remove(k).drop_last() =~= cur.drop_last().remove(k));
        assert(cur.remove(k).last() == cur.last());
    }
}

/// The watched files name each path once, so polling them meets
/// `change_reported_once`'s condition.
pub proof fn watched_paths_distinct(l: Seq<Seq<char>>, r: Seq<Seq<char>>)
    requires
        sorted_unique_paths(l, r),
    ensures
        forall|i: int, j: int|
            0 <= i < j < r.len() ==> path_key(#[trigger] r[i]) != path_key(#[trigger] r[j]),
{
    assert forall|i: int, j: int| 0 <= i < j < r.len() implies path_key(#[trigger] r[i])
        != path_key(#[trigger] r[j]) by {
        assert(key_lt(path_key(r[i]), path_key(r[j])));
        lemma_key_lt_irrefl(path_key(r[i]));
    }
}

} // verus!
