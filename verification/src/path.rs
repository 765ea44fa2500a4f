//! Unix paths compared the way `std::path::Path` compares them: by their
//! components, so `/a//b/` and `/a/./b` are the same path, and ordered
//! component by component.
//!
//! A path's key is its sequence of components, each encoded as a character
//! sequence whose first character is a tag in component order
//! (root < current dir < parent dir < normal) followed, for a normal
//! component, by its name. Comparing keys lexicographically then orders
//! paths exactly as `Path`'s `Ord` does.
use vstd::prelude::*;
use crate::text::{
    char_pred, extend_chars, find_char, index_of, lemma_index_of_bounds, slice_chars, vecs_view,
};

verus! {

pub open spec fn tag_root() -> char {
    '\u{1}'
}

pub open spec fn tag_cur() -> char {
    '\u{2}'
}

pub open spec fn tag_parent() -> char {
    '\u{3}'
}

pub open spec fn tag_normal() -> char {
    '\u{4}'
}

/// The leading component: root for an absolute path, current dir for a
/// relative path that starts with `.` followed by `/` or the end.
pub open spec fn front_comps(s: Seq<char>) -> Seq<Seq<char>> {
    if s.len() > 0 && s[0] == '/' {
        seq![seq![tag_root()]]
    } else if s.len() > 0 && s[0] == '.' && (s.len() == 1 || s[1] == '/') {
        seq![seq![tag_cur()]]
    } else {
        Seq::empty()
    }
}

/// A `/`-separated piece as a component: empty pieces and `.` vanish,
/// `..` is the parent dir, anything else a normal component.
pub open spec fn piece_comp(p: Seq<char>) -> Option<Seq<char>> {
    if p.len() == 0 || p == seq!['.'] {
        None
    } else if p == seq!['.', '.'] {
        Some(seq![tag_parent()])
    } else {
        Some(seq![tag_normal()] + p)
    }
}

/// The components of the pieces of `s` between slashes.
pub open spec fn body_comps(s: Seq<char>) -> Seq<Seq<char>>
    decreases s.len(),
{
    let k = index_of(s, char_pred('/'));
    let tail = if k < s.len() {
        body_comps(s.skip(k + 1 as int))
    } else {
        Seq::empty()
    };
    match piece_comp(s.take(k as int)) {
        Some(c) => seq![c] + tail,
        None => tail,
    }
}

/// `Path::components`, encoded.
#[verifier::opaque]
pub open spec fn path_key(s: Seq<char>) -> Seq<Seq<char>> {
    front_comps(s) + body_comps(s)
}

/// `Path::file_name`: the last component when it is a normal one.
pub open spec fn file_name_spec(s: Seq<char>) -> Option<Seq<char>> {
    let k = path_key(s);
    if k.len() > 0 && k.last().len() > 0 && k.last()[0] == tag_normal() {
        Some(k.last().drop_first())
    } else {
        None
    }
}

/// Lexicographic order on character sequences (code point by code point,
/// which is also the order of their UTF-8 bytes).
pub open spec fn chars_lt(a: Seq<char>, b: Seq<char>) -> bool
    decreases a.len(),
{
    if a.len() == 0 {
        b.len() > 0
    } else if b.len() == 0 {
        false
    } else if a[0] != b[0] {
        a[0] < b[0]
    } else {
        chars_lt(a.drop_first(), b.drop_first())
    }
}

/// Lexicographic order on component sequences: the order of `Path`.
pub open spec fn key_lt(a: Seq<Seq<char>>, b: Seq<Seq<char>>) -> bool
    decreases a.len(),
{
    if a.len() == 0 {
        b.len() > 0
    } else if b.len() == 0 {
        false
    } else if a[0] != b[0] {
        chars_lt(a[0], b[0])
    } else {
        key_lt(a.drop_first(), b.drop_first())
    }
}

pub proof fn lemma_chars_lt_irrefl(a: Seq<char>)
    ensures
        !chars_lt(a, a),
    decreases a.len(),
{
    if a.len() > 0 {
        lemma_chars_lt_irrefl(a.drop_first());
    }
}

pub proof fn lemma_chars_lt_trans(a: Seq<char>, b: Seq<char>, c: Seq<char>)
    requires
        chars_lt(a, b),
        chars_lt(b, c),
    ensures
        chars_lt(a, c),
    decreases a.len(),
{
    if a.len() > 0 && b.len() > 0 && c.len() > 0 {
        if a[0] == b[0] && b[0] == c[0] {
            lemma_chars_lt_trans(a.drop_first(), b.drop_first(), c.drop_first());
        }
    }
}

pub proof fn lemma_chars_lt_total(a: Seq<char>, b: Seq<char>)
    ensures
        a == b || chars_lt(a, b) || chars_lt(b, a),
    decreases a.len(),
{
    if a.len() > 0 && b.len() > 0 && a[0] == b[0] {
        lemma_chars_lt_total(a.drop_first(), b.drop_first());
        if a.drop_first() == b.drop_first() {
            assert(a =~= seq![a[0]] + a.drop_first());
            assert(b =~= seq![b[0]] + b.drop_first());
        }
    } else if a.len() == 0 && b.len() == 0 {
        assert(a =~= b);
    }
}

pub proof fn lemma_key_lt_irrefl(a: Seq<Seq<char>>)
    ensures
        !key_lt(a, a),
    decreases a.len(),
{
    if a.len() > 0 {
        lemma_key_lt_irrefl(a.drop_first());
    }
}

pub proof fn lemma_key_lt_trans(a: Seq<Seq<char>>, b: Seq<Seq<char>>, c: Seq<Seq<char>>)
    requires
        key_lt(a, b),
        key_lt(b, c),
    ensures
        key_lt(a, c),
    decreases a.len(),
{
    if a.len() > 0 && b.len() > 0 && c.len() > 0 {
        if a[0] == b[0] && b[0] == c[0] {
            lemma_key_lt_trans(a.drop_first(), b.drop_first(), c.drop_first());
        } else if a[0] != b[0] && b[0] != c[0] {
            lemma_chars_lt_trans(a[0], b[0], c[0]);
            if a[0] == c[0] {
                lemma_chars_lt_irrefl(a[0]);
            }
        }
    }
}

pub proof fn lemma_key_lt_total(a: Seq<Seq<char>>, b: Seq<Seq<char>>)
    ensures
        a == b || key_lt(a, b) || key_lt(b, a),
    decreases a.len(),
{
    if a.len() > 0 && b.len() > 0 {
        if a[0] == b[0] {
            lemma_key_lt_total(a.drop_first(), b.drop_first());
            if a.drop_first() == b.drop_first() {
                assert(a =~= seq![a[0]] + a.drop_first());
                assert(b =~= seq![b[0]] + b.drop_first());
            }
        } else {
            lemma_chars_lt_total(a[0], b[0]);
        }
    } else if a.len() == 0 && b.len() == 0 {
        assert(a =~= b);
    }
}

/// Whether `a` sorts before `b`.
pub fn chars_less(a: &[char], b: &[char]) -> (r: bool)
    ensures
        r == chars_lt(a@, b@),
{
    let mut i: usize = 0;
    assert(a@.skip(0) =~= a@);
    assert(b@.skip(0) =~= b@);
    loop
        invariant
            i <= a.len(),
            i <= b.len(),
            chars_lt(a@, b@) == chars_lt(a@.skip(i as int), b@.skip(i as int)),
        decreases a.len() - i,
    {
        if i == a.len() {
            return i < b.len();
        }
        if i == b.len() {
            return false;
        }
        if a[i] != b[i] {
            return a[i] < b[i];
        }
        assert(a@.skip(i as int).drop_first() =~= a@.skip(i + 1));
        assert(b@.skip(i as int).drop_first() =~= b@.skip(i + 1));
        i += 1;
    }
}

/// Whether the path with key `a` sorts before the one with key `b`.
pub fn key_less(a: &Vec<Vec<char>>, b: &Vec<Vec<char>>) -> (r: bool)
    ensures
        r == key_lt(vecs_view(a@), vecs_view(b@)),
{
    let ghost av = vecs_view(a@);
    let ghost bv = vecs_view(b@);
    let mut i: usize = 0;
    assert(av.skip(0) =~= av);
    assert(bv.skip(0) =~= bv);
    loop
        invariant
            av == vecs_view(a@),
            bv == vecs_view(b@),
            i <= a.len(),
            i <= b.len(),
            key_lt(av, bv) == key_lt(av.skip(i as int), bv.skip(i as int)),
        decreases a.len() - i,
    {
        if i == a.len() {
            return i < b.len();
        }
        if i == b.len() {
            return false;
        }
        assert(av[i as int] == a@[i as int]@);
        assert(bv[i as int] == b@[i as int]@);
        if !crate::text::chars_eq(&a[i], &b[i]) {
            return chars_less(&a[i], &b[i]);
        }
        assert(av.skip(i as int).drop_first() =~= av.skip(i + 1));
        assert(bv.skip(i as int).drop_first() =~= bv.skip(i + 1));
        i += 1;
    }
}

/// Component-wise equality of two keys.
pub fn key_eq(a: &Vec<Vec<char>>, b: &Vec<Vec<char>>) -> (r: bool)
    ensures
        r == (vecs_view(a@) == vecs_view(b@)),
{
    if a.len() != b.len() {
        assert(vecs_view(a@).len() != vecs_view(b@).len());
        return false;
    }
    let mut i: usize = 0;
    while i < a.len()
        invariant
            a.len() == b.len(),
            i <= a.len(),
            forall|j: int| 0 <= j < i ==> a@[j]@ == b@[j]@,
        decreases a.len() - i,
    {
        if !crate::text::chars_eq(&a[i], &b[i]) {
            assert(vecs_view(a@)[i as int] != vecs_view(b@)[i as int]);
            return false;
        }
        i += 1;
    }
    assert(vecs_view(a@) =~= vecs_view(b@));
    true
}

fn piece_comp_exec(p: &[char]) -> (r: Option<Vec<char>>)
    ensures
        match r {
            Some(c) => piece_comp(p@) == Some(c@),
            None => piece_comp(p@) is None,
        },
{
    if p.len() == 0 || (p.len() == 1 && p[0] == '.') {
        assert(p.len() == 1 ==> p@ =~= seq![p@[0]]);
        return None;
    }
    if p.len() == 2 && p[0] == '.' && p[1] == '.' {
        assert(p@ =~= seq!['.', '.']);
        let mut c: Vec<char> = Vec::new();
        c.push('\u{3}');
        assert(c@ =~= seq![tag_parent()]);
        return Some(c);
    }
    assert(p@ != seq!['.']) by {
        if p@ == seq!['.'] {
            assert(p@.len() == 1);
        }
    }
    assert(p@ != seq!['.', '.']) by {
        if p@ == seq!['.', '.'] {
            assert(p@.len() == 2 && p@[0] == '.' && p@[1] == '.');
        }
    }
    let mut c: Vec<char> = Vec::new();
    c.push('\u{4}');
    extend_chars(&mut c, p);
    assert(c@ =~= seq![tag_normal()] + p@);
    Some(c)
}

/// The component key of a path (`Path::components`).
pub fn path_key_exec(s: &[char]) -> (r: Vec<Vec<char>>)
    ensures
        vecs_view(r@) == path_key(s@),
{
    reveal(path_key);
    let mut out: Vec<Vec<char>> = Vec::new();
    if s.len() > 0 && s[0] == '/' {
        let mut c: Vec<char> = Vec::new();
        c.push('\u{1}');
        out.push(c);
        assert(vecs_view(out@) =~= seq![seq![tag_root()]]);
    } else if s.len() > 0 && s[0] == '.' && (s.len() == 1 || s[1] == '/') {
        let mut c: Vec<char> = Vec::new();
        c.push('\u{2}');
        out.push(c);
        assert(vecs_view(out@) =~= seq![seq![tag_cur()]]);
    } else {
        assert(vecs_view(out@) =~= Seq::<Seq<char>>::empty());
    }
    assert(vecs_view(out@) == front_comps(s@));
    let mut rest = slice_chars(s, 0, s.len());
    assert(rest@ =~= s@);
    loop
        invariant
            vecs_view(out@) + body_comps(rest@) == path_key(s@),
        decreases rest.len(),
    {
        proof {
            lemma_index_of_bounds(rest@, char_pred('/'));
        }
        let k = find_char(&rest, '/');
        let piece = slice_chars(&rest, 0, k);
        assert(piece@ =~= rest@.take(k as int));
        let ghost before = out@;
        match piece_comp_exec(&piece) {
            Some(c) => {
                out.push(c);
                assert(vecs_view(out@) =~= vecs_view(before) + seq![piece_comp(piece@)->0]);
            },
            None => {},
        }
        if k == rest.len() {
            assert(vecs_view(out@) =~= vecs_view(out@) + Seq::<Seq<char>>::empty());
            return out;
        }
        let next = slice_chars(&rest, k + 1, rest.len());
        assert(next@ =~= rest@.skip(k + 1 as int));
        rest = next;
    }
}

} // verus!
