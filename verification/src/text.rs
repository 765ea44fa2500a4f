//! Character-level text helpers shared by every widget: conversion between
//! `str`/`String` and `Vec<char>`, Unicode whitespace trimming, decimal
//! rendering and the integer parsing rules of `str::parse`.
use vstd::prelude::*;
use vstd::utf8::{decode_utf8, valid_utf8};

verus! {

/// Appends one character to a `String` (std's `String::push`).
#[verifier::external_body]
pub(crate) fn push_char(s: &mut String, c: char)
    ensures
        final(s)@ == old(s)@.push(c),
{
    s.push(c);
}

/// `String::from_utf8_lossy`'s text for `b`.
pub uninterp spec fn utf8_lossy(b: Seq<u8>) -> Seq<char>;

/// `String::from_utf8_lossy(b)`: `b` decoded as UTF-8, each invalid sequence
/// replaced by U+FFFD. Stated: the result is a function of `b`, and for
/// valid UTF-8 it is the plain decoding; the replacement of invalid
/// sequences is left unstated.
#[verifier::external_body]
pub(crate) fn lossy(b: &[u8]) -> (r: String)
    ensures
        r@ == utf8_lossy(b@),
        valid_utf8(b@) ==> r@ == decode_utf8(b@),
{
    String::from_utf8_lossy(b).into_owned()
}

/// The characters of `s`, in order.
pub fn to_chars(s: &str) -> (v: Vec<char>)
    ensures
        v@ == s@,
{
    let mut v: Vec<char> = Vec::new();
    for c in it: s.chars()
        invariant
            v@ == it.seq().take(it.index() as int),
            it.seq() == s@,
    {
        v.push(c);
    }
    v
}

/// A `String` holding exactly the characters of `v`.
pub fn from_chars(v: &[char]) -> (s: String)
    ensures
        s@ == v@,
{
    let mut s = String::new();
    let mut i: usize = 0;
    while i < v.len()
        invariant
            i <= v.len(),
            s@ == v@.take(i as int),
        decreases v.len() - i,
    {
        push_char(&mut s, v[i]);
        assert(v@.take(i + 1) =~= v@.take(i as int).push(v@[i as int]));
        i += 1;
    }
    assert(v@.take(v.len() as int) =~= v@);
    s
}

/// Appends all of `src` to `dst`.
pub fn extend_chars(dst: &mut Vec<char>, src: &[char])
    ensures
        final(dst)@ == old(dst)@ + src@,
{
    let ghost start = dst@;
    let mut i: usize = 0;
    while i < src.len()
        invariant
            i <= src.len(),
            dst@ == start + src@.take(i as int),
        decreases src.len() - i,
    {
        dst.push(src[i]);
        assert(src@.take(i + 1) =~= src@.take(i as int).push(src@[i as int]));
        i += 1;
    }
    assert(src@.take(src.len() as int) =~= src@);
}

/// Appends the characters of a `str` to `dst`.
pub fn extend_str(dst: &mut Vec<char>, src: &str)
    ensures
        final(dst)@ == old(dst)@ + src@,
{
    let cs = to_chars(src);
    extend_chars(dst, &cs);
}

/// The character views of a sequence of `String`s.
pub open spec fn strings_view(v: Seq<String>) -> Seq<Seq<char>> {
    v.map_values(|s: String| s@)
}

/// The views of a sequence of character vectors.
pub open spec fn vecs_view(v: Seq<Vec<char>>) -> Seq<Seq<char>> {
    v.map_values(|c: Vec<char>| c@)
}

pub proof fn lemma_vecs_view_push(v: Seq<Vec<char>>, x: Vec<char>)
    ensures
        vecs_view(v.push(x)) == vecs_view(v).push(x@),
{
    assert(vecs_view(v.push(x)) =~= vecs_view(v).push(x@));
}

pub proof fn lemma_strings_view_push(v: Seq<String>, x: String)
    ensures
        strings_view(v.push(x)) == strings_view(v).push(x@),
{
    assert(strings_view(v.push(x)) =~= strings_view(v).push(x@));
}

/// `String`s holding the given character sequences.
pub fn to_strings(v: &Vec<Vec<char>>) -> (r: Vec<String>)
    ensures
        strings_view(r@) == vecs_view(v@),
{
    let mut r: Vec<String> = Vec::new();
    let mut i: usize = 0;
    while i < v.len()
        invariant
            i <= v.len(),
            strings_view(r@) == vecs_view(v@.take(i as int)),
        decreases v.len() - i,
    {
        let s = from_chars(&v[i]);
        let ghost old_r = r@;
        r.push(s);
        assert(old_r.len() == i) by {
            assert(strings_view(old_r).len() == old_r.len());
        }
        assert forall|j: int| 0 <= j < i + 1 implies #[trigger] strings_view(r@)[j] == vecs_view(v@.take(i + 1))[j] by {
            assert(strings_view(r@)[j] == r@[j]@);
            assert(vecs_view(v@.take(i + 1))[j] == v@[j]@);
            if j < i {
                assert(strings_view(old_r)[j] == vecs_view(v@.take(i as int))[j]);
                assert(strings_view(old_r)[j] == old_r[j]@);
                assert(vecs_view(v@.take(i as int))[j] == v@[j]@);
            }
        }
        assert(strings_view(r@) =~= vecs_view(v@.take(i + 1)));
        i += 1;
    }
    assert(v@.take(v.len() as int) =~= v@);
    r
}

/// `str::split(c)` followed by `trim` on each piece, keeping the non-empty ones.
pub open spec fn split_trim_nonempty(s: Seq<char>, c: char) -> Seq<Seq<char>>
    decreases s.len(),
{
    let k = index_of(s, char_pred(c));
    let piece = trim(s.take(k as int));
    let tail = if k < s.len() {
        split_trim_nonempty(s.skip(k + 1 as int), c)
    } else {
        Seq::empty()
    };
    if piece.len() > 0 {
        seq![piece] + tail
    } else {
        tail
    }
}

/// Pieces of `s` between `c`s, trimmed, empty ones dropped
/// (`s.split(c).map(str::trim).filter(|p| !p.is_empty())`).
pub fn split_trim(s: &str, c: char) -> (r: Vec<String>)
    ensures
        strings_view(r@) == split_trim_nonempty(s@, c),
{
    let v = to_chars(s);
    let mut out: Vec<Vec<char>> = Vec::new();
    let mut rest = v;
    loop
        invariant
            vecs_view(out@) + split_trim_nonempty(rest@, c)
                == split_trim_nonempty(s@, c),
        decreases rest.len(),
    {
        proof {
            lemma_index_of_bounds(rest@, char_pred(c));
        }
        let k = find_char(&rest, c);
        let piece = trim_chars(&slice_chars(&rest, 0, k));
        assert(rest@.subrange(0, k as int) =~= rest@.take(k as int));
        let ghost old_out = out@;
        if piece.len() > 0 {
            out.push(piece);
            assert(vecs_view(out@) =~= vecs_view(old_out)
                + seq![piece@]);
        }
        if k == rest.len() {
            assert(vecs_view(out@) =~= vecs_view(out@)
                + Seq::<Seq<char>>::empty());
            return to_strings(&out);
        }
        let next = slice_chars(&rest, k + 1, rest.len());
        assert(next@ =~= rest@.skip(k + 1 as int));
        rest = next;
    }
}

/// The characters `v[lo..hi]`.
pub fn slice_chars(v: &[char], lo: usize, hi: usize) -> (r: Vec<char>)
    requires
        lo <= hi <= v.len(),
    ensures
        r@ == v@.subrange(lo as int, hi as int),
{
    let mut r: Vec<char> = Vec::new();
    let mut i: usize = lo;
    while i < hi
        invariant
            lo <= i <= hi <= v.len(),
            r@ == v@.subrange(lo as int, i as int),
        decreases hi - i,
    {
        r.push(v[i]);
        assert(v@.subrange(lo as int, i + 1) =~= v@.subrange(lo as int, i as int).push(v@[i as int]));
        i += 1;
    }
    r
}

/// Character-wise equality of two sequences.
pub fn chars_eq(a: &[char], b: &[char]) -> (r: bool)
    ensures
        r == (a@ == b@),
{
    if a.len() != b.len() {
        return false;
    }
    let mut i: usize = 0;
    while i < a.len()
        invariant
            a.len() == b.len(),
            i <= a.len(),
            forall|j: int| 0 <= j < i ==> a@[j] == b@[j],
        decreases a.len() - i,
    {
        if a[i] != b[i] {
            return false;
        }
        i += 1;
    }
    assert(a@ =~= b@);
    true
}

/// Whether the characters `a` spell the string `lit`.
pub fn chars_eq_str(a: &[char], lit: &str) -> (r: bool)
    ensures
        r == (a@ == lit@),
{
    let b = to_chars(lit);
    chars_eq(a, &b)
}

/// `p` is a prefix of `s`.
pub open spec fn is_prefix(p: Seq<char>, s: Seq<char>) -> bool {
    p.len() <= s.len() && s.subrange(0, p.len() as int) == p
}

/// Whether `s` starts with `p`.
pub fn starts_with(s: &[char], p: &[char]) -> (r: bool)
    ensures
        r == is_prefix(p@, s@),
{
    if p.len() > s.len() {
        return false;
    }
    let mut i: usize = 0;
    while i < p.len()
        invariant
            p.len() <= s.len(),
            i <= p.len(),
            forall|j: int| 0 <= j < i ==> s@[j] == p@[j],
        decreases p.len() - i,
    {
        if s[i] != p[i] {
            assert(s@.subrange(0, p.len() as int)[i as int] != p@[i as int]);
            return false;
        }
        i += 1;
    }
    assert(s@.subrange(0, p.len() as int) =~= p@);
    true
}

// ---------------------------------------------------------------------------
// Whitespace and trimming
// ---------------------------------------------------------------------------

/// Unicode `White_Space`, the property that `char::is_whitespace` tests.
pub open spec fn is_ws(c: char) -> bool {
    ||| ('\u{9}' <= c && c <= '\u{d}')
    ||| c == ' '
    ||| c == '\u{85}'
    ||| c == '\u{a0}'
    ||| c == '\u{1680}'
    ||| ('\u{2000}' <= c && c <= '\u{200a}')
    ||| c == '\u{2028}'
    ||| c == '\u{2029}'
    ||| c == '\u{202f}'
    ||| c == '\u{205f}'
    ||| c == '\u{3000}'
}

pub fn is_whitespace(c: char) -> (b: bool)
    ensures
        b == is_ws(c),
{
    ('\u{9}' <= c && c <= '\u{d}') || c == ' ' || c == '\u{85}' || c == '\u{a0}' || c
        == '\u{1680}' || ('\u{2000}' <= c && c <= '\u{200a}') || c == '\u{2028}' || c
        == '\u{2029}' || c == '\u{202f}' || c == '\u{205f}' || c == '\u{3000}'
}

/// `s` without its leading characters that satisfy `p`.
pub open spec fn drop_while(s: Seq<char>, p: spec_fn(char) -> bool) -> Seq<char>
    decreases s.len(),
{
    if s.len() > 0 && p(s[0]) {
        drop_while(s.drop_first(), p)
    } else {
        s
    }
}

/// `s` without its trailing characters that satisfy `p`.
pub open spec fn drop_while_end(s: Seq<char>, p: spec_fn(char) -> bool) -> Seq<char>
    decreases s.len(),
{
    if s.len() > 0 && p(s.last()) {
        drop_while_end(s.drop_last(), p)
    } else {
        s
    }
}

pub open spec fn ws_pred() -> spec_fn(char) -> bool {
    |c: char| is_ws(c)
}

pub open spec fn char_pred(ch: char) -> spec_fn(char) -> bool {
    |c: char| c == ch
}

/// `str::trim_start`.
pub open spec fn trim_start(s: Seq<char>) -> Seq<char> {
    drop_while(s, ws_pred())
}

/// `str::trim_end`.
pub open spec fn trim_end(s: Seq<char>) -> Seq<char> {
    drop_while_end(s, ws_pred())
}

/// `str::trim`: both ends stripped of Unicode whitespace.
pub open spec fn trim(s: Seq<char>) -> Seq<char> {
    trim_end(trim_start(s))
}

/// Index of the first character of `s[i..]` that fails `p` (the length if none).
proof fn lemma_drop_while_step(s: Seq<char>, i: int, p: spec_fn(char) -> bool)
    requires
        0 <= i < s.len(),
        p(s[i]),
    ensures
        drop_while(s.subrange(i, s.len() as int), p) == drop_while(
            s.subrange(i + 1, s.len() as int),
            p,
        ),
{
    assert(s.subrange(i, s.len() as int).drop_first() =~= s.subrange(i + 1, s.len() as int));
}

proof fn lemma_drop_while_end_step(s: Seq<char>, j: int, p: spec_fn(char) -> bool)
    requires
        0 < j <= s.len(),
        p(s[j - 1]),
    ensures
        drop_while_end(s.subrange(0, j), p) == drop_while_end(s.subrange(0, j - 1), p),
{
    assert(s.subrange(0, j).drop_last() =~= s.subrange(0, j - 1));
}

/// Number of leading whitespace characters, i.e. where `trim_start` begins.
pub fn ws_start(v: &[char]) -> (i: usize)
    ensures
        i <= v.len(),
        trim_start(v@) == v@.subrange(i as int, v.len() as int),
{
    let mut i: usize = 0;
    assert(v@.subrange(0, v.len() as int) =~= v@);
    while i < v.len() && is_whitespace(v[i])
        invariant
            i <= v.len(),
            trim_start(v@) == drop_while(v@.subrange(i as int, v.len() as int), ws_pred()),
        decreases v.len() - i,
    {
        proof {
            lemma_drop_while_step(v@, i as int, ws_pred());
        }
        i += 1;
    }
    i
}

/// Length of `v` without its trailing whitespace.
pub fn ws_end(v: &[char], lo: usize) -> (j: usize)
    requires
        lo <= v.len(),
    ensures
        lo <= j <= v.len(),
        trim_end(v@.subrange(lo as int, v.len() as int)) == v@.subrange(lo as int, j as int),
{
    let ghost w = v@.subrange(lo as int, v.len() as int);
    let mut j: usize = v.len();
    assert(w.subrange(0, w.len() as int) =~= w);
    while j > lo && is_whitespace(v[j - 1])
        invariant
            lo <= j <= v.len(),
            w == v@.subrange(lo as int, v.len() as int),
            trim_end(w) == drop_while_end(w.subrange(0, j - lo), ws_pred()),
        decreases j,
    {
        proof {
            lemma_drop_while_end_step(w, j - lo, ws_pred());
            assert(w.subrange(0, j - lo - 1) =~= w.subrange(0, (j - 1) - lo));
        }
        j -= 1;
    }
    assert(w.subrange(0, j - lo) =~= v@.subrange(lo as int, j as int));
    j
}

/// `str::trim`.
pub fn trim_chars(v: &[char]) -> (r: Vec<char>)
    ensures
        r@ == trim(v@),
{
    let i = ws_start(v);
    let j = ws_end(v, i);
    slice_chars(v, i, j)
}

/// `s` without every leading `ch` (`str::trim_start_matches(ch)`).
pub fn trim_start_char(v: &[char], ch: char) -> (r: Vec<char>)
    ensures
        r@ == drop_while(v@, char_pred(ch)),
{
    let mut i: usize = 0;
    assert(v@.subrange(0, v.len() as int) =~= v@);
    while i < v.len() && v[i] == ch
        invariant
            i <= v.len(),
            drop_while(v@, char_pred(ch)) == drop_while(
                v@.subrange(i as int, v.len() as int),
                char_pred(ch),
            ),
        decreases v.len() - i,
    {
        proof {
            lemma_drop_while_step(v@, i as int, char_pred(ch));
        }
        i += 1;
    }
    slice_chars(v, i, v.len())
}

/// `s` without every trailing `ch` (`str::trim_end_matches(ch)`).
pub fn trim_end_char(v: &[char], ch: char) -> (r: Vec<char>)
    ensures
        r@ == drop_while_end(v@, char_pred(ch)),
{
    let mut j: usize = v.len();
    assert(v@.subrange(0, v.len() as int) =~= v@);
    while j > 0 && v[j - 1] == ch
        invariant
            j <= v.len(),
            drop_while_end(v@, char_pred(ch)) == drop_while_end(
                v@.subrange(0, j as int),
                char_pred(ch),
            ),
        decreases j,
    {
        proof {
            lemma_drop_while_end_step(v@, j as int, char_pred(ch));
        }
        j -= 1;
    }
    slice_chars(v, 0, j)
}

/// Index of the first character of `s` that satisfies `p` (`s.len()` if none).
pub open spec fn index_of(s: Seq<char>, p: spec_fn(char) -> bool) -> nat
    decreases s.len(),
{
    if s.len() == 0 {
        0
    } else if p(s[0]) {
        0
    } else {
        1 + index_of(s.drop_first(), p)
    }
}

/// `index_of` is the first position where `p` holds.
pub proof fn lemma_index_of(s: Seq<char>, p: spec_fn(char) -> bool, k: int)
    requires
        0 <= k <= s.len(),
        forall|j: int| 0 <= j < k ==> !p(#[trigger] s[j]),
        k == s.len() || p(s[k]),
    ensures
        index_of(s, p) == k,
    decreases k,
{
    if k > 0 {
        assert forall|j: int| 0 <= j < k - 1 implies !p(#[trigger] s.drop_first()[j]) by {
            assert(s.drop_first()[j] == s[j + 1]);
        }
        lemma_index_of(s.drop_first(), p, k - 1);
    }
}

/// `index_of` never passes the end, and stops only at a match.
pub proof fn lemma_index_of_bounds(s: Seq<char>, p: spec_fn(char) -> bool)
    ensures
        index_of(s, p) <= s.len(),
        index_of(s, p) < s.len() ==> p(s[index_of(s, p) as int]),
        forall|j: int| 0 <= j < index_of(s, p) ==> !p(#[trigger] s[j]),
    decreases s.len(),
{
    if s.len() > 0 && !p(s[0]) {
        lemma_index_of_bounds(s.drop_first(), p);
        assert forall|j: int| 0 <= j < index_of(s, p) implies !p(#[trigger] s[j]) by {
            if j > 0 {
                assert(s[j] == s.drop_first()[j - 1]);
            }
        }
    }
}

/// Position of the first `c` in `v` (`v.len()` if absent).
pub fn find_char(v: &[char], c: char) -> (k: usize)
    ensures
        k == index_of(v@, char_pred(c)),
        k <= v.len(),
{
    let mut i: usize = 0;
    while i < v.len() && v[i] != c
        invariant
            i <= v.len(),
            forall|j: int| 0 <= j < i ==> v@[j] != c,
        decreases v.len() - i,
    {
        i += 1;
    }
    proof {
        lemma_index_of(v@, char_pred(c), i as int);
    }
    i
}

/// A line without the `\r` of a `\r\n` ending.
pub open spec fn strip_cr(l: Seq<char>) -> Seq<char> {
    if l.len() > 0 && l.last() == '\r' {
        l.drop_last()
    } else {
        l
    }
}

/// `str::lines`: pieces ended by `\n` (or `\r\n`); the last line needs no ending.
pub open spec fn lines(s: Seq<char>) -> Seq<Seq<char>>
    decreases s.len(),
{
    if s.len() == 0 {
        Seq::empty()
    } else {
        let k = index_of(s, char_pred('\n'));
        if k < s.len() {
            seq![strip_cr(s.take(k as int))] + lines(s.skip(k + 1 as int))
        } else {
            seq![s]
        }
    }
}

/// The lines of `v` (`str::lines`).
pub fn lines_of(v: &[char]) -> (r: Vec<Vec<char>>)
    ensures
        vecs_view(r@) == lines(v@),
{
    let mut out: Vec<Vec<char>> = Vec::new();
    let mut rest = slice_chars(v, 0, v.len());
    assert(rest@ =~= v@);
    loop
        invariant
            vecs_view(out@) + lines(rest@) == lines(v@),
        decreases rest.len(),
    {
        if rest.len() == 0 {
            assert(vecs_view(out@) + Seq::<Seq<char>>::empty() =~= vecs_view(out@));
            return out;
        }
        proof {
            lemma_index_of_bounds(rest@, char_pred('\n'));
        }
        let k = find_char(&rest, '\n');
        if k == rest.len() {
            proof {
                lemma_vecs_view_push(out@, rest);
            }
            let ghost rv = rest@;
            out.push(rest);
            assert(vecs_view(out@) =~= vecs_view(out@.drop_last()) + seq![rv]);
            return out;
        }
        let mut line = slice_chars(&rest, 0, k);
        assert(line@ =~= rest@.take(k as int));
        if line.len() > 0 && line[line.len() - 1] == '\r' {
            line.pop();
            assert(line@ =~= strip_cr(rest@.take(k as int)));
        }
        let ghost lv = line@;
        proof {
            lemma_vecs_view_push(out@, line);
        }
        out.push(line);
        let next = slice_chars(&rest, k + 1, rest.len());
        assert(next@ =~= rest@.skip(k + 1 as int));
        assert(vecs_view(out@) + lines(next@) =~= vecs_view(out@.drop_last()) + (seq![lv] + lines(next@)));
        rest = next;
    }
}

/// `str::split_whitespace().next()`: the first run of non-whitespace.
pub open spec fn first_word(s: Seq<char>) -> Option<Seq<char>> {
    let t = trim_start(s);
    if t.len() == 0 {
        None
    } else {
        Some(t.take(index_of(t, ws_pred()) as int))
    }
}

pub fn first_word_of(v: &[char]) -> (r: Option<Vec<char>>)
    ensures
        match r {
            Some(w) => first_word(v@) == Some(w@),
            None => first_word(v@) is None,
        },
{
    let i = ws_start(v);
    if i == v.len() {
        return None;
    }
    let t = slice_chars(v, i, v.len());
    let mut k: usize = 0;
    while k < t.len() && !is_whitespace(t[k])
        invariant
            k <= t.len(),
            forall|j: int| 0 <= j < k ==> !(ws_pred())(#[trigger] t@[j]),
        decreases t.len() - k,
    {
        k += 1;
    }
    proof {
        lemma_index_of(t@, ws_pred(), k as int);
    }
    let w = slice_chars(&t, 0, k);
    assert(w@ =~= t@.take(k as int));
    Some(w)
}

/// `str::split_whitespace`: the maximal runs of non-whitespace characters.
pub open spec fn words(s: Seq<char>) -> Seq<Seq<char>>
    decreases s.len(),
{
    if s.len() == 0 {
        Seq::empty()
    } else if is_ws(s[0]) {
        words(s.drop_first())
    } else {
        let k = index_of(s, ws_pred());
        proof {
            lemma_index_of_bounds(s, ws_pred());
            assert(k >= 1);
        }
        seq![s.take(k as int)] + words(s.skip(k as int))
    }
}

/// The whitespace-separated words of `v`.
pub fn words_of(v: &[char]) -> (r: Vec<Vec<char>>)
    ensures
        vecs_view(r@) == words(v@),
{
    let mut out: Vec<Vec<char>> = Vec::new();
    let mut rest = slice_chars(v, 0, v.len());
    assert(rest@ =~= v@);
    loop
        invariant
            vecs_view(out@) + words(rest@) == words(v@),
        decreases rest.len(),
    {
        if rest.len() == 0 {
            assert(vecs_view(out@) + Seq::<Seq<char>>::empty() =~= vecs_view(out@));
            return out;
        }
        if is_whitespace(rest[0]) {
            let next = slice_chars(&rest, 1, rest.len());
            assert(next@ =~= rest@.drop_first());
            rest = next;
        } else {
            let mut k: usize = 0;
            while k < rest.len() && !is_whitespace(rest[k])
                invariant
                    k <= rest.len(),
                    forall|j: int| 0 <= j < k ==> !(ws_pred())(#[trigger] rest@[j]),
                decreases rest.len() - k,
            {
                k += 1;
            }
            proof {
                lemma_index_of(rest@, ws_pred(), k as int);
            }
            let w = slice_chars(&rest, 0, k);
            assert(w@ =~= rest@.take(k as int));
            let ghost wv = w@;
            proof {
                lemma_vecs_view_push(out@, w);
            }
            out.push(w);
            let next = slice_chars(&rest, k, rest.len());
            assert(next@ =~= rest@.skip(k as int));
            assert(vecs_view(out@) + words(next@) =~= vecs_view(out@.drop_last()) + (seq![wv]
                + words(next@)));
            rest = next;
        }
    }
}

/// `parts` joined with `sep` between neighbours (`slice::join`).
pub open spec fn join(parts: Seq<Seq<char>>, sep: Seq<char>) -> Seq<char>
    decreases parts.len(),
{
    if parts.len() == 0 {
        Seq::empty()
    } else if parts.len() == 1 {
        parts[0]
    } else {
        join(parts.drop_last(), sep) + sep + parts.last()
    }
}

/// `parts.join(sep)` on character vectors.
pub fn join_chars(parts: &Vec<Vec<char>>, sep: &[char]) -> (r: Vec<char>)
    ensures
        r@ == join(vecs_view(parts@), sep@),
{
    let mut r: Vec<char> = Vec::new();
    let mut i: usize = 0;
    while i < parts.len()
        invariant
            i <= parts.len(),
            r@ == join(vecs_view(parts@.take(i as int)), sep@),
        decreases parts.len() - i,
    {
        let ghost before = r@;
        if i > 0 {
            extend_chars(&mut r, sep);
        }
        extend_chars(&mut r, &parts[i]);
        proof {
            let pre = vecs_view(parts@.take(i as int));
            let post = vecs_view(parts@.take(i + 1));
            assert(post.drop_last() =~= pre);
            assert(post.last() == parts@[i as int]@);
            if i == 0 {
                assert(post =~= seq![parts@[0]@]);
            }
        }
        i += 1;
    }
    assert(parts@.take(parts.len() as int) =~= parts@);
    r
}

// ---------------------------------------------------------------------------
// Decimal numbers
// ---------------------------------------------------------------------------

pub open spec fn is_digit(c: char) -> bool {
    '0' <= c && c <= '9'
}

pub open spec fn digit_value(c: char) -> nat {
    (c as int - '0' as int) as nat
}

pub open spec fn digit_char(d: nat) -> char
    recommends
        d < 10,
{
    (d + '0' as int) as char
}

/// The decimal rendering of `n` (what `n.to_string()` produces).
pub open spec fn dec(n: nat) -> Seq<char>
    decreases n,
{
    if n < 10 {
        seq![digit_char(n)]
    } else {
        dec(n / 10).push(digit_char(n % 10))
    }
}

/// The value of a string of decimal digits.
pub open spec fn digits_value(s: Seq<char>) -> nat
    decreases s.len(),
{
    if s.len() == 0 {
        0
    } else {
        digits_value(s.drop_last()) * 10 + digit_value(s.last())
    }
}

pub open spec fn all_digits(s: Seq<char>) -> bool {
    forall|i: int| 0 <= i < s.len() ==> is_digit(#[trigger] s[i])
}

fn digit(d: u64) -> (c: char)
    requires
        d < 10,
    ensures
        c == digit_char(d as nat),
{
    let b: u8 = 48u8 + (d as u8);
    b as char
}

/// `n.to_string()` as characters.
pub fn dec_chars(n: u64) -> (v: Vec<char>)
    ensures
        v@ == dec(n as nat),
    decreases n,
{
    if n < 10 {
        let mut v: Vec<char> = Vec::new();
        v.push(digit(n));
        assert(v@ =~= seq![digit_char(n as nat)]);
        v
    } else {
        let mut v = dec_chars(n / 10);
        v.push(digit(n % 10));
        v
    }
}

pub proof fn lemma_dec_digits(n: nat)
    ensures
        dec(n).len() >= 1,
        all_digits(dec(n)),
        digits_value(dec(n)) == n,
        dec(n)[0] != '0' || n == 0,
    decreases n,
{
    if n < 10 {
        assert(dec(n).drop_last() =~= Seq::<char>::empty());
        assert(digit_value(digit_char(n)) == n);
        assert(dec(n).last() == digit_char(n));
        assert(digits_value(dec(n)) == digits_value(dec(n).drop_last()) * 10 + digit_value(dec(n).last()));
    } else {
        lemma_dec_digits(n / 10);
        assert(digit_value(digit_char(n % 10)) == n % 10);
        assert(dec(n).drop_last() =~= dec(n / 10));
        assert(dec(n)[0] == dec(n / 10)[0]);
        assert(dec(n).last() == digit_char(n % 10));
        assert(digits_value(dec(n)) == digits_value(dec(n / 10)) * 10 + digit_value(digit_char(n % 10)));
        assert((n / 10) * 10 + n % 10 == n);
    }
}

/// Extending a digit string never lowers its value.
pub proof fn lemma_digits_value_prefix(s: Seq<char>, k: int)
    requires
        0 <= k <= s.len(),
    ensures
        digits_value(s.take(k)) <= digits_value(s),
    decreases s.len() - k,
{
    if k < s.len() {
        lemma_digits_value_prefix(s, k + 1);
        assert(s.take(k + 1).drop_last() =~= s.take(k));
    } else {
        assert(s.take(k) =~= s);
    }
}

/// The unsigned digits after an optional leading `+`, as `str::parse` reads them.
pub open spec fn unsigned_body(s: Seq<char>) -> Seq<char> {
    if s.len() > 0 && s[0] == '+' {
        s.drop_first()
    } else {
        s
    }
}

/// The value `str::parse::<uN>` accepts for `s`, before the range check:
/// a non-empty run of ASCII digits after an optional `+`.
pub open spec fn parse_nat(s: Seq<char>) -> Option<nat> {
    let t = unsigned_body(s);
    if t.len() > 0 && all_digits(t) {
        Some(digits_value(t))
    } else {
        None
    }
}

/// `s.parse::<u64>().ok()`.
pub open spec fn parse_u64(s: Seq<char>) -> Option<u64> {
    match parse_nat(s) {
        Some(v) => if v <= u64::MAX {
            Some(v as u64)
        } else {
            None
        },
        None => None,
    }
}

/// `s.parse::<u32>().ok()`.
pub open spec fn parse_u32(s: Seq<char>) -> Option<u32> {
    match parse_nat(s) {
        Some(v) => if v <= u32::MAX {
            Some(v as u32)
        } else {
            None
        },
        None => None,
    }
}

/// `s.parse::<usize>().ok()`.
pub open spec fn parse_usize(s: Seq<char>) -> Option<usize> {
    match parse_nat(s) {
        Some(v) => if v <= usize::MAX {
            Some(v as usize)
        } else {
            None
        },
        None => None,
    }
}

/// `s.parse::<i32>().ok()`: an optional sign, then a non-empty run of digits.
pub open spec fn parse_i32(s: Seq<char>) -> Option<i32> {
    if s.len() > 0 && s[0] == '-' {
        let t = s.drop_first();
        if t.len() > 0 && all_digits(t) && digits_value(t) <= 0x8000_0000 {
            Some((0 - digits_value(t)) as i32)
        } else {
            None
        }
    } else {
        match parse_nat(s) {
            Some(v) => if v <= i32::MAX {
                Some(v as i32)
            } else {
                None
            },
            None => None,
        }
    }
}

/// Value of the digits `v[lo..]` if they are all digits and the value is at
/// most `bound`; `None` otherwise.
fn digits_upto(v: &[char], lo: usize, bound: u64) -> (r: Option<u64>)
    requires
        lo <= v.len(),
        bound >= 9,
    ensures
        ({
            let t = v@.subrange(lo as int, v.len() as int);
            match r {
                Some(x) => all_digits(t) && digits_value(t) == x && x <= bound,
                None => !(all_digits(t) && digits_value(t) <= bound),
            }
        }),
{
    let ghost t = v@.subrange(lo as int, v.len() as int);
    let mut acc: u64 = 0;
    let mut i: usize = lo;
    while i < v.len()
        invariant
            lo <= i <= v.len(),
            t == v@.subrange(lo as int, v.len() as int),
            all_digits(t.take(i - lo)),
            digits_value(t.take(i - lo)) == acc,
            acc <= bound,
            bound >= 9,
        decreases v.len() - i,
    {
        let c = v[i];
        assert(t[i - lo] == c);
        if !('0' <= c && c <= '9') {
            return None;
        }
        let d: u64 = (c as u64) - 48;
        assert(d <= 9);
        assert(d == digit_value(c));
        assert(t.take(i - lo + 1).drop_last() =~= t.take(i - lo));
        assert(t.take(i - lo + 1).last() == c);
        if acc > (bound - d) / 10 {
            proof {
                assert(digits_value(t.take(i - lo + 1)) == acc * 10 + d);
                assert(acc * 10 + d > bound) by (nonlinear_arith)
                    requires
                        acc > (bound - d) / 10,
                        d <= bound || d > bound,
                {
                }
                if all_digits(t) {
                    lemma_digits_value_prefix(t, i - lo + 1);
                }
            }
            return None;
        }
        proof {
            assert(acc * 10 + d <= bound) by (nonlinear_arith)
                requires
                    acc <= (bound - d) / 10,
                    d <= 9,
            {
            }
        }
        acc = acc * 10 + d;
        i += 1;
    }
    assert(t.take(i - lo) =~= t);
    Some(acc)
}

/// `s.parse::<u64>().ok()` on characters.
pub fn parse_u64_chars(v: &[char]) -> (r: Option<u64>)
    ensures
        r == parse_u64(v@),
{
    let lo: usize = if v.len() > 0 && v[0] == '+' {
        1
    } else {
        0
    };
    assert(unsigned_body(v@) =~= v@.subrange(lo as int, v.len() as int));
    if lo == v.len() {
        return None;
    }
    digits_upto(v, lo, u64::MAX)
}

/// `s.parse::<u32>().ok()` on characters.
pub fn parse_u32_chars(v: &[char]) -> (r: Option<u32>)
    ensures
        r == parse_u32(v@),
{
    match parse_u64_chars(v) {
        Some(x) => if x <= 0xffff_ffff {
            Some(x as u32)
        } else {
            None
        },
        None => {
            proof {
                let t = unsigned_body(v@);
                if t.len() > 0 && all_digits(t) {
                    assert(digits_value(t) > u64::MAX);
                }
            }
            None
        },
    }
}

/// `s.parse::<usize>().ok()` on characters.
pub fn parse_usize_chars(v: &[char]) -> (r: Option<usize>)
    ensures
        r == parse_usize(v@),
{
    match parse_u64_chars(v) {
        Some(x) => if x <= usize::MAX as u64 {
            Some(x as usize)
        } else {
            None
        },
        None => None,
    }
}

/// `s.parse::<i32>().ok()` on characters.
pub fn parse_i32_chars(v: &[char]) -> (r: Option<i32>)
    ensures
        r == parse_i32(v@),
{
    if v.len() > 0 && v[0] == '-' {
        assert(v@.drop_first() =~= v@.subrange(1, v.len() as int));
        if v.len() == 1 {
            return None;
        }
        match digits_upto(v, 1, 0x8000_0000) {
            Some(x) => {
                let r: i32 = if x == 0x8000_0000 {
                    -2147483648i32
                } else {
                    -(x as i32)
                };
                Some(r)
            },
            None => None,
        }
    } else {
        match parse_u64_chars(v) {
            Some(x) => if x <= 0x7fff_ffff {
                Some(x as i32)
            } else {
                None
            },
            None => None,
        }
    }
}

} // verus!
