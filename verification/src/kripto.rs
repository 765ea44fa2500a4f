//! Cryptocurrency prices from a CoinGecko `simple/price` response.
//!
//! The widget is rate-limited by `@huma-kripto-ttl`: a cache holds
//! `<unix time>\n<widget>` and the API is asked again only once the TTL has
//! elapsed. A failed fetch falls back to the last good value.
use vstd::prelude::*;
use crate::config::Config;
use crate::tmux::{Action, ActionView, set_global_option};
use crate::text::{
    all_digits, char_pred, chars_eq, dec, dec_chars, digits_value, drop_while, extend_chars,
    extend_str, find_char, from_chars, index_of, is_digit, join, join_chars,
    lemma_dec_digits, lemma_index_of, lemma_index_of_bounds, parse_u64, parse_u64_chars,
    slice_chars, strings_view, to_chars, unsigned_body, vecs_view,
};

verus! {

/// Digits of `s[..k]` with a `,` before every digit (other than the first)
/// that has a multiple of three digits after it.
pub open spec fn grouped_prefix(s: Seq<char>, k: nat) -> Seq<char>
    decreases k,
{
    if k == 0 || k > s.len() {
        Seq::empty()
    } else {
        let i = (k - 1) as nat;
        let sep = if i > 0 && (s.len() - i) % 3 == 0 {
            seq![',']
        } else {
            Seq::empty()
        };
        grouped_prefix(s, i) + sep + seq![s[i as int]]
    }
}

/// `n` in decimal with thousands separators: `43210` is `43,210`.
pub open spec fn grouped(n: nat) -> Seq<char> {
    grouped_prefix(dec(n), dec(n).len())
}

/// Group an integer with thousands separators: `43210` → `43,210`.
pub fn group_thousands(n: u64) -> (r: String)
    ensures
        r@ == grouped(n as nat),
{
    let s = dec_chars(n);
    let len = s.len();
    let mut out: Vec<char> = Vec::new();
    let mut i: usize = 0;
    while i < len
        invariant
            len == s.len(),
            s@ == dec(n as nat),
            i <= len,
            out@ == grouped_prefix(s@, i as nat),
        decreases len - i,
    {
        if i > 0 && (len - i) % 3 == 0 {
            out.push(',');
        }
        out.push(s[i]);
        proof {
            let sep = if i > 0 && (s@.len() - i) % 3 == 0 {
                seq![',']
            } else {
                Seq::<char>::empty()
            };
            assert(grouped_prefix(s@, (i + 1) as nat) == grouped_prefix(s@, i as nat) + sep
                + seq![s@[i as int]]);
        }
        i += 1;
    }
    from_chars(&out)
}

// ---------------------------------------------------------------------------
// Reading a price out of the JSON response
// ---------------------------------------------------------------------------

/// `n` occurs in `h` starting at `i`.
pub open spec fn occurs_at(h: Seq<char>, n: Seq<char>, i: int) -> bool {
    0 <= i && i + n.len() <= h.len() && h.subrange(i, i + n.len()) == n
}

/// The first position at or after `i` where `n` occurs in `h` (`str::find`).
pub open spec fn find_from(h: Seq<char>, n: Seq<char>, i: int) -> Option<int>
    decreases h.len() + 1 - i,
{
    if i < 0 || i + n.len() > h.len() {
        None
    } else if occurs_at(h, n, i) {
        Some(i)
    } else {
        find_from(h, n, i + 1)
    }
}

/// `"name"`: a JSON key as the response spells it.
pub open spec fn quoted(s: Seq<char>) -> Seq<char> {
    seq!['"'] + s + seq!['"']
}

pub open spec fn colon_or_space() -> spec_fn(char) -> bool {
    |c: char| c == ':' || c == ' '
}

pub open spec fn not_number_char() -> spec_fn(char) -> bool {
    |c: char| !(is_digit(c) || c == '.')
}

/// The text of `coin`'s `currency` price in a CoinGecko `simple/price`
/// response: after the first `"coin"` key, the first `"currency"` key, then
/// past any `:` and spaces, the run of digits and dots that follows.
pub open spec fn price_text_spec(json: Seq<char>, coin: Seq<char>, currency: Seq<char>) -> Option<
    Seq<char>,
> {
    let ck = quoted(coin);
    match find_from(json, ck, 0) {
        None => None,
        Some(a) => {
            let after_coin = json.skip(a + ck.len());
            let uk = quoted(currency);
            match find_from(after_coin, uk, 0) {
                None => None,
                Some(b) => {
                    let after_cur = after_coin.skip(b + uk.len());
                    let t = drop_while(after_cur, colon_or_space());
                    Some(t.take(index_of(t, not_number_char()) as int))
                },
            }
        },
    }
}

/// First occurrence of `n` in `h`.
fn find_sub(h: &[char], n: &[char]) -> (r: Option<usize>)
    ensures
        match r {
            Some(i) => find_from(h@, n@, 0) == Some(i as int),
            None => find_from(h@, n@, 0) is None,
        },
{
    let mut i: usize = 0;
    if n.len() > h.len() {
        return None;
    }
    while i <= h.len() - n.len()
        invariant
            n.len() <= h.len(),
            find_from(h@, n@, 0) == find_from(h@, n@, i as int),
        decreases h.len() - i,
    {
        let mut j: usize = 0;
        let mut ok = true;
        while j < n.len()
            invariant
                i + n.len() <= h.len(),
                j <= n.len(),
                ok == (forall|k: int| 0 <= k < j ==> h@[i + k] == n@[k]),
            decreases n.len() - j,
        {
            if h[i + j] != n[j] {
                ok = false;
            }
            j += 1;
        }
        proof {
            if ok {
                assert(h@.subrange(i as int, i + n.len()) =~= n@);
            } else {
                let k = choose|k: int| 0 <= k < n.len() && h@[i + k] != n@[k];
                assert(h@.subrange(i as int, i + n.len())[k] != n@[k]);
            }
        }
        if ok {
            return Some(i);
        }
        i += 1;
    }
    None
}

fn quote(s: &[char]) -> (r: Vec<char>)
    ensures
        r@ == quoted(s@),
{
    let mut r: Vec<char> = Vec::new();
    r.push('"');
    extend_chars(&mut r, s);
    r.push('"');
    assert(r@ =~= quoted(s@));
    r
}

/// Pull the text of `coin`'s `currency` price out of a CoinGecko response,
/// e.g. `{"bitcoin":{"usd":43210.5}}` → `43210.5`.
pub fn price_text(json: &str, coin: &str, currency: &str) -> (r: Option<String>)
    ensures
        match r {
            Some(t) => price_text_spec(json@, coin@, currency@) == Some(t@),
            None => price_text_spec(json@, coin@, currency@) is None,
        },
{
    let j = to_chars(json);
    let ck = quote(&to_chars(coin));
    let a = match find_sub(&j, &ck) {
        Some(a) => a,
        None => {
            return None;
        },
    };
    proof {
        lemma_find_from_bounds(j@, ck@, 0);
        assert(find_from(j@, ck@, 0) == Some(a as int));
        assert(a + ck@.len() <= j@.len());
        assert(j@.len() == j.len());
        assert(ck@.len() == ck.len());
    }
    let after_coin = slice_chars(&j, a + ck.len(), j.len());
    assert(after_coin@ =~= j@.skip(a + ck@.len()));
    let uk = quote(&to_chars(currency));
    let b = match find_sub(&after_coin, &uk) {
        Some(b) => b,
        None => {
            return None;
        },
    };
    proof {
        lemma_find_from_bounds(after_coin@, uk@, 0);
    }
    let after_cur = slice_chars(&after_coin, b + uk.len(), after_coin.len());
    assert(after_cur@ =~= after_coin@.skip(b + uk@.len()));
    let mut p: usize = 0;
    assert(after_cur@.subrange(0, after_cur@.len() as int) =~= after_cur@);
    while p < after_cur.len() && (after_cur[p] == ':' || after_cur[p] == ' ')
        invariant
            p <= after_cur.len(),
            drop_while(after_cur@, colon_or_space()) == drop_while(
                after_cur@.subrange(p as int, after_cur@.len() as int),
                colon_or_space(),
            ),
        decreases after_cur.len() - p,
    {
        assert(after_cur@.subrange(p as int, after_cur@.len() as int).drop_first()
            =~= after_cur@.subrange(p + 1, after_cur@.len() as int));
        p += 1;
    }
    let t = slice_chars(&after_cur, p, after_cur.len());
    let mut q: usize = 0;
    while q < t.len() && (('0' <= t[q] && t[q] <= '9') || t[q] == '.')
        invariant
            q <= t.len(),
            forall|k: int| 0 <= k < q ==> !(not_number_char())(#[trigger] t@[k]),
        decreases t.len() - q,
    {
        q += 1;
    }
    proof {
        lemma_index_of(t@, not_number_char(), q as int);
    }
    let num = slice_chars(&t, 0, q);
    assert(num@ =~= t@.take(q as int));
    Some(from_chars(&num))
}

/// A found match ends inside the haystack.
proof fn lemma_find_from_bounds(h: Seq<char>, n: Seq<char>, i: int)
    ensures
        find_from(h, n, i) matches Some(k) ==> i <= k && k + n.len() <= h.len() && occurs_at(
            h,
            n,
            k,
        ),
    decreases h.len() + 1 - i,
{
    if !(i < 0 || i + n.len() > h.len()) && !occurs_at(h, n, i) {
        lemma_find_from_bounds(h, n, i + 1);
    }
}

// ---------------------------------------------------------------------------
// Rendering
// ---------------------------------------------------------------------------

/// One coin's segment: `<symbol><price>`, labelled `<coin> ` when several
/// coins are shown.
pub open spec fn price_segment(price: u64, symbol: Seq<char>, coin: Seq<char>, multi: bool) -> Seq<
    char,
> {
    if multi {
        coin + seq![' '] + symbol + grouped(price as nat)
    } else {
        symbol + grouped(price as nat)
    }
}

/// Render one coin's (already rounded) price.
pub fn fmt_price(price: u64, symbol: &str, coin: &str, multi: bool) -> (r: String)
    ensures
        r@ == price_segment(price, symbol@, coin@, multi),
{
    let n = to_chars(group_thousands(price).as_str());
    let mut out: Vec<char> = Vec::new();
    if multi {
        extend_str(&mut out, coin);
        out.push(' ');
    }
    extend_str(&mut out, symbol);
    extend_chars(&mut out, &n);
    proof {
        if multi {
            assert(out@ =~= coin@ + seq![' '] + symbol@ + grouped(price as nat));
        } else {
            assert(out@ =~= symbol@ + grouped(price as nat));
        }
    }
    from_chars(&out)
}

/// The segments of the coins among the first `k` whose price is known.
pub open spec fn segments(
    coins: Seq<Seq<char>>,
    prices: Seq<Option<u64>>,
    symbol: Seq<char>,
    multi: bool,
    k: nat,
) -> Seq<Seq<char>>
    decreases k,
{
    if k == 0 || k > coins.len() || k > prices.len() {
        Seq::empty()
    } else {
        let i = (k - 1) as int;
        let rest = segments(coins, prices, symbol, multi, (k - 1) as nat);
        match prices[i] {
            Some(p) => rest.push(price_segment(p, symbol, coins[i], multi)),
            None => rest,
        }
    }
}

/// The whole widget for the configured coins, given each coin's rounded
/// price (`None` where the response had none): the segments joined by two
/// spaces, coins labelled when more than one is configured.
pub open spec fn widget_text(cfg: Config, prices: Seq<Option<u64>>) -> Seq<char> {
    let coins = strings_view(cfg.kripto_coins@);
    join(
        segments(coins, prices, cfg.kripto_symbol@, coins.len() > 1, coins.len()),
        seq![' ', ' '],
    )
}

/// Format the widget from each configured coin's rounded price.
pub fn format_prices(cfg: &Config, prices: &[Option<u64>]) -> (r: String)
    requires
        prices.len() == cfg.kripto_coins.len(),
    ensures
        r@ == widget_text(*cfg, prices@),
{
    let ghost coins = strings_view(cfg.kripto_coins@);
    let multi = cfg.kripto_coins.len() > 1;
    let mut segs: Vec<Vec<char>> = Vec::new();
    let mut i: usize = 0;
    while i < prices.len()
        invariant
            prices.len() == cfg.kripto_coins.len(),
            coins == strings_view(cfg.kripto_coins@),
            multi == (coins.len() > 1),
            i <= prices.len(),
            vecs_view(segs@) == segments(coins, prices@, cfg.kripto_symbol@, multi, i as nat),
        decreases prices.len() - i,
    {
        let ghost before = segs@;
        match prices[i] {
            Some(p) => {
                let seg = fmt_price(p, cfg.kripto_symbol.as_str(), cfg.kripto_coins[i].as_str(), multi);
                segs.push(to_chars(seg.as_str()));
                assert(vecs_view(segs@) =~= vecs_view(before).push(
                    price_segment(p, cfg.kripto_symbol@, coins[i as int], multi),
                ));
            },
            None => {},
        }
        i += 1;
    }
    let sep = to_chars("  ");
    proof {
        reveal_strlit("  ");
        assert(sep@ =~= seq![' ', ' ']);
    }
    from_chars(&join_chars(&segs, &sep))
}

/// The API request for the configured coins and currency.
pub open spec fn fetch_url_spec(cfg: Config) -> Seq<char> {
    "https://api.coingecko.com/api/v3/simple/price?ids="@ + join(
        strings_view(cfg.kripto_coins@),
        seq![','],
    ) + "&vs_currencies="@ + cfg.kripto_currency@
}

/// The CoinGecko `simple/price` URL for the configured coins.
pub fn fetch_url(cfg: &Config) -> (r: String)
    ensures
        r@ == fetch_url_spec(*cfg),
{
    let mut coins: Vec<Vec<char>> = Vec::new();
    let mut i: usize = 0;
    while i < cfg.kripto_coins.len()
        invariant
            i <= cfg.kripto_coins.len(),
            vecs_view(coins@) == strings_view(cfg.kripto_coins@).take(i as int),
        decreases cfg.kripto_coins.len() - i,
    {
        let ghost before = coins@;
        coins.push(to_chars(cfg.kripto_coins[i].as_str()));
        assert(before.len() == i) by {
            assert(vecs_view(before).len() == before.len());
        }
        assert forall|k: int| 0 <= k < i + 1 implies #[trigger] vecs_view(coins@)[k] == strings_view(
            cfg.kripto_coins@,
        ).take(i + 1)[k] by {
            assert(vecs_view(coins@)[k] == coins@[k]@);
            assert(strings_view(cfg.kripto_coins@)[k] == cfg.kripto_coins@[k]@);
            if k < i {
                assert(vecs_view(before)[k] == strings_view(cfg.kripto_coins@).take(i as int)[k]);
                assert(vecs_view(before)[k] == before[k]@);
            }
        }
        assert(vecs_view(coins@) =~= strings_view(cfg.kripto_coins@).take(i + 1));
        i += 1;
    }
    assert(strings_view(cfg.kripto_coins@).take(i as int) =~= strings_view(cfg.kripto_coins@));
    let comma = to_chars(",");
    proof {
        reveal_strlit(",");
        assert(comma@ =~= seq![',']);
    }
    let ids = join_chars(&coins, &comma);
    let mut out = to_chars("https://api.coingecko.com/api/v3/simple/price?ids=");
    extend_chars(&mut out, &ids);
    extend_str(&mut out, "&vs_currencies=");
    extend_str(&mut out, cfg.kripto_currency.as_str());
    from_chars(&out)
}

// ---------------------------------------------------------------------------
// The TTL cache
// ---------------------------------------------------------------------------

/// The cache file's contents after a fetch at `now`: `<now>\n<value>`.
pub open spec fn cache_text_spec(now: u64, value: Seq<char>) -> Seq<char> {
    dec(now as nat) + seq!['\n'] + value
}

pub fn cache_text(now: u64, value: &str) -> (r: String)
    ensures
        r@ == cache_text_spec(now, value@),
{
    let mut out = dec_chars(now);
    out.push('\n');
    extend_str(&mut out, value);
    from_chars(&out)
}

/// The cache split at its first newline (`str::split_once('\n')`).
pub open spec fn split_line(s: Seq<char>) -> Option<(Seq<char>, Seq<char>)> {
    let k = index_of(s, char_pred('\n'));
    if k < s.len() {
        Some((s.take(k as int), s.skip(k + 1 as int)))
    } else {
        None
    }
}

fn split_cache(s: &[char]) -> (r: Option<(Vec<char>, Vec<char>)>)
    ensures
        match r {
            Some((a, b)) => split_line(s@) == Some((a@, b@)),
            None => split_line(s@) is None,
        },
{
    let k = find_char(s, '\n');
    if k < s.len() {
        let a = slice_chars(s, 0, k);
        let b = slice_chars(s, k + 1, s.len());
        assert(a@ =~= s@.take(k as int));
        assert(b@ =~= s@.skip(k + 1 as int));
        Some((a, b))
    } else {
        None
    }
}

/// The cached widget, when the cache is still fresh at `now`.
pub open spec fn fresh_cached(cache: Seq<char>, now: u64, ttl: u64) -> Option<Seq<char>> {
    match split_line(cache) {
        Some((ts, val)) => match parse_u64(ts) {
            Some(t) => if (if now >= t { now - t } else { 0 }) < ttl {
                Some(val)
            } else {
                None
            },
            None => None,
        },
        None => None,
    }
}

/// What the widget shows without asking the API: empty when no coins are
/// configured, the cached value while it is younger than the TTL; `None`
/// means a fetch is due.
pub open spec fn value_spec(cfg: Config, cache: Option<Seq<char>>, now: u64) -> Option<Seq<char>> {
    if cfg.kripto_coins@.len() == 0 {
        Some(Seq::empty())
    } else {
        match cache {
            Some(c) => fresh_cached(c, now, cfg.kripto_ttl),
            None => None,
        }
    }
}

/// The kripto widget if it can be shown without a fetch (`None`: fetch due).
/// `cache` is the cache file's contents, if it could be read.
pub fn value(cfg: &Config, cache: Option<&str>, now: u64) -> (r: Option<String>)
    ensures
        match r {
            Some(s) => value_spec(*cfg, opt_str_view(cache), now) == Some(s@),
            None => value_spec(*cfg, opt_str_view(cache), now) is None,
        },
{
    if cfg.kripto_coins.len() == 0 {
        return Some(String::new());
    }
    let c = match cache {
        Some(c) => to_chars(c),
        None => {
            return None;
        },
    };
    let (ts, val) = match split_cache(&c) {
        Some(p) => p,
        None => {
            return None;
        },
    };
    match parse_u64_chars(&ts) {
        Some(t) => {
            if now.saturating_sub(t) < cfg.kripto_ttl {
                Some(from_chars(&val))
            } else {
                None
            }
        },
        None => None,
    }
}

pub open spec fn opt_str_view(o: Option<&str>) -> Option<Seq<char>> {
    match o {
        Some(s) => Some(s@),
        None => None,
    }
}

/// The value after a fetch, and what to write to the cache.
/// A non-empty fetched widget is shown and cached with the time `now`;
/// an empty one (failed fetch) falls back to the cached value, or empty.
pub open spec fn settle_spec(fetched: Seq<char>, cache: Option<Seq<char>>, now: u64) -> (
    Seq<char>,
    Option<Seq<char>>,
) {
    if fetched.len() > 0 {
        (fetched, Some(cache_text_spec(now, fetched)))
    } else {
        let fallback = match cache {
            Some(c) => match split_line(c) {
                Some((_, v)) => v,
                None => Seq::empty(),
            },
            None => Seq::empty(),
        };
        (fallback, None)
    }
}

/// Settle the widget after a fetch: `fetched` is the widget formatted from
/// the response (empty when the request failed or named no coin).
pub fn settle(fetched: &str, cache: Option<&str>, now: u64) -> (r: (String, Option<String>))
    ensures
        r.0@ == settle_spec(fetched@, opt_str_view(cache), now).0,
        match r.1 {
            Some(w) => settle_spec(fetched@, opt_str_view(cache), now).1 == Some(w@),
            None => settle_spec(fetched@, opt_str_view(cache), now).1 is None,
        },
{
    if !fetched.is_empty() {
        return (fetched.to_owned(), Some(cache_text(now, fetched)));
    }
    let fallback = match cache {
        Some(c) => {
            let cs = to_chars(c);
            match split_cache(&cs) {
                Some((_, v)) => from_chars(&v),
                None => String::new(),
            }
        },
        None => String::new(),
    };
    (fallback, None)
}

/// `parse_u64` reads back what `dec` writes.
pub proof fn lemma_parse_dec(n: u64)
    ensures
        parse_u64(dec(n as nat)) == Some(n),
{
    lemma_dec_digits(n as nat);
    let d = dec(n as nat);
    assert(is_digit(d[0]));
    assert(unsigned_body(d) == d);
}

/// A freshly written cache is read back as the cached widget: after a
/// successful fetch at `t`, every later look within the TTL shows the
/// fetched value without asking the API again.
pub proof fn cache_hit_within_ttl(cfg: Config, fetched: Seq<char>, old_cache: Option<Seq<char>>, t: u64, now: u64)
    requires
        fetched.len() > 0,
        cfg.kripto_coins@.len() > 0,
        (if now >= t { now - t } else { 0 }) < cfg.kripto_ttl,
    ensures
        value_spec(cfg, settle_spec(fetched, old_cache, t).1, now) == Some(fetched),
{
    let c = cache_text_spec(t, fetched);
    lemma_dec_digits(t as nat);
    lemma_parse_dec(t);
    let d = dec(t as nat);
    assert forall|j: int| 0 <= j < d.len() implies !(char_pred('\n'))(#[trigger] c[j]) by {
        assert(c[j] == d[j]);
        assert(is_digit(d[j]));
    }
    assert(c[d.len() as int] == '\n');
    lemma_index_of(c, char_pred('\n'), d.len() as int);
    assert(c.take(d.len() as int) =~= d);
    assert(c.skip(d.len() + 1 as int) =~= fetched);
}

/// A failed fetch falls back to the last good value: after a successful
/// fetch of `v` at `t` wrote the cache, a later fetch that yields nothing
/// shows `v` again and leaves the cache as it is.
pub proof fn failed_fetch_keeps_last(v: Seq<char>, old_cache: Option<Seq<char>>, t: u64, later: u64)
    requires
        v.len() > 0,
    ensures
        settle_spec(Seq::empty(), settle_spec(v, old_cache, t).1, later) == (v, None::<Seq<char>>),
{
    let c = cache_text_spec(t, v);
    lemma_dec_digits(t as nat);
    let d = dec(t as nat);
    assert forall|j: int| 0 <= j < d.len() implies !(char_pred('\n'))(#[trigger] c[j]) by {
        assert(c[j] == d[j]);
        assert(is_digit(d[j]));
    }
    assert(c[d.len() as int] == '\n');
    lemma_index_of(c, char_pred('\n'), d.len() as int);
    assert(c.skip(d.len() + 1 as int) =~= v);
}

pub open spec fn not_comma() -> spec_fn(char) -> bool {
    |c: char| c != ','
}

/// The separators are all that grouping adds: without its commas, the
/// grouped number is the plain decimal.
pub proof fn grouping_keeps_digits(n: nat)
    ensures
        grouped(n).filter(not_comma()) == dec(n),
{
    lemma_dec_digits(n);
    lemma_grouped_prefix_digits(dec(n), dec(n).len());
    assert(dec(n).take(dec(n).len() as int) =~= dec(n));
}

proof fn lemma_grouped_prefix_digits(s: Seq<char>, k: nat)
    requires
        k <= s.len(),
        all_digits(s),
    ensures
        grouped_prefix(s, k).filter(not_comma()) == s.take(k as int),
    decreases k,
{
    if k > 0 {
        let i = (k - 1) as nat;
        lemma_grouped_prefix_digits(s, i);
        let sep = if i > 0 && (s.len() - i) % 3 == 0 {
            seq![',']
        } else {
            Seq::<char>::empty()
        };
        let g = grouped_prefix(s, i);
        assert(grouped_prefix(s, k) == g + sep + seq![s[i as int]]);
        assert(is_digit(s[i as int]));
        Seq::filter_distributes_over_add(g + sep, seq![s[i as int]], not_comma());
        Seq::filter_distributes_over_add(g, sep, not_comma());
        assert(sep.filter(not_comma()) =~= Seq::<char>::empty()) by {
            if sep.len() > 0 {
                reveal_with_fuel(Seq::<_>::filter, 2);
                assert(sep.drop_last() =~= Seq::<char>::empty());
            }
        }
        assert(seq![s[i as int]].filter(not_comma()) =~= seq![s[i as int]]) by {
            reveal_with_fuel(Seq::<_>::filter, 2);
            assert(seq![s[i as int]].drop_last() =~= Seq::<char>::empty());
        }
        assert(s.take(k as int) =~= s.take(i as int) + seq![s[i as int]]);
    } else {
        assert(s.take(0) =~= Seq::<char>::empty());
        assert(grouped_prefix(s, 0).filter(not_comma()) =~= Seq::<char>::empty()) by {
            reveal_with_fuel(Seq::<_>::filter, 1);
        }
    }
}

/// The command that publishes the widget as `@huma_kripto`.
pub fn update(value: &str) -> (a: Action)
    ensures
        a@ == ActionView::SetGlobal("@huma_kripto"@, value@),
{
    set_global_option("@huma_kripto", value)
}

} // verus!
