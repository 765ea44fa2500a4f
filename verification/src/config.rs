//! `@huma-*` configuration, decided from the values of tmux global options.
//!
//! tmux reports an unset option as the empty string; every option then falls
//! back to its documented default.
use vstd::prelude::*;
use crate::text::{
    digit_value, digits_value, chars_eq, parse_u32, parse_u32_chars, parse_u64, parse_u64_chars, parse_usize,
    parse_usize_chars, split_trim, split_trim_nonempty, strings_view, to_chars,
};

verus! {

/// The values of tmux global options, as `show-options -gqv <name>` printed them.
pub struct OptionValues {
    pub entries: Vec<(String, String)>,
}

/// The value recorded for `name` (the first entry with that name), or the
/// empty string when there is none, as tmux prints for an unset option.
pub open spec fn option_value(entries: Seq<(String, String)>, name: Seq<char>) -> Seq<char>
    decreases entries.len(),
{
    if entries.len() == 0 {
        Seq::empty()
    } else if entries[0].0@ == name {
        entries[0].1@
    } else {
        option_value(entries.drop_first(), name)
    }
}

/// An option's value, or `default` when it is empty.
pub open spec fn or_default(v: Seq<char>, default: Seq<char>) -> Seq<char> {
    if v.len() == 0 {
        default
    } else {
        v
    }
}

/// A switch option: empty gives `default`; `on`, `1`, `true`, `yes` are true;
/// anything else is false.
pub open spec fn switch_value(v: Seq<char>, default: bool) -> bool {
    if v.len() == 0 {
        default
    } else {
        v == seq!['o', 'n'] || v == seq!['1'] || v == seq!['t', 'r', 'u', 'e'] || v == seq![
            'y',
            'e',
            's',
        ]
    }
}

pub open spec fn unwrap_or<T>(o: Option<T>, d: T) -> T {
    match o {
        Some(x) => x,
        None => d,
    }
}

impl OptionValues {
    pub open spec fn value(&self, name: Seq<char>) -> Seq<char> {
        option_value(self.entries@, name)
    }

    /// An empty set of values: every option unset.
    pub fn new() -> (r: Self)
        ensures
            r.entries@.len() == 0,
    {
        OptionValues { entries: Vec::new() }
    }

    /// Records the value tmux printed for `name`.
    pub fn push(&mut self, name: String, value: String)
        ensures
            final(self).entries@ == old(self).entries@.push((name, value)),
    {
        self.entries.push((name, value));
    }

    /// The value of option `name` (empty when unset).
    pub fn get(&self, name: &str) -> (r: String)
        ensures
            r@ == self.value(name@),
    {
        let n = to_chars(name);
        let mut i: usize = 0;
        assert(self.entries@.skip(0) =~= self.entries@);
        while i < self.entries.len()
            invariant
                i <= self.entries.len(),
                option_value(self.entries@, n@) == option_value(self.entries@.skip(i as int), n@),
                n@ == name@,
            decreases self.entries.len() - i,
        {
            let k = to_chars(self.entries[i].0.as_str());
            assert(self.entries@.skip(i as int)[0] == self.entries@[i as int]);
            assert(self.entries@.skip(i as int).drop_first() =~= self.entries@.skip(i + 1));
            if chars_eq(&k, &n) {
                return self.entries[i].1.clone();
            }
            i += 1;
        }
        String::new()
    }
}

/// The value of `name`, or `default` when tmux reports it empty.
pub fn opt_or(opts: &OptionValues, name: &str, default: &str) -> (r: String)
    ensures
        r@ == or_default(opts.value(name@), default@),
{
    let v = opts.get(name);
    if v.as_str().is_empty() {
        default.to_owned()
    } else {
        v
    }
}

/// The switch `name`: `on`/`1`/`true`/`yes` are true, empty is `default`.
pub fn opt_bool(opts: &OptionValues, name: &str, default: bool) -> (r: bool)
    ensures
        r == switch_value(opts.value(name@), default),
{
    let v = to_chars(opts.get(name).as_str());
    if v.len() == 0 {
        return default;
    }
    let on = to_chars("on");
    let one = to_chars("1");
    let tru = to_chars("true");
    let yes = to_chars("yes");
    proof {
        reveal_strlit("on");
        reveal_strlit("1");
        reveal_strlit("true");
        reveal_strlit("yes");
        assert(on@ =~= seq!['o', 'n']);
        assert(one@ =~= seq!['1']);
        assert(tru@ =~= seq!['t', 'r', 'u', 'e']);
        assert(yes@ =~= seq!['y', 'e', 's']);
    }
    chars_eq(&v, &on) || chars_eq(&v, &one) || chars_eq(&v, &tru) || chars_eq(&v, &yes)
}

pub struct Config {
    pub interval_secs: u64,
    pub online_host: String,
    pub online_timeout_secs: u64,
    pub online_latency: bool,
    pub online_up: String,
    pub online_down: String,
    pub battery_low: u32,
    pub load_mem: bool,
    pub load_icon: String,
    pub mode_prefix: String,
    pub mode_copy: String,
    pub mode_sync: String,
    pub mode_mouse: String,
    pub ssh_user_at_host: bool,
    pub kripto_coins: Vec<String>,
    pub kripto_currency: String,
    pub kripto_symbol: String,
    pub kripto_ttl: u64,
    pub player_format: String,
    pub player_max: usize,
    pub player_playing: String,
    pub player_paused: String,
    pub player_name: String,
    pub icon_shell: String,
    pub icon_editor: String,
    pub icon_default: String,
    pub mode_suspend: String,
    pub autoreload: bool,
    pub autoreload_configs: Vec<String>,
}

/// The names of every option `Config::load` reads, in the order of its fields.
pub open spec fn option_names_spec() -> Seq<Seq<char>> {
    seq![
        "@huma-interval"@,
        "@huma-online-host"@,
        "@huma-online-timeout"@,
        "@huma-online-latency"@,
        "@huma-online-icon-up"@,
        "@huma-online-icon-down"@,
        "@huma-battery-low"@,
        "@huma-load-mem"@,
        "@huma-load-icon"@,
        "@huma-mode-prefix"@,
        "@huma-mode-copy"@,
        "@huma-mode-sync"@,
        "@huma-mode-mouse"@,
        "@huma-ssh-format"@,
        "@huma-kripto-coins"@,
        "@huma-kripto-currency"@,
        "@huma-kripto-symbol"@,
        "@huma-kripto-ttl"@,
        "@huma-player-format"@,
        "@huma-player-max"@,
        "@huma-player-playing"@,
        "@huma-player-paused"@,
        "@huma-player-name"@,
        "@huma-icon-shell"@,
        "@huma-icon-editor"@,
        "@huma-icon-default"@,
        "@huma-mode-suspend"@,
        "@huma-autoreload"@,
        "@huma-autoreload-configs"@,
    ]
}

pub fn option_names() -> (r: Vec<String>)
    ensures
        strings_view(r@) == option_names_spec(),
{
    let r = vec![
        "@huma-interval".to_owned(),
        "@huma-online-host".to_owned(),
        "@huma-online-timeout".to_owned(),
        "@huma-online-latency".to_owned(),
        "@huma-online-icon-up".to_owned(),
        "@huma-online-icon-down".to_owned(),
        "@huma-battery-low".to_owned(),
        "@huma-load-mem".to_owned(),
        "@huma-load-icon".to_owned(),
        "@huma-mode-prefix".to_owned(),
        "@huma-mode-copy".to_owned(),
        "@huma-mode-sync".to_owned(),
        "@huma-mode-mouse".to_owned(),
        "@huma-ssh-format".to_owned(),
        "@huma-kripto-coins".to_owned(),
        "@huma-kripto-currency".to_owned(),
        "@huma-kripto-symbol".to_owned(),
        "@huma-kripto-ttl".to_owned(),
        "@huma-player-format".to_owned(),
        "@huma-player-max".to_owned(),
        "@huma-player-playing".to_owned(),
        "@huma-player-paused".to_owned(),
        "@huma-player-name".to_owned(),
        "@huma-icon-shell".to_owned(),
        "@huma-icon-editor".to_owned(),
        "@huma-icon-default".to_owned(),
        "@huma-mode-suspend".to_owned(),
        "@huma-autoreload".to_owned(),
        "@huma-autoreload-configs".to_owned(),
    ];
    assert(strings_view(r@) =~= option_names_spec());
    r
}

impl Config {
    /// Shorthand for an option's value with its default applied.
    pub open spec fn opt(opts: &OptionValues, name: Seq<char>, default: Seq<char>) -> Seq<char> {
        or_default(opts.value(name), default)
    }

    /// `c` is the configuration that the option values `opts` describe.
    pub open spec fn loaded(c: Config, opts: OptionValues) -> bool {
        let o = &opts;
        &&& c.interval_secs == unwrap_or(parse_u64(Self::opt(o, "@huma-interval"@, "5"@)), 5u64)
        &&& c.online_host@ == Self::opt(o, "@huma-online-host"@, "1.1.1.1:443"@)
        &&& c.online_timeout_secs == unwrap_or(
            parse_u64(Self::opt(o, "@huma-online-timeout"@, "1"@)),
            1u64,
        )
        &&& c.online_latency == switch_value(o.value("@huma-online-latency"@), true)
        &&& c.online_up@ == Self::opt(o, "@huma-online-icon-up"@, "\u{2713}"@)
        &&& c.online_down@ == Self::opt(o, "@huma-online-icon-down"@, "\u{2717}"@)
        &&& c.battery_low == unwrap_or(parse_u32(Self::opt(o, "@huma-battery-low"@, "20"@)), 20u32)
        &&& c.load_mem == switch_value(o.value("@huma-load-mem"@), false)
        &&& c.load_icon@ == Self::opt(o, "@huma-load-icon"@, "\u{259f}"@)
        &&& c.mode_prefix@ == Self::opt(o, "@huma-mode-prefix"@, "\u{2328}"@)
        &&& c.mode_copy@ == Self::opt(o, "@huma-mode-copy"@, "\u{2750}"@)
        &&& c.mode_sync@ == Self::opt(o, "@huma-mode-sync"@, "\u{268f}"@)
        &&& c.mode_mouse@ == Self::opt(o, "@huma-mode-mouse"@, "\u{2197}"@)
        &&& c.ssh_user_at_host == (Self::opt(o, "@huma-ssh-format"@, "host"@) == "user@host"@)
        &&& strings_view(c.kripto_coins@) == split_trim_nonempty(
            Self::opt(o, "@huma-kripto-coins"@, ""@),
            ',',
        )
        &&& c.kripto_currency@ == Self::opt(o, "@huma-kripto-currency"@, "usd"@)
        &&& c.kripto_symbol@ == Self::opt(o, "@huma-kripto-symbol"@, "$"@)
        &&& c.kripto_ttl == unwrap_or(parse_u64(Self::opt(o, "@huma-kripto-ttl"@, "300"@)), 300u64)
        &&& c.player_format@ == Self::opt(o, "@huma-player-format"@, "{{artist}} - {{title}}"@)
        &&& c.player_max == unwrap_or(parse_usize(Self::opt(o, "@huma-player-max"@, "40"@)), 40usize)
        &&& c.player_playing@ == Self::opt(o, "@huma-player-playing"@, "\u{25b6}"@)
        &&& c.player_paused@ == Self::opt(o, "@huma-player-paused"@, "\u{23f8}"@)
        &&& c.player_name@ == Self::opt(o, "@huma-player-name"@, ""@)
        &&& c.icon_shell@ == Self::opt(o, "@huma-icon-shell"@, ""@)
        &&& c.icon_editor@ == Self::opt(o, "@huma-icon-editor"@, ""@)
        &&& c.icon_default@ == Self::opt(o, "@huma-icon-default"@, "?"@)
        &&& c.mode_suspend@ == Self::opt(o, "@huma-mode-suspend"@, "\u{f04b2}"@)
        &&& c.autoreload == switch_value(o.value("@huma-autoreload"@), false)
        &&& strings_view(c.autoreload_configs@) == split_trim_nonempty(
            Self::opt(o, "@huma-autoreload-configs"@, ""@),
            ',',
        )
    }

    /// The configuration the options describe.
    pub fn load(opts: &OptionValues) -> (c: Self)
        ensures
            Self::loaded(c, *opts),
    {
        let interval = to_chars(opt_or(opts, "@huma-interval", "5").as_str());
        let timeout = to_chars(opt_or(opts, "@huma-online-timeout", "1").as_str());
        let low = to_chars(opt_or(opts, "@huma-battery-low", "20").as_str());
        let ttl = to_chars(opt_or(opts, "@huma-kripto-ttl", "300").as_str());
        let max = to_chars(opt_or(opts, "@huma-player-max", "40").as_str());
        let ssh_format = opt_or(opts, "@huma-ssh-format", "host");
        let user_at_host = "user@host".to_owned();
        let coins = opt_or(opts, "@huma-kripto-coins", "");
        let configs = opt_or(opts, "@huma-autoreload-configs", "");
        Config {
            interval_secs: match parse_u64_chars(&interval) {
                Some(v) => v,
                None => 5,
            },
            online_host: opt_or(opts, "@huma-online-host", "1.1.1.1:443"),
            online_timeout_secs: match parse_u64_chars(&timeout) {
                Some(v) => v,
                None => 1,
            },
            online_latency: opt_bool(opts, "@huma-online-latency", true),
            online_up: opt_or(opts, "@huma-online-icon-up", "\u{2713}"),
            online_down: opt_or(opts, "@huma-online-icon-down", "\u{2717}"),
            battery_low: match parse_u32_chars(&low) {
                Some(v) => v,
                None => 20,
            },
            load_mem: opt_bool(opts, "@huma-load-mem", false),
            load_icon: opt_or(opts, "@huma-load-icon", "\u{259f}"),
            mode_prefix: opt_or(opts, "@huma-mode-prefix", "\u{2328}"),
            mode_copy: opt_or(opts, "@huma-mode-copy", "\u{2750}"),
            mode_sync: opt_or(opts, "@huma-mode-sync", "\u{268f}"),
            mode_mouse: opt_or(opts, "@huma-mode-mouse", "\u{2197}"),
            ssh_user_at_host: ssh_format == user_at_host,
            kripto_coins: split_trim(coins.as_str(), ','),
            kripto_currency: opt_or(opts, "@huma-kripto-currency", "usd"),
            kripto_symbol: opt_or(opts, "@huma-kripto-symbol", "$"),
            kripto_ttl: match parse_u64_chars(&ttl) {
                Some(v) => v,
                None => 300,
            },
            player_format: opt_or(opts, "@huma-player-format", "{{artist}} - {{title}}"),
            player_max: match parse_usize_chars(&max) {
                Some(v) => v,
                None => 40,
            },
            player_playing: opt_or(opts, "@huma-player-playing", "\u{25b6}"),
            player_paused: opt_or(opts, "@huma-player-paused", "\u{23f8}"),
            player_name: opt_or(opts, "@huma-player-name", ""),
            icon_shell: opt_or(opts, "@huma-icon-shell", ""),
            icon_editor: opt_or(opts, "@huma-icon-editor", ""),
            icon_default: opt_or(opts, "@huma-icon-default", "?"),
            mode_suspend: opt_or(opts, "@huma-mode-suspend", "\u{f04b2}"),
            autoreload: opt_bool(opts, "@huma-autoreload", false),
            autoreload_configs: split_trim(configs.as_str(), ','),
        }
    }

    /// A fixed configuration with short, distinct icons, for exercising the widgets.
    pub fn test() -> (c: Self)
        ensures
            c.interval_secs == 5,
            c.online_host@ == "x"@,
            c.online_timeout_secs == 1,
            c.online_latency,
            c.online_up@ == "\u{2713}"@,
            c.online_down@ == "\u{2717}"@,
            c.battery_low == 20,
            !c.load_mem,
            c.load_icon@ == "\u{259f}"@,
            c.mode_prefix@ == "P"@,
            c.mode_copy@ == "C"@,
            c.mode_sync@ == "S"@,
            c.mode_mouse@ == "M"@,
            !c.ssh_user_at_host,
            c.kripto_coins@.len() == 0,
            c.kripto_currency@ == "usd"@,
            c.kripto_symbol@ == "$"@,
            c.kripto_ttl == 300,
            c.player_format@ == "{{artist}} - {{title}}"@,
            c.player_max == 40,
            c.player_playing@ == "\u{25b6}"@,
            c.player_paused@ == "\u{23f8}"@,
            c.player_name@.len() == 0,
            c.icon_shell@.len() == 0,
            c.icon_editor@.len() == 0,
            c.icon_default@ == "?"@,
            c.mode_suspend@ == "Z"@,
            !c.autoreload,
            c.autoreload_configs@.len() == 0,
    {
        Config {
            interval_secs: 5,
            online_host: "x".to_owned(),
            online_timeout_secs: 1,
            online_latency: true,
            online_up: "\u{2713}".to_owned(),
            online_down: "\u{2717}".to_owned(),
            battery_low: 20,
            load_mem: false,
            load_icon: "\u{259f}".to_owned(),
            mode_prefix: "P".to_owned(),
            mode_copy: "C".to_owned(),
            mode_sync: "S".to_owned(),
            mode_mouse: "M".to_owned(),
            ssh_user_at_host: false,
            kripto_coins: Vec::new(),
            kripto_currency: "usd".to_owned(),
            kripto_symbol: "$".to_owned(),
            kripto_ttl: 300,
            player_format: "{{artist}} - {{title}}".to_owned(),
            player_max: 40,
            player_playing: "\u{25b6}".to_owned(),
            player_paused: "\u{23f8}".to_owned(),
            player_name: String::new(),
            icon_shell: String::new(),
            icon_editor: String::new(),
            icon_default: "?".to_owned(),
            mode_suspend: "Z".to_owned(),
            autoreload: false,
            autoreload_configs: Vec::new(),
        }
    }
}

/// Unset options take the documented defaults: with no option values at
/// all, the configuration is the default table (interval 5 s, probe
/// `1.1.1.1:443` with a 1 s timeout and latency shown, low battery at 20 %,
/// no coins, kripto TTL 300 s, player text cut at 40, autoreload off, ...).
pub proof fn unset_options_take_defaults(c: Config, opts: OptionValues)
    requires
        opts.entries@.len() == 0,
        Config::loaded(c, opts),
    ensures
        c.interval_secs == 5,
        c.online_host@ == "1.1.1.1:443"@,
        c.online_timeout_secs == 1,
        c.online_latency,
        c.online_up@ == "\u{2713}"@,
        c.online_down@ == "\u{2717}"@,
        c.battery_low == 20,
        !c.load_mem,
        c.load_icon@ == "\u{259f}"@,
        c.mode_prefix@ == "\u{2328}"@,
        c.mode_copy@ == "\u{2750}"@,
        c.mode_sync@ == "\u{268f}"@,
        c.mode_mouse@ == "\u{2197}"@,
        !c.ssh_user_at_host,
        c.kripto_coins@.len() == 0,
        c.kripto_currency@ == "usd"@,
        c.kripto_symbol@ == "$"@,
        c.kripto_ttl == 300,
        c.player_format@ == "{{artist}} - {{title}}"@,
        c.player_max == 40,
        c.player_playing@ == "\u{25b6}"@,
        c.player_paused@ == "\u{23f8}"@,
        c.player_name@.len() == 0,
        c.icon_shell@.len() == 0,
        c.icon_editor@.len() == 0,
        c.icon_default@ == "?"@,
        c.mode_suspend@ == "\u{f04b2}"@,
        !c.autoreload,
        c.autoreload_configs@.len() == 0,
{
    reveal_strlit("5");
    reveal_strlit("1");
    reveal_strlit("20");
    reveal_strlit("300");
    reveal_strlit("40");
    reveal_strlit("");
    reveal_strlit("host");
    reveal_strlit("user@host");
    lemma_digits_value_literal();
    assert("5"@ =~= seq!['5']);
    assert("1"@ =~= seq!['1']);
    assert("20"@ =~= seq!['2', '0']);
    assert("300"@ =~= seq!['3', '0', '0']);
    assert("40"@ =~= seq!['4', '0']);
    assert(split_trim_nonempty(""@, ',') =~= Seq::<Seq<char>>::empty());
    assert(strings_view(c.kripto_coins@).len() == c.kripto_coins@.len());
    assert(strings_view(c.autoreload_configs@).len() == c.autoreload_configs@.len());
    assert("host"@ != "user@host"@) by {
        assert("host"@.len() != "user@host"@.len());
    }
}

proof fn lemma_digits_value_literal()
    ensures
        parse_u64(seq!['5']) == Some(5u64),
        parse_u64(seq!['1']) == Some(1u64),
        parse_u32(seq!['2', '0']) == Some(20u32),
        parse_u64(seq!['3', '0', '0']) == Some(300u64),
        parse_usize(seq!['4', '0']) == Some(40usize),
{
    assert(seq!['5'].drop_last() =~= Seq::<char>::empty());
    assert(seq!['1'].drop_last() =~= Seq::<char>::empty());
    assert(seq!['2', '0'].drop_last() =~= seq!['2']);
    assert(seq!['2'].drop_last() =~= Seq::<char>::empty());
    assert(seq!['4', '0'].drop_last() =~= seq!['4']);
    assert(seq!['4'].drop_last() =~= Seq::<char>::empty());
    assert(seq!['3', '0', '0'].drop_last() =~= seq!['3', '0']);
    assert(seq!['3', '0'].drop_last() =~= seq!['3']);
    assert(seq!['3'].drop_last() =~= Seq::<char>::empty());
    assert(digit_value('0') == 0 && digit_value('1') == 1 && digit_value('2') == 2 && digit_value('3') == 3 && digit_value('4') == 4 && digit_value('5') == 5) by {
        assert(('0' as int) == 48 && ('1' as int) == 49 && ('2' as int) == 50 && ('3' as int) == 51 && ('4' as int) == 52 && ('5' as int) == 53);
    }
    assert(digits_value(Seq::<char>::empty()) == 0);
    assert(seq!['2'].last() == '2' && seq!['4'].last() == '4' && seq!['3'].last() == '3');
    assert(digits_value(seq!['2']) == 2);
    assert(digits_value(seq!['4']) == 4);
    assert(digits_value(seq!['3']) == 3);
    assert(digits_value(seq!['2', '0']) == 20);
    assert(digits_value(seq!['4', '0']) == 40);
    assert(digits_value(seq!['3', '0']) == 30);
    assert(digits_value(seq!['3', '0', '0']) == 300);
}

} // verus!
