//! tmux commands as values, and what they do to tmux's global options.
//!
//! The library decides which commands to run; the program runs them with the
//! `tmux` CLI.
use vstd::prelude::*;
use crate::text::{
    char_pred, drop_while_end, extend_chars, extend_str, from_chars, join, join_chars,
    lemma_strings_view_push, lossy, strings_view, to_chars, trim, trim_chars, trim_end_char,
    utf8_lossy, vecs_view,
};

verus! {

/// A tmux command.
#[derive(Debug)]
pub enum Action {
    /// `set-option -g <name> <value>`
    SetGlobal { name: String, value: String },
    /// `set-option -gu <name>`: back to tmux's default.
    UnsetGlobal { name: String },
    /// Any other command, by its arguments; it changes no global option.
    Run { args: Vec<String> },
}

/// An `Action` by the text of its parts.
pub enum ActionView {
    SetGlobal(Seq<char>, Seq<char>),
    UnsetGlobal(Seq<char>),
    Run(Seq<Seq<char>>),
}

impl View for Action {
    type V = ActionView;

    open spec fn view(&self) -> ActionView {
        match self {
            Action::SetGlobal { name, value } => ActionView::SetGlobal(name@, value@),
            Action::UnsetGlobal { name } => ActionView::UnsetGlobal(name@),
            Action::Run { args } => ActionView::Run(strings_view(args@)),
        }
    }
}

pub open spec fn actions_view(v: Seq<Action>) -> Seq<ActionView> {
    v.map_values(|a: Action| a@)
}

/// The global options, by name; an absent name is at tmux's default.
pub type Options = Map<Seq<char>, Seq<char>>;

/// What `show-options -gqv <name>` prints: the value, or empty at the default.
pub open spec fn shown(o: Options, name: Seq<char>) -> Seq<char> {
    if o.contains_key(name) {
        o[name]
    } else {
        Seq::empty()
    }
}

/// The global options after one command.
pub open spec fn apply(o: Options, a: ActionView) -> Options {
    match a {
        ActionView::SetGlobal(n, v) => o.insert(n, v),
        ActionView::UnsetGlobal(n) => o.remove(n),
        ActionView::Run(_) => o,
    }
}

/// The global options after a sequence of commands, in order.
pub open spec fn apply_all(o: Options, acts: Seq<ActionView>) -> Options
    decreases acts.len(),
{
    if acts.len() == 0 {
        o
    } else {
        apply(apply_all(o, acts.drop_last()), acts.last())
    }
}

/// The arguments of the tmux invocation that performs `a`.
pub open spec fn args_spec(a: ActionView) -> Seq<Seq<char>> {
    match a {
        ActionView::SetGlobal(n, v) => seq!["set-option"@, "-g"@, n, v],
        ActionView::UnsetGlobal(n) => seq!["set-option"@, "-gu"@, n],
        ActionView::Run(args) => args,
    }
}

impl Action {
    /// The arguments to hand to `tmux` for this command.
    pub fn args(&self) -> (r: Vec<String>)
        ensures
            strings_view(r@) == args_spec(self@),
    {
        match self {
            Action::SetGlobal { name, value } => {
                let r = vec![
                    "set-option".to_owned(),
                    "-g".to_owned(),
                    name.clone(),
                    value.clone(),
                ];
                assert(strings_view(r@) =~= args_spec(self@));
                r
            },
            Action::UnsetGlobal { name } => {
                let r = vec!["set-option".to_owned(), "-gu".to_owned(), name.clone()];
                assert(strings_view(r@) =~= args_spec(self@));
                r
            },
            Action::Run { args } => {
                let mut r: Vec<String> = Vec::new();
                let mut i: usize = 0;
                while i < args.len()
                    invariant
                        i <= args.len(),
                        strings_view(r@) == strings_view(args@).take(i as int),
                    decreases args.len() - i,
                {
                    proof {
                        lemma_strings_view_push(r@, args@[i as int]);
                    }
                    r.push(args[i].clone());
                    assert(strings_view(args@).take(i + 1) =~= strings_view(args@).take(
                        i as int,
                    ).push(args@[i as int]@));
                    i += 1;
                }
                assert(strings_view(args@).take(i as int) =~= strings_view(args@));
                r
            },
        }
    }
}

/// The arguments that read a global option: `show-options -gqv <name>`.
pub fn global_option(name: &str) -> (r: Vec<String>)
    ensures
        strings_view(r@) == seq!["show-options"@, "-gqv"@, name@],
{
    let r = vec!["show-options".to_owned(), "-gqv".to_owned(), name.to_owned()];
    assert(strings_view(r@) =~= seq!["show-options"@, "-gqv"@, name@]);
    r
}

/// The command that sets a global option.
pub fn set_global_option(name: &str, value: &str) -> (a: Action)
    ensures
        a@ == ActionView::SetGlobal(name@, value@),
{
    Action::SetGlobal { name: name.to_owned(), value: value.to_owned() }
}

/// The command that returns a global option to its default.
pub fn unset_global_option(name: &str) -> (a: Action)
    ensures
        a@ == ActionView::UnsetGlobal(name@),
{
    Action::UnsetGlobal { name: name.to_owned() }
}

/// Any other tmux command, by its arguments.
pub fn run(args: &[&str]) -> (a: Action)
    ensures
        a@ == ActionView::Run(args@.map_values(|s: &str| s@)),
{
    let mut v: Vec<String> = Vec::new();
    let mut i: usize = 0;
    while i < args.len()
        invariant
            i <= args.len(),
            strings_view(v@) == args@.take(i as int).map_values(|s: &str| s@),
        decreases args.len() - i,
    {
        let ghost before = v@;
        v.push(args[i].to_owned());
        assert(strings_view(v@) =~= args@.take(i + 1).map_values(|s: &str| s@)) by {
            assert(strings_view(v@) =~= strings_view(before).push(args@[i as int]@));
        }
        i += 1;
    }
    assert(args@.take(i as int) =~= args@);
    Action::Run { args: v }
}

/// What a successful `tmux` call printed: its output decoded as UTF-8
/// (invalid sequences replaced), without the trailing newlines.
pub open spec fn output_text(stdout: Seq<u8>) -> Seq<char> {
    drop_while_end(utf8_lossy(stdout), char_pred('\n'))
}

pub fn output(stdout: &[u8]) -> (r: String)
    ensures
        r@ == output_text(stdout@),
{
    from_chars(&trim_end_char(&to_chars(lossy(stdout).as_str()), '\n'))
}

/// Why a `tmux` call failed: `tmux <args> failed: <its error output, trimmed>`.
pub open spec fn failure_text(args: Seq<Seq<char>>, stderr: Seq<u8>) -> Seq<char> {
    "tmux "@ + join(args, seq![' ']) + " failed: "@ + trim(utf8_lossy(stderr))
}

pub fn failure(args: &[String], stderr: &[u8]) -> (r: String)
    ensures
        r@ == failure_text(strings_view(args@), stderr@),
{
    let mut parts: Vec<Vec<char>> = Vec::new();
    let mut i: usize = 0;
    while i < args.len()
        invariant
            i <= args.len(),
            vecs_view(parts@) == strings_view(args@).take(i as int),
        decreases args.len() - i,
    {
        let ghost before = parts@;
        parts.push(to_chars(args[i].as_str()));
        assert(vecs_view(parts@) =~= vecs_view(before).push(args@[i as int]@));
        assert(strings_view(args@).take(i + 1) =~= strings_view(args@).take(i as int).push(
            args@[i as int]@,
        ));
        i += 1;
    }
    assert(strings_view(args@).take(i as int) =~= strings_view(args@));
    let sep = vec![' '];
    let joined = join_chars(&parts, &sep);
    let err = trim_chars(&to_chars(lossy(stderr).as_str()));
    let mut out = to_chars("tmux ");
    extend_chars(&mut out, &joined);
    extend_str(&mut out, " failed: ");
    extend_chars(&mut out, &err);
    assert(sep@ =~= seq![' ']);
    assert(out@ =~= failure_text(strings_view(args@), stderr@));
    from_chars(&out)
}

} // verus!
