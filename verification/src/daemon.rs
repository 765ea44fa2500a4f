//! The update cycle: which user options the daemon writes, how often, and
//! whether another daemon already holds the lock.
use vstd::prelude::*;
use crate::config::Config;
use crate::text::{parse_i32, parse_i32_chars, parse_u64, parse_u64_chars, to_chars, trim, trim_chars};
use crate::tmux::{Action, ActionView, actions_view, set_global_option};

verus! {

/// The widget values of one update cycle.
pub struct Widgets {
    pub online: String,
    pub battery: String,
    pub load: String,
    pub ssh: String,
}

/// Why an update cycle did not run.
#[derive(Debug, Clone, Copy, PartialEq, Eq, Structural)]
pub enum DaemonError {
    /// No tmux server answered.
    NoServer,
}

impl DaemonError {
    pub fn message(&self) -> (r: String)
        ensures
            r@ == "no tmux server running"@,
    {
        "no tmux server running".to_owned()
    }
}

/// One cycle writes `@huma_online`, `@huma_battery`, `@huma_load`, `@huma_ssh`.
pub open spec fn once_spec(w: Widgets) -> Seq<ActionView> {
    seq![
        ActionView::SetGlobal("@huma_online"@, w.online@),
        ActionView::SetGlobal("@huma_battery"@, w.battery@),
        ActionView::SetGlobal("@huma_load"@, w.load@),
        ActionView::SetGlobal("@huma_ssh"@, w.ssh@),
    ]
}

/// One update cycle: without a tmux server, an error; otherwise the commands
/// that publish the widget values.
pub fn once(server_running: bool, w: &Widgets) -> (r: Result<Vec<Action>, DaemonError>)
    ensures
        !server_running ==> r == Err::<Vec<Action>, DaemonError>(DaemonError::NoServer),
        server_running ==> (r matches Ok(acts) && actions_view(acts@) == once_spec(*w)),
{
    if !server_running {
        return Err(DaemonError::NoServer);
    }
    let acts = vec![
        set_global_option("@huma_online", w.online.as_str()),
        set_global_option("@huma_battery", w.battery.as_str()),
        set_global_option("@huma_load", w.load.as_str()),
        set_global_option("@huma_ssh", w.ssh.as_str()),
    ];
    assert(actions_view(acts@) =~= once_spec(*w));
    Ok(acts)
}

/// How long to sleep between cycles.
#[derive(Debug, Clone, Copy, PartialEq, Eq, Structural)]
pub enum Interval {
    Millis(u64),
    Secs(u64),
}

/// `HUMA_DAEMON_INTERVAL_MS`, when set to a number, overrides
/// `@huma-interval` (seconds).
pub open spec fn interval_spec(env_ms: Option<Seq<char>>, cfg: Config) -> Interval {
    match env_ms {
        Some(s) => match parse_u64(s) {
            Some(ms) => Interval::Millis(ms),
            None => Interval::Secs(cfg.interval_secs),
        },
        None => Interval::Secs(cfg.interval_secs),
    }
}

pub fn interval(env_ms: Option<&str>, cfg: &Config) -> (r: Interval)
    ensures
        r == interval_spec(
            match env_ms {
                Some(s) => Some(s@),
                None => None,
            },
            *cfg,
        ),
{
    match env_ms {
        Some(s) => match parse_u64_chars(&to_chars(s)) {
            Some(ms) => Interval::Millis(ms),
            None => Interval::Secs(cfg.interval_secs),
        },
        None => Interval::Secs(cfg.interval_secs),
    }
}

/// The pid recorded in the lock file (its trimmed contents, as a number).
pub fn lock_pid(contents: &str) -> (r: Option<i32>)
    ensures
        r == parse_i32(trim(contents@)),
{
    parse_i32_chars(&trim_chars(&to_chars(contents)))
}

// ---------------------------------------------------------------------------
// The daemon loop
// ---------------------------------------------------------------------------

/// Where the daemon is: before it looked at the lock, updating, or done.
#[derive(Debug, Clone, Copy, PartialEq, Eq, Structural)]
pub enum DaemonState {
    Starting,
    Running,
    Stopped,
}

/// What the daemon learnt since its last decision.
#[derive(Debug, Clone, Copy, PartialEq, Eq, Structural)]
pub enum DaemonEvent {
    /// The lock file was read; `holder_alive`: it names a process that still runs.
    LockRead { holder_alive: bool },
    /// A cycle ran and the interval elapsed; `server_running`: tmux still answers.
    Woke { server_running: bool },
}

/// What the daemon does next.
#[derive(Debug, Clone, Copy, PartialEq, Eq, Structural)]
pub enum DaemonAction {
    /// Stop, leaving the lock alone.
    Exit,
    /// Write our pid to the lock, run a cycle, sleep.
    Claim,
    /// Run a cycle, sleep.
    Cycle,
    /// Remove the lock and stop.
    Release,
}

/// The daemon's decisions: another live daemon means exit at once; otherwise
/// take the lock and update every interval until the tmux server is gone,
/// then give the lock back. Once stopped it stays stopped.
pub open spec fn daemon_step(s: DaemonState, e: DaemonEvent) -> (DaemonState, DaemonAction) {
    match (s, e) {
        (DaemonState::Starting, DaemonEvent::LockRead { holder_alive }) => if holder_alive {
            (DaemonState::Stopped, DaemonAction::Exit)
        } else {
            (DaemonState::Running, DaemonAction::Claim)
        },
        (DaemonState::Running, DaemonEvent::Woke { server_running }) => if server_running {
            (DaemonState::Running, DaemonAction::Cycle)
        } else {
            (DaemonState::Stopped, DaemonAction::Release)
        },
        _ => (DaemonState::Stopped, DaemonAction::Exit),
    }
}

pub fn step(s: DaemonState, e: DaemonEvent) -> (r: (DaemonState, DaemonAction))
    ensures
        r == daemon_step(s, e),
{
    match (s, e) {
        (DaemonState::Starting, DaemonEvent::LockRead { holder_alive }) => if holder_alive {
            (DaemonState::Stopped, DaemonAction::Exit)
        } else {
            (DaemonState::Running, DaemonAction::Claim)
        },
        (DaemonState::Running, DaemonEvent::Woke { server_running }) => if server_running {
            (DaemonState::Running, DaemonAction::Cycle)
        } else {
            (DaemonState::Stopped, DaemonAction::Release)
        },
        _ => (DaemonState::Stopped, DaemonAction::Exit),
    }
}

/// The states and actions of a daemon fed `events` from `s`, in order.
pub open spec fn daemon_run(s: DaemonState, events: Seq<DaemonEvent>) -> (DaemonState, Seq<DaemonAction>)
    decreases events.len(),
{
    if events.len() == 0 {
        (s, Seq::empty())
    } else {
        let (s1, acts) = daemon_run(s, events.drop_last());
        let (s2, a) = daemon_step(s1, events.last());
        (s2, acts.push(a))
    }
}

pub open spec fn stops(a: DaemonAction) -> bool {
    a == DaemonAction::Exit || a == DaemonAction::Release
}

/// Single instance, and an end once tmux is gone: over any run from the
/// start, the lock is taken at most once, as the first action and only when
/// no live daemon held it; it is given back only when tmux stopped
/// answering; after the daemon stopped (exit or release) it does nothing
/// more.
pub proof fn single_instance(events: Seq<DaemonEvent>)
    ensures
        ({
            let acts = daemon_run(DaemonState::Starting, events).1;
            &&& acts.len() == events.len()
            &&& forall|i: int|
                0 <= i < acts.len() && #[trigger] acts[i] == DaemonAction::Claim ==> i == 0
                    && events[0] == (DaemonEvent::LockRead { holder_alive: false })
            &&& forall|i: int|
                0 <= i < acts.len() && #[trigger] acts[i] == DaemonAction::Release ==> events[i]
                    == (DaemonEvent::Woke { server_running: false })
            &&& forall|i: int, j: int|
                0 <= i < j < acts.len() && stops(#[trigger] acts[i]) ==> #[trigger] acts[j]
                    == DaemonAction::Exit
        }),
        events.len() > 0 ==> daemon_run(DaemonState::Starting, events).0 != DaemonState::Starting,
        (exists|i: int|
            0 <= i < events.len() && stops(#[trigger] daemon_run(DaemonState::Starting, events).1[i]))
            ==> daemon_run(DaemonState::Starting, events).0 == DaemonState::Stopped,
    decreases events.len(),
{
    if events.len() > 0 {
        let pre = events.drop_last();
        single_instance(pre);
        let (s1, acts1) = daemon_run(DaemonState::Starting, pre);
        let acts = daemon_run(DaemonState::Starting, events).1;
        assert(acts == acts1.push(daemon_step(s1, events.last()).1));
        assert forall|i: int| 0 <= i < pre.len() implies acts[i] == acts1[i] && events[i] == pre[i] by {}
        if exists|i: int| 0 <= i < events.len() && stops(#[trigger] acts[i]) {
            let i = choose|i: int| 0 <= i < events.len() && stops(#[trigger] acts[i]);
            if i < pre.len() {
                assert(stops(acts1[i]));
            }
        }
    }
}

/// A daemon that finds the lock free, wakes `k` times with tmux answering,
/// then once with tmux gone.
pub open spec fn serving_events(k: nat) -> Seq<DaemonEvent> {
    seq![DaemonEvent::LockRead { holder_alive: false }] + Seq::new(
        k,
        |i: int| DaemonEvent::Woke { server_running: true },
    ) + seq![DaemonEvent::Woke { server_running: false }]
}

proof fn lemma_serving_prefix(j: nat)
    ensures
        daemon_run(
            DaemonState::Starting,
            seq![DaemonEvent::LockRead { holder_alive: false }] + Seq::new(
                j,
                |i: int| DaemonEvent::Woke { server_running: true },
            ),
        ) == (DaemonState::Running, seq![DaemonAction::Claim] + Seq::new(
            j,
            |i: int| DaemonAction::Cycle,
        )),
    decreases j,
{
    let ev = seq![DaemonEvent::LockRead { holder_alive: false }] + Seq::new(
        j,
        |i: int| DaemonEvent::Woke { server_running: true },
    );
    if j == 0 {
        assert(ev =~= seq![DaemonEvent::LockRead { holder_alive: false }]);
        assert(ev.drop_last() =~= Seq::<DaemonEvent>::empty());
        assert(daemon_run(DaemonState::Starting, ev.drop_last()) == (
            DaemonState::Starting,
            Seq::<DaemonAction>::empty(),
        ));
        assert(ev.last() == DaemonEvent::LockRead { holder_alive: false });
        assert(seq![DaemonAction::Claim] + Seq::new(0, |i: int| DaemonAction::Cycle) =~= seq![
            DaemonAction::Claim,
        ]);
        assert(Seq::<DaemonAction>::empty().push(DaemonAction::Claim) =~= seq![DaemonAction::Claim]);
    } else {
        lemma_serving_prefix((j - 1) as nat);
        assert(ev.drop_last() =~= seq![DaemonEvent::LockRead { holder_alive: false }] + Seq::new(
            (j - 1) as nat,
            |i: int| DaemonEvent::Woke { server_running: true },
        ));
        assert(ev.last() == DaemonEvent::Woke { server_running: true });
        assert(daemon_run(DaemonState::Starting, ev.drop_last()) == (
            DaemonState::Running,
            seq![DaemonAction::Claim] + Seq::new((j - 1) as nat, |i: int| DaemonAction::Cycle),
        ));
        assert((seq![DaemonAction::Claim] + Seq::new((j - 1) as nat, |i: int| DaemonAction::Cycle)).push(
            DaemonAction::Cycle,
        ) =~= seq![DaemonAction::Claim] + Seq::new(j, |i: int| DaemonAction::Cycle));
    }
}

/// The daemon's whole run: with the lock free, it takes the lock, runs one
/// cycle per wake while tmux answers, and releases the lock and stops at
/// the first wake after tmux is gone; with a live daemon holding the lock,
/// it only exits.
pub proof fn serving_run(k: nat)
    ensures
        daemon_run(DaemonState::Starting, serving_events(k)) == (
            DaemonState::Stopped,
            seq![DaemonAction::Claim] + Seq::new(k, |i: int| DaemonAction::Cycle) + seq![
                DaemonAction::Release,
            ],
        ),
        daemon_run(
            DaemonState::Starting,
            seq![DaemonEvent::LockRead { holder_alive: true }],
        ) == (DaemonState::Stopped, seq![DaemonAction::Exit]),
{
    lemma_serving_prefix(k);
    let ev = serving_events(k);
    assert(ev.drop_last() =~= seq![DaemonEvent::LockRead { holder_alive: false }] + Seq::new(
        k,
        |i: int| DaemonEvent::Woke { server_running: true },
    ));
    assert(ev.last() == DaemonEvent::Woke { server_running: false });
    assert(daemon_run(DaemonState::Starting, ev.drop_last()) == (
        DaemonState::Running,
        seq![DaemonAction::Claim] + Seq::new(k, |i: int| DaemonAction::Cycle),
    ));
    let one = seq![DaemonEvent::LockRead { holder_alive: true }];
    assert(one.drop_last() =~= Seq::<DaemonEvent>::empty());
    assert(daemon_run(DaemonState::Starting, one.drop_last()) == (
        DaemonState::Starting,
        Seq::<DaemonAction>::empty(),
    ));
    assert(one.last() == DaemonEvent::LockRead { holder_alive: true });
    assert(Seq::<DaemonAction>::empty().push(DaemonAction::Exit) =~= seq![DaemonAction::Exit]);
}

} // verus!
