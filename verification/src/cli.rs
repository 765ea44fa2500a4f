//! The command line: one subcommand per widget or action.
use vstd::prelude::*;

verus! {

pub struct Cli {
    pub cmd: Cmd,
}

pub enum Cmd {
    /// Run the update daemon (writes the widget options periodically)
    Daemon,
    /// Run one update cycle and exit
    Once,
    /// Print the @huma_mode format string
    Mode,
    /// Print the online widget
    Online,
    /// Print the battery widget
    Battery,
    /// Print the load widget
    Load,
    /// Refresh @huma_ssh for the active pane
    Ssh,
    /// Print the crypto-price widget (TTL-cached CoinGecko fetch)
    Kripto,
    /// Print the now-playing widget (playerctl)
    Player,
    /// Print the Nerd Font icon for a command
    Icon { command: String },
    /// Apply a modern tmux baseline (only options still at their default)
    Sensible,
    /// Suspend: disable the prefix so keys pass through
    Suspend,
    /// Resume from the suspended pass-through state
    Resume,
}

} // verus!
