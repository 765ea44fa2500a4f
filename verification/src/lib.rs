//! Status-bar awareness widgets for tmux: the verified core.
pub mod text;
pub mod ssh;
pub mod config;
pub mod kripto;
pub mod path;
pub mod autoreload;
pub mod tmux;
pub mod suspend;
pub mod battery;
pub mod online;
pub mod mode;
pub mod load;
pub mod player;
pub mod icon;
pub mod sensible;
pub mod daemon;
pub mod cli;
