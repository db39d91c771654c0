//! The command line.
pub mod tmux;
