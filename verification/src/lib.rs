//! The decisions of the `herdr` terminal multiplexer about host colors, tmux
//! sessions and agents.
//!
//! Processes, terminals and sockets stay with the caller. Where a request needs
//! them, a function returns the step to be done next, and another takes what it
//! came to.
pub mod api;
pub mod cli;
pub mod external;
pub mod panel;
pub mod schema;
pub mod state;
pub mod terminal_theme;
pub mod text;
pub mod tmux;
