//! The handlers of API requests.
pub mod agents;
pub mod explain;
pub mod keys;
pub mod prompt;
pub mod tmux;
