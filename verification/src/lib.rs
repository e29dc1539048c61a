//! A typed client for the tmux terminal multiplexer.
//!
//! The crate holds the pure part of the client: the grammars that read the
//! lines tmux prints, the checks on a finished command, the clean-up of a
//! captured pane, and the decisions of the server start-up. Every function
//! carries a contract that is proved against its body.

pub mod capture_laws;
pub mod client;
pub mod command;
pub mod error;
pub mod options;
pub mod pane_id;
pub mod parse;
pub mod parse_laws;
pub mod readiness;
pub mod server;
pub mod session_id;
pub mod split;
pub mod text;
pub mod utils;
pub mod window_id;
