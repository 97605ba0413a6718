//! The client core: grammar, connection-side line handling, shared state
//! and handler dispatch.

pub mod bot;
pub mod client;
pub mod handler;
pub mod irc_msg;
pub mod nick_map;
