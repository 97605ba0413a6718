//! A small IRC client core: message grammar, outbound line construction,
//! shared bot state and an ordered chain of message handlers.

pub mod bot;
pub mod clock;
pub mod irc_core;
pub mod irc_msg;
pub mod text;
