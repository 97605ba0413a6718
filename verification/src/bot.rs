//! The handlers that give the bot its behaviour.

use vstd::prelude::*;
use std::ops::ControlFlow;
use crate::irc_core::handler::{Context, ContextView, Handler};
use crate::irc_core::irc_msg::{Msg, MsgView};

pub mod botty;
pub mod example_handler;
pub mod names;
pub mod ping;
pub mod reply;
pub mod rumors;
pub mod score;
pub mod seen;
pub mod welcome;

verus! {

/// Any one of the handlers of this module, so that a chain can hold
/// handlers of different kinds.
pub enum Personality {
    Example(example_handler::ExampleHandler),
    Names(names::NamesHandler),
    Ping(ping::PingHandler),
    Reply(reply::ReplyHandler),
    Score(score::ScoreHandler),
    Seen(seen::SeenHandler),
    Welcome(welcome::WelcomeHandler),
}

impl Handler for Personality {
    /// What the handler inside does.
    open spec fn handles(&self, before: ContextView, msg: MsgView, after: ContextView, stop: bool) -> bool {
        match self {
            Personality::Example(h) => h.handles(before, msg, after, stop),
            Personality::Names(h) => h.handles(before, msg, after, stop),
            Personality::Ping(h) => h.handles(before, msg, after, stop),
            Personality::Reply(h) => h.handles(before, msg, after, stop),
            Personality::Score(h) => h.handles(before, msg, after, stop),
            Personality::Seen(h) => h.handles(before, msg, after, stop),
            Personality::Welcome(h) => h.handles(before, msg, after, stop),
        }
    }

    fn handle(&self, ctx: &mut Context, msg: &Msg) -> (flow: ControlFlow<()>) {
        match self {
            Personality::Example(h) => h.handle(ctx, msg),
            Personality::Names(h) => h.handle(ctx, msg),
            Personality::Ping(h) => h.handle(ctx, msg),
            Personality::Reply(h) => h.handle(ctx, msg),
            Personality::Score(h) => h.handle(ctx, msg),
            Personality::Seen(h) => h.handle(ctx, msg),
            Personality::Welcome(h) => h.handle(ctx, msg),
        }
    }
}

} // verus!
