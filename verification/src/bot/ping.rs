//! Keeping the connection alive.

use vstd::prelude::*;
use std::ops::ControlFlow;
use crate::irc_core::client::pong_text;
use crate::irc_core::handler::{Context, ContextView, Handler};
use crate::irc_core::irc_msg::{Command, CommandView, Msg, MsgView};

verus! {

/// Answers every `PING` with a `PONG` that carries the same token, and
/// stops the chain there.
pub struct PingHandler;

impl Handler for PingHandler {
    open spec fn handles(&self, before: ContextView, msg: MsgView, after: ContextView, stop: bool) -> bool {
        match msg.command {
            CommandView::Ping { token } => {
                &&& stop
                &&& after.state == before.state
                &&& after.client == before.client.offer(pong_text(token))
            },
            _ => after == before && !stop,
        }
    }

    fn handle(&self, ctx: &mut Context, msg: &Msg) -> (flow: ControlFlow<()>) {
        if let Command::Ping { token } = &msg.command {
            let token: Option<&str> = match token {
                Some(t) => Some(t.as_str()),
                None => None,
            };
            let _ = ctx.client.pong(token);
            return ControlFlow::Break(());
        }
        ControlFlow::Continue(())
    }
}

} // verus!
