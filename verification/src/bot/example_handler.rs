//! A greeting on request.

use vstd::prelude::*;
use vstd::string::StringExecFns;
use std::ops::ControlFlow;
use crate::irc_core::client::privmsg_text;
use crate::irc_core::handler::{Context, ContextView, Handler};
use crate::irc_core::irc_msg::{Command, CommandView, Msg, MsgView};
use crate::text::{has_prefix, starts_with};

verus! {

/// Greets whoever begins a chat message with `!test`.
pub struct ExampleHandler;

/// The greeting for a sender: `hi <nick>`, or `hi someone` where the
/// message names no nick.
pub open spec fn greeting_text(nick: Option<Seq<char>>) -> Seq<char> {
    match nick {
        Some(n) => "hi "@ + n,
        None => "hi "@ + "someone"@,
    }
}

impl Handler for ExampleHandler {
    /// A chat message that begins with `!test` is answered, where it
    /// came from, with the greeting; the chain always goes on.
    open spec fn handles(&self, before: ContextView, msg: MsgView, after: ContextView, stop: bool) -> bool {
        match msg.command {
            CommandView::Privmsg { target, message } => if starts_with(message, "!test"@) {
                &&& !stop
                &&& after.state == before.state
                &&& after.client == before.client.offer(
                    privmsg_text(target, greeting_text(msg.nick())),
                )
            } else {
                after == before && !stop
            },
            _ => after == before && !stop,
        }
    }

    fn handle(&self, ctx: &mut Context, msg: &Msg) -> (flow: ControlFlow<()>) {
        if let Command::Privmsg { target, message } = &msg.command {
            if has_prefix(message.as_str(), "!test") {
                let mut text = String::from_str("hi ");
                match msg.nick() {
                    Some(nick) => text.append(nick.as_str()),
                    None => text.append("someone"),
                }
                let _ = ctx.client.privmsg(target.as_str(), text.as_str());
            }
        }
        ControlFlow::Continue(())
    }
}

} // verus!
