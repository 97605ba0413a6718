//! A bot that is itself a handler.

use vstd::prelude::*;
use std::ops::ControlFlow;
use crate::irc_core::bot::Bot;
use crate::irc_core::client::{join_text, pong_text, privmsg_text};
use crate::irc_core::handler::{Context, ContextView, Handler};
use crate::irc_core::irc_msg::{Command, CommandView, Msg, MsgView};
use crate::text::same_text;

verus! {

/// Wraps a bot and answers the few messages every bot must answer.
pub struct Botty<H: Handler> {
    bot: Bot<H>,
}

impl<H: Handler> Botty<H> {
    /// The wrapped bot.
    pub closed spec fn bot(self) -> Bot<H> {
        self.bot
    }

    pub fn new(bot: Bot<H>) -> (b: Self)
        ensures
            b.bot() == bot,
    {
        Botty { bot }
    }
}

impl<H: Handler> Handler for Botty<H> {
    /// A `PING` is answered and the end of the message of the day makes
    /// the bot join `#el_rb_test376`; both stop the chain. A chat message
    /// that reads `!hello` is answered with `Hello!`, and the chain goes
    /// on, as it does on every other message.
    open spec fn handles(&self, before: ContextView, msg: MsgView, after: ContextView, stop: bool) -> bool {
        match msg.command {
            CommandView::Ping { token } => {
                &&& stop
                &&& after.state == before.state
                &&& after.client == before.client.offer(pong_text(token))
            },
            CommandView::Numeric { code, .. } => if code == 376 || code == 422 {
                &&& stop
                &&& after.state == before.state
                &&& after.client == before.client.offer(join_text("#el_rb_test376"@))
            } else {
                after == before && !stop
            },
            CommandView::Privmsg { target, message } => if message == "!hello"@ {
                &&& !stop
                &&& after.state == before.state
                &&& after.client == before.client.offer(privmsg_text(target, "Hello!"@))
            } else {
                after == before && !stop
            },
            _ => after == before && !stop,
        }
    }

    fn handle(&self, ctx: &mut Context, msg: &Msg) -> (flow: ControlFlow<()>) {
        match &msg.command {
            Command::Ping { token } => {
                let token: Option<&str> = match token {
                    Some(t) => Some(t.as_str()),
                    None => None,
                };
                let _ = ctx.client.pong(token);
                ControlFlow::Break(())
            },
            Command::Numeric { code, .. } => {
                if *code == 376 || *code == 422 {
                    let _ = ctx.client.join("#el_rb_test376");
                    ControlFlow::Break(())
                } else {
                    ControlFlow::Continue(())
                }
            },
            Command::Privmsg { target, message } => {
                if same_text(message.as_str(), "!hello") {
                    let _ = ctx.client.privmsg(target.as_str(), "Hello!");
                }
                ControlFlow::Continue(())
            },
            _ => ControlFlow::Continue(()),
        }
    }
}

} // verus!
