//! Answering when the bot is mentioned.

use vstd::prelude::*;
use vstd::string::StringExecFns;
use std::ops::ControlFlow;
use crate::irc_core::client::privmsg_text;
use crate::irc_core::handler::{Context, ContextView, Handler};
use crate::irc_core::irc_msg::{Command, CommandView, Msg, MsgView};
use crate::text::{ascii_lower, chars_of, contains, find_in, lower_chars, lowercase};

verus! {

/// Answers every chat message that mentions the bot's nick.
pub struct ReplyHandler;

/// Whether `message` mentions `nick`: the message with its ASCII
/// capitals lowered holds the lower-case form of the nick.
pub open spec fn mentions(message: Seq<char>, nick: Seq<char>) -> bool {
    contains(ascii_lower(message), lowercase(nick))
}

/// The answer to a mention.
pub open spec fn mention_text(nick: Seq<char>) -> Seq<char> {
    "where is "@ + nick + ", where is "@ + nick
}

/// Builds the answer to a mention.
pub fn mention_line(nick: &str) -> (r: String)
    ensures
        r@ == mention_text(nick@),
{
    let mut r = String::from_str("where is ");
    r.append(nick);
    r.append(", where is ");
    r.append(nick);
    r
}

/// Whether `message` mentions `nick`; see [`mentions`].
pub fn is_mentioned(message: &str, nick: &str) -> (r: bool)
    ensures
        r == mentions(message@, nick@),
{
    let hay = lower_chars(message);
    let lowered = nick.to_lowercase();
    let pat = chars_of(lowered.as_str());
    find_in(&hay, &pat, 0).is_some()
}

impl Handler for ReplyHandler {
    /// A chat message that mentions the bot is answered where it came
    /// from; the chain always goes on.
    open spec fn handles(&self, before: ContextView, msg: MsgView, after: ContextView, stop: bool) -> bool {
        match msg.command {
            CommandView::Privmsg { target, message } => if mentions(message, before.client.nick) {
                &&& !stop
                &&& after.state == before.state
                &&& after.client == before.client.offer(
                    privmsg_text(target, mention_text(before.client.nick)),
                )
            } else {
                after == before && !stop
            },
            _ => after == before && !stop,
        }
    }

    fn handle(&self, ctx: &mut Context, msg: &Msg) -> (flow: ControlFlow<()>) {
        if let Command::Privmsg { target, message } = &msg.command {
            if is_mentioned(message.as_str(), ctx.client.nick()) {
                let reply = mention_line(ctx.client.nick());
                let _ = ctx.client.privmsg(target.as_str(), reply.as_str());
            }
        }
        ControlFlow::Continue(())
    }
}

} // verus!
