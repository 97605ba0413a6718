//! Remembering who spoke last, and answering who asks.

use vstd::prelude::*;
use vstd::string::StringExecFns;
use std::ops::ControlFlow;
use crate::clock::{human_text, humanize, micros_between, now, Timestamp};
use crate::irc_core::client::privmsg_text;
use crate::irc_core::handler::{
    contains_text,
    is_chat,
    Handler,
    Context,
    ContextView,
    PrivmsgHandler,
    SeenInfo,
    SeenInfoView,
    State,
    StateView,
};
use crate::irc_core::irc_msg::{nick_of, MsgView};
use crate::irc_core::nick_map::NickMap;
use crate::text::{
    ascii_lower,
    chars_of,
    lower_chars,
    lowercase,
    occurs_at,
    same_text,
    split_words,
    starts_with,
    texts,
    words,
    Spacing,
};

verus! {

/// Records what is said in the joined channels and answers
/// `<bot>, seen <nick>`.
pub struct SeenHandler;

/// The answer to a question about `target`, given at `now`.
pub open spec fn seen_text(
    seen: Map<Seq<char>, SeenInfoView>,
    target: Seq<char>,
    now: Timestamp,
) -> Seq<char> {
    if seen.contains_key(target) {
        target + " was last seen "@ + human_text(micros_between(seen[target].last_seen, now))
            + " saying: "@ + seen[target].message
    } else {
        "I have not seen "@ + target
    }
}

/// Whether `message` is addressed to the bot: with its ASCII capitals
/// lowered it begins with the bot's nick and a comma.
pub open spec fn is_addressed(message: Seq<char>, own: Seq<char>) -> bool {
    starts_with(ascii_lower(message), own + ","@)
}

/// The nick that a message asks about: its third word, where it has
/// three and the second reads `seen` in lower case.
pub open spec fn seen_query(message: Seq<char>) -> Option<Seq<char>> {
    let parts = words(message, Spacing::Unicode);
    if parts.len() >= 3 && lowercase(parts[1]) == "seen"@ {
        Some(parts[2])
    } else {
        None
    }
}

/// What the handler does with a chat message when the clock reads `now`.
///
/// Outside the joined channels nothing happens. A message addressed to
/// the bot is answered if it asks about a nick, and is not recorded.
/// Every other message is recorded under the speaker's `nick` as that
/// nick's last, unless the nick is empty. The chain always goes on.
pub open spec fn seen_outcome(
    before: ContextView,
    nick: Seq<char>,
    channel: Seq<char>,
    message: Seq<char>,
    now: Timestamp,
    after: ContextView,
    stop: bool,
) -> bool {
    &&& !stop
    &&& if !before.state.channels.contains(channel) {
        after == before
    } else if is_addressed(message, before.client.nick) {
        match seen_query(message) {
            Some(target) => {
                &&& after.state == before.state
                &&& after.client == before.client.offer(
                    privmsg_text(channel, seen_text(before.state.seen, target, now)),
                )
            },
            None => after == before,
        }
    } else if nick.len() > 0 {
        &&& after.client == before.client
        &&& after.state == (StateView {
            seen: before.state.seen.insert(
                nick,
                SeenInfoView { nick, last_seen: now, message },
            ),
            ..before.state
        })
    } else {
        after == before
    }
}

/// Builds the answer to a question about `target_nick`, given at `now`.
pub fn format_seen_response_at(state: &State, target_nick: &str, now: Timestamp) -> (r: String)
    requires
        state.wf(),
    ensures
        r@ == seen_text(state@.seen, target_nick@, now),
{
    match state.seen.get(target_nick) {
        Some(info) => {
            let human_time = humanize(info.last_seen.micros_since(now));
            let mut r = target_nick.to_owned();
            r.append(" was last seen ");
            r.append(human_time.as_str());
            r.append(" saying: ");
            r.append(info.message.as_str());
            r
        },
        None => {
            let mut r = String::from_str("I have not seen ");
            r.append(target_nick);
            r
        },
    }
}

/// Builds the answer to a question about `target_nick`, given now.
pub fn format_seen_response(state: &State, target_nick: &str) -> (r: String)
    requires
        state.wf(),
    ensures
        exists|at: Timestamp| r@ == seen_text(state@.seen, target_nick@, at),
{
    format_seen_response_at(state, target_nick, now())
}

/// Records that `nick` said `message` at `now`, in place of any
/// earlier sighting of `nick`.
pub fn update_seen(seen: &mut NickMap<SeenInfo>, nick: &str, message: &str, now: Timestamp)
    requires
        old(seen).wf(),
    ensures
        final(seen).wf(),
        final(seen)@ == old(seen)@.insert(
            nick@,
            SeenInfoView { nick: nick@, last_seen: now, message: message@ },
        ),
{
    State::update_seen(seen, nick, message, now);
}

/// Whether `message` is addressed to `own`; see [`is_addressed`].
pub fn addressed_to(message: &str, own: &str) -> (r: bool)
    ensures
        r == is_addressed(message@, own@),
{
    let mut query = own.to_owned();
    query.append(",");
    let lowered = lower_chars(message);
    let pat = chars_of(query.as_str());
    occurs_at(&lowered, &pat, 0)
}

/// The nick that `message` asks about; see [`seen_query`].
pub fn asked_about<'a>(message: &'a str) -> (r: Option<&'a str>)
    ensures
        match r {
            Some(t) => seen_query(message@) == Some(t@),
            None => seen_query(message@) is None,
        },
{
    let parts = split_words(message, Spacing::Unicode);
    if parts.len() >= 3 {
        let verb = parts[1].to_lowercase();
        assert(texts(parts@)[1] == parts@[1]@);
        assert(texts(parts@)[2] == parts@[2]@);
        if same_text(verb.as_str(), "seen") {
            return Some(parts[2]);
        }
    }
    None
}

impl SeenHandler {
    /// Handles one chat message with the clock reading `now`.
    pub fn handle_privmsg_at(
        &self,
        ctx: &mut Context,
        nick: &str,
        channel: &str,
        message: &str,
        now: Timestamp,
    ) -> (flow: ControlFlow<()>)
        requires
            old(ctx).wf(),
        ensures
            final(ctx).wf(),
            seen_outcome(old(ctx)@, nick@, channel@, message@, now, final(ctx)@, flow is Break),
    {
        if !contains_text(&ctx.state.channels, channel) {
            return ControlFlow::Continue(());
        }
        if addressed_to(message, ctx.client.nick()) {
            if let Some(target_nick) = asked_about(message) {
                let response = format_seen_response_at(&ctx.state, target_nick, now);
                let _ = ctx.client.privmsg(channel, response.as_str());
            }
            return ControlFlow::Continue(());
        }
        if nick.unicode_len() > 0 {
            update_seen(&mut ctx.state.seen, nick, message, now);
        }
        ControlFlow::Continue(())
    }
}

impl PrivmsgHandler for SeenHandler {
    /// The outcome of [`seen_outcome`] for some reading of the clock.
    open spec fn handles_privmsg(
        &self,
        before: ContextView,
        nick: Seq<char>,
        channel: Seq<char>,
        message: Seq<char>,
        after: ContextView,
        stop: bool,
    ) -> bool {
        exists|at: Timestamp| seen_outcome(before, nick, channel, message, at, after, stop)
    }

    fn handle_privmsg(&self, ctx: &mut Context, nick: &str, channel: &str, message: &str) -> (flow:
        ControlFlow<()>) {
        self.handle_privmsg_at(ctx, nick, channel, message, now())
    }
}

/// What is said in a joined channel is recorded under the speaker's
/// nick, not under the whole prefix: after a chat message that is not
/// addressed to the bot, from a prefix with a nick, the sighting of that
/// nick holds the nick and the text, and every other sighting stands as
/// it stood.
pub proof fn lemma_sighting_stands_under_the_nick(
    before: ContextView,
    msg: MsgView,
    after: ContextView,
    stop: bool,
)
    requires
        is_chat(msg),
        before.state.channels.contains(msg.command->Privmsg_target),
        !is_addressed(msg.command->Privmsg_message, before.client.nick),
        nick_of(msg.source).len() > 0,
        SeenHandler.handles(before, msg, after, stop),
    ensures
        !stop,
        after.client == before.client,
        after.state.seen.contains_key(nick_of(msg.source)),
        after.state.seen[nick_of(msg.source)].nick == nick_of(msg.source),
        after.state.seen[nick_of(msg.source)].message == msg.command->Privmsg_message,
        forall|other: Seq<char>|
            other != nick_of(msg.source) ==> after.state.seen.contains_key(other)
                == before.state.seen.contains_key(other) && (before.state.seen.contains_key(other)
                ==> after.state.seen[other] == before.state.seen[other]),
{
}

} // verus!
