//! Rumors: told to the bot, and told again when someone asks.
//!
//! The store of rumors is kept elsewhere. This module decides what is
//! asked of the store and what is said in the channel.

use vstd::prelude::*;
use vstd::string::StringExecFns;
use std::ops::ControlFlow;
use rand::seq::IndexedRandom;
use crate::irc_core::client::{privmsg_text, Client};
use crate::irc_core::handler::is_chat;
use crate::irc_core::irc_msg::{nick_of, opt_str, strings, Command, Msg, MsgView};
use crate::text::{
    chars_of,
    ends_with,
    find,
    find_in,
    has_prefix,
    lowercase,
    same_text,
    split_words,
    starts_with,
    texts,
    trim,
    trim_end,
    trimmed,
    without_trailing,
    words,
    Spacing,
};

verus! {

/// Takes what is told to the bot for a rumor, and answers questions with
/// a rumor on their topic.
pub struct RumorsHandler {
    bot_name: String,
    canned_prefixes: Vec<String>,
}

/// What a chat message asks of the store of rumors.
#[derive(Debug, PartialEq, Eq)]
pub enum RumorAction {
    /// The message is not for the bot; the chain goes on.
    Pass,
    /// Look for a stored rumor that mentions `topic` and hand what is
    /// found to [`RumorsHandler::tell`], for `channel`.
    Fetch { channel: String, topic: String },
    /// Store `rumor` as told by `nick` in `channel`, then call
    /// [`RumorsHandler::thank`].
    Store { nick: String, channel: String, rumor: String },
    /// The message is for the bot and asks nothing.
    Ignore,
}

/// The mathematical value of a [`RumorAction`].
pub enum RumorActionView {
    Pass,
    Fetch { channel: Seq<char>, topic: Seq<char> },
    Store { nick: Seq<char>, channel: Seq<char>, rumor: Seq<char> },
    Ignore,
}

impl View for RumorAction {
    type V = RumorActionView;

    open spec fn view(&self) -> RumorActionView {
        match *self {
            RumorAction::Pass => RumorActionView::Pass,
            RumorAction::Fetch { channel, topic } => RumorActionView::Fetch {
                channel: channel@,
                topic: topic@,
            },
            RumorAction::Store { nick, channel, rumor } => RumorActionView::Store {
                nick: nick@,
                channel: channel@,
                rumor: rumor@,
            },
            RumorAction::Ignore => RumorActionView::Ignore,
        }
    }
}

/// Whether `message` is addressed to `bot_name`: in lower case it begins
/// with the lower-case name and a comma or a colon.
pub open spec fn names_bot(bot_name: Seq<char>, message: Seq<char>) -> bool {
    starts_with(lowercase(message), lowercase(bot_name) + ","@) || starts_with(
        lowercase(message),
        lowercase(bot_name) + ":"@,
    )
}

/// What is left of `message` behind as many characters as the name has
/// and one more (all of it, where the message is shorter), trimmed.
pub open spec fn behind_name(bot_name: Seq<char>, message: Seq<char>) -> Seq<char> {
    let k: int = if bot_name.len() + 1 <= message.len() {
        (bot_name.len() + 1) as int
    } else {
        message.len() as int
    };
    trimmed(message.subrange(k, message.len() as int), Spacing::Unicode)
}

/// The message without the bot's name in front of it, where it is
/// addressed to the bot.
pub open spec fn stripped(bot_name: Seq<char>, message: Seq<char>) -> Option<Seq<char>> {
    if names_bot(bot_name, message) {
        Some(behind_name(bot_name, message))
    } else {
        None
    }
}

/// The topic of a question: the first word of a message that ends, once
/// trimmed, with a question mark, the question marks at its end set
/// aside.
pub open spec fn topic_of(message: Seq<char>) -> Option<Seq<char>> {
    let t = trimmed(message, Spacing::Unicode);
    let ws = words(without_trailing(t, '?'), Spacing::Unicode);
    if ends_with(t, "?"@) && ws.len() > 0 {
        Some(ws[0])
    } else {
        None
    }
}

/// Whether `word` is one of `who`, `what`, `when`, `where`, `why`, `how`.
pub open spec fn is_interrogative(word: Seq<char>) -> bool {
    word == "who"@ || word == "what"@ || word == "when"@ || word == "where"@ || word == "why"@
        || word == "how"@
}

/// The position, at or after `i`, of the first interrogative among
/// `lowered` that has a word behind it in a message of `n` words.
pub open spec fn first_interrogative(lowered: Seq<Seq<char>>, n: int, i: int) -> Option<int>
    decreases lowered.len() - i,
{
    if i < 0 || i >= lowered.len() {
        None
    } else if is_interrogative(lowered[i]) && i + 1 < n {
        Some(i)
    } else {
        first_interrogative(lowered, n, i + 1)
    }
}

/// The tail of a message from the first place at which the word behind
/// its first interrogative occurs.
pub open spec fn query_tail(message: Seq<char>) -> Option<Seq<char>> {
    let own = words(message, Spacing::Unicode);
    let lowered = words(lowercase(message), Spacing::Unicode);
    match first_interrogative(lowered, own.len() as int, 0) {
        Some(i) => {
            let from = match find(message, own[i + 1]) {
                Some(k) => k,
                None => message.len() as int,
            };
            Some(message.subrange(from, message.len() as int))
        },
        None => None,
    }
}

/// What a chat message, said by `nick` in `channel`, asks of the store.
pub open spec fn action_for(
    bot_name: Seq<char>,
    nick: Seq<char>,
    channel: Seq<char>,
    message: Seq<char>,
) -> RumorActionView {
    match stripped(bot_name, message) {
        None => RumorActionView::Pass,
        Some(rest) => match topic_of(rest) {
            Some(topic) => RumorActionView::Fetch { channel, topic },
            None => if nick.len() > 0 && rest.len() > 0 {
                RumorActionView::Store { nick, channel, rumor: rest }
            } else {
                RumorActionView::Ignore
            },
        },
    }
}

/// Strips the bot's name from the front of a message; `None` where the
/// message is not addressed to the bot.
pub fn strip_bot_prefix<'a>(bot_name: &str, message: &'a str) -> (r: Option<&'a str>)
    ensures
        opt_str(r) == stripped(bot_name@, message@),
{
    let lowered = message.to_lowercase();
    let mut with_comma = bot_name.to_lowercase();
    let mut with_colon = with_comma.clone();
    with_comma.append(",");
    with_colon.append(":");
    if has_prefix(lowered.as_str(), with_comma.as_str()) || has_prefix(
        lowered.as_str(),
        with_colon.as_str(),
    ) {
        let n: usize = message.unicode_len();
        let m: usize = bot_name.unicode_len();
        let k: usize = if m < n {
            m + 1
        } else {
            n
        };
        Some(trim(message.substring_char(k, n), Spacing::Unicode))
    } else {
        None
    }
}

/// Whether `word` is an interrogative; see [`is_interrogative`].
fn interrogative(word: &str) -> (r: bool)
    ensures
        r == is_interrogative(word@),
{
    same_text(word, "who") || same_text(word, "what") || same_text(word, "when") || same_text(
        word,
        "where",
    ) || same_text(word, "why") || same_text(word, "how")
}

/// Returns the tail of a message behind its first interrogative word, if
/// it has one with a word behind it.
pub fn extract_query_tail<'a>(message: &'a str) -> (r: Option<&'a str>)
    ensures
        opt_str(r) == query_tail(message@),
{
    let lowered = message.to_lowercase();
    let orig_words = split_words(message, Spacing::Unicode);
    let lowered_words = split_words(lowered.as_str(), Spacing::Unicode);
    let ghost lw = texts(lowered_words@);
    let ghost n = orig_words@.len() as int;
    let mut i: usize = 0;
    while i < lowered_words.len()
        invariant
            i <= lowered_words.len(),
            lw == texts(lowered_words@),
            lw == words(lowercase(message@), Spacing::Unicode),
            texts(orig_words@) == words(message@, Spacing::Unicode),
            n == orig_words@.len(),
            first_interrogative(lw, n, 0) == first_interrogative(lw, n, i as int),
        decreases lowered_words.len() - i,
    {
        assert(lw[i as int] == lowered_words@[i as int]@);
        if interrogative(lowered_words[i]) && i + 1 < orig_words.len() {
            let next = orig_words[i + 1];
            assert(texts(orig_words@)[i + 1] == next@);
            let cs = chars_of(message);
            let pat = chars_of(next);
            let from: usize = match find_in(&cs, &pat, 0) {
                Some(k) => {
                    proof {
                        crate::text::lemma_find_from(message@, next@, 0);
                    }
                    k
                },
                None => cs.len(),
            };
            return Some(message.substring_char(from, cs.len()));
        }
        i = i + 1;
    }
    None
}

/// Extracts the topic of a message that ends with a question mark.
pub fn extract_topic<'a>(message: &'a str) -> (r: Option<&'a str>)
    ensures
        opt_str(r) == topic_of(message@),
{
    let t = trim(message, Spacing::Unicode);
    let cs = chars_of(t);
    let mark = chars_of("?");
    proof {
        reveal_strlit("?");
    }
    if cs.len() >= 1 && cs[cs.len() - 1] == '?' {
        assert(t@.subrange(t@.len() - 1, t@.len() as int) =~= "?"@);
        let ws = split_words(trim_end(t, '?'), Spacing::Unicode);
        if ws.len() > 0 {
            assert(texts(ws@)[0] == ws@[0]@);
            Some(ws[0])
        } else {
            None
        }
    } else {
        if cs.len() >= 1 {
            assert(t@.subrange(t@.len() - 1, t@.len() as int)[0] == t@[t@.len() - 1]);
        }
        None
    }
}

/// Picks one of `items` through `rand::rng` and
/// `IndexedRandom::choose`: nothing from an empty list, else one of its
/// items, whichever the generator gives.
#[verifier::external_body]
fn pick<'a>(items: &'a Vec<String>) -> (r: Option<&'a String>)
    ensures
        r is None <==> items@.len() == 0,
        r matches Some(s) ==> items@.contains(*s),
{
    items.as_slice().choose(&mut rand::rng())
}

/// The phrases that a rumor may be introduced with.
pub open spec fn stock_prefixes() -> Seq<Seq<char>> {
    seq![
        "rumor has it"@,
        "i heard that"@,
        "they say"@,
        "word on the street is"@,
        "people are saying"@,
    ]
}

/// What a message asks of the store when it reaches the handler, which
/// stands last in the chain: nothing where an earlier handler stopped
/// the chain (`stopped`), and nothing where the message is no chat
/// message with a sender. A chat message is read as said by the nick in
/// its prefix.
pub open spec fn action_for_msg(bot_name: Seq<char>, msg: MsgView, stopped: bool) -> RumorActionView {
    if !stopped && is_chat(msg) {
        action_for(
            bot_name,
            nick_of(msg.source),
            msg.command->Privmsg_target,
            msg.command->Privmsg_message,
        )
    } else {
        RumorActionView::Pass
    }
}

/// What a retold rumor reads like with `prefix` before it.
pub open spec fn rumor_text(prefix: Seq<char>, rumor: Seq<char>) -> Seq<char> {
    prefix + " "@ + rumor
}

impl RumorsHandler {
    /// The name that the handler answers to.
    pub closed spec fn bot_name(self) -> Seq<char> {
        self.bot_name@
    }

    /// The phrases that the handler introduces a rumor with.
    pub closed spec fn prefixes(self) -> Seq<Seq<char>> {
        strings(self.canned_prefixes@)
    }

    /// The phrase used where the handler has none to choose from.
    pub open spec fn fallback_prefix() -> Seq<char> {
        "i may be broken but i know for sure that"@
    }

    /// Whether `prefix` is one that [`RumorsHandler::random_prefix`] may
    /// return.
    pub open spec fn may_introduce(self, prefix: Seq<char>) -> bool {
        if self.prefixes().len() == 0 {
            prefix == Self::fallback_prefix()
        } else {
            self.prefixes().contains(prefix)
        }
    }

    /// A handler for the bot `bot_name`, with the stock phrases.
    pub fn new(bot_name: &str) -> (h: Self)
        ensures
            h.bot_name() == bot_name@,
            h.prefixes() == stock_prefixes(),
    {
        let mut canned_prefixes: Vec<String> = Vec::new();
        canned_prefixes.push(String::from_str("rumor has it"));
        canned_prefixes.push(String::from_str("i heard that"));
        canned_prefixes.push(String::from_str("they say"));
        canned_prefixes.push(String::from_str("word on the street is"));
        canned_prefixes.push(String::from_str("people are saying"));
        assert(strings(canned_prefixes@) =~= stock_prefixes());
        RumorsHandler { bot_name: bot_name.to_owned(), canned_prefixes }
    }

    /// A handler for the bot `bot_name`, with phrases of its own.
    pub fn with_prefixes(bot_name: &str, canned_prefixes: Vec<String>) -> (h: Self)
        ensures
            h.bot_name() == bot_name@,
            h.prefixes() == strings(canned_prefixes@),
    {
        RumorsHandler { bot_name: bot_name.to_owned(), canned_prefixes }
    }

    /// One of the handler's phrases, chosen at random; the fallback
    /// phrase where it has none.
    pub fn random_prefix(&self) -> (r: &str)
        ensures
            self.may_introduce(r@),
    {
        match pick(&self.canned_prefixes) {
            Some(p) => {
                proof {
                    let i = choose|i: int|
                        0 <= i < self.canned_prefixes@.len() && self.canned_prefixes@[i] == *p;
                    assert(strings(self.canned_prefixes@)[i] == p@);
                }
                p.as_str()
            },
            None => "i may be broken but i know for sure that",
        }
    }

    /// Decides what a message asks of the store of rumors, given the
    /// flow that the chain before this handler came to.
    pub fn plan_for(&self, msg: &Msg, flow: &ControlFlow<()>) -> (action: RumorAction)
        ensures
            action@ == action_for_msg(self.bot_name(), msg@, flow is Break),
    {
        if let ControlFlow::Break(_) = flow {
            return RumorAction::Pass;
        }
        match (&msg.command, &msg.source) {
            (Command::Privmsg { target, message }, Some(source)) => {
                let nick = Msg::source_to_nick(Some(source.as_str()));
                self.plan(nick.as_str(), target.as_str(), message.as_str())
            },
            _ => RumorAction::Pass,
        }
    }

    /// Decides what a chat message, said by `nick` in `channel`, asks of
    /// the store of rumors.
    ///
    /// A question addressed to the bot asks for a rumor on its topic.
    /// Anything else addressed to the bot is a rumor to store, if the
    /// nick and the rumor are not empty.
    pub fn plan(&self, nick: &str, channel: &str, message: &str) -> (action: RumorAction)
        ensures
            action@ == action_for(self.bot_name(), nick@, channel@, message@),
    {
        match strip_bot_prefix(self.bot_name.as_str(), message) {
            None => RumorAction::Pass,
            Some(rest) => match extract_topic(rest) {
                Some(topic) => RumorAction::Fetch {
                    channel: channel.to_owned(),
                    topic: topic.to_owned(),
                },
                None => if nick.unicode_len() > 0 && rest.unicode_len() > 0 {
                    RumorAction::Store {
                        nick: nick.to_owned(),
                        channel: channel.to_owned(),
                        rumor: rest.to_owned(),
                    }
                } else {
                    RumorAction::Ignore
                },
            },
        }
    }

    /// Whether the chain goes on behind this handler: only where the
    /// message was not for the bot.
    pub fn flow_after(action: &RumorAction) -> (flow: ControlFlow<()>)
        ensures
            flow is Continue <==> action@ is Pass,
    {
        match action {
            RumorAction::Pass => ControlFlow::Continue(()),
            _ => ControlFlow::Break(()),
        }
    }

    /// Retells what the store found: a rumor is sent to `channel` behind
    /// one of the handler's phrases; where the store found none, nothing
    /// is sent.
    pub fn tell(&self, client: &mut Client, channel: &str, found: Option<&str>)
        ensures
            match found {
                Some(rumor) => exists|prefix: Seq<char>|
                    self.may_introduce(prefix) && final(client)@ == old(client)@.offer(
                        privmsg_text(channel@, #[trigger] rumor_text(prefix, rumor@)),
                    ),
                None => final(client)@ == old(client)@,
            },
    {
        if let Some(rumor) = found {
            let prefix = self.random_prefix();
            let response = Self::retell(prefix, rumor);
            let _ = client.privmsg(channel, response.as_str());
        }
    }

    /// Builds `<prefix> <rumor>`.
    pub fn retell(prefix: &str, rumor: &str) -> (r: String)
        ensures
            r@ == rumor_text(prefix@, rumor@),
    {
        let mut r = prefix.to_owned();
        r.append(" ");
        r.append(rumor);
        r
    }

    /// Acknowledges a rumor that was handed to the store.
    pub fn thank(client: &mut Client, channel: &str)
        ensures
            final(client)@ == old(client)@.offer(privmsg_text(channel@, "Good to know!"@)),
    {
        let _ = client.privmsg(channel, "Good to know!");
    }
}

} // verus!
