//! The compact message form: the three verbs a minimal client needs,
//! each carrying the sender's nick.

use vstd::prelude::*;
use crate::clock::Timestamp;
use crate::irc_core::irc_msg::{nick_of, opt_str, opt_string, split_trailing, tail_of};
use crate::text::{chars_of, same_text, split_words, texts, words, Spacing};

verus! {

/// A `PING`, a `JOIN` or a chat message.
#[allow(inconsistent_fields)]
#[derive(Debug, PartialEq)]
pub enum Command {
    Ping { token: Option<String> },
    Join { nick: String, channel: String },
    Privmsg { nick: String, channel: String, message: String },
}

/// The mathematical value of a [`Command`].
#[allow(inconsistent_fields)]
pub enum CommandView {
    Ping { token: Option<Seq<char>> },
    Join { nick: Seq<char>, channel: Seq<char> },
    Privmsg { nick: Seq<char>, channel: Seq<char>, message: Seq<char> },
}

impl View for Command {
    type V = CommandView;

    open spec fn view(&self) -> CommandView {
        match *self {
            Command::Ping { token } => CommandView::Ping { token: opt_string(token) },
            Command::Join { nick, channel } => CommandView::Join {
                nick: nick@,
                channel: channel@,
            },
            Command::Privmsg { nick, channel, message } => CommandView::Privmsg {
                nick: nick@,
                channel: channel@,
                message: message@,
            },
        }
    }
}

/// The words of a line before its trailing text.
#[derive(Debug)]
pub struct CmdParts<'a> {
    pub source: Option<&'a str>,
    pub command: &'a str,
    pub args: Vec<&'a str>,
}

/// The mathematical value of a [`CmdParts`].
pub struct PartsView {
    pub source: Option<Seq<char>>,
    pub command: Seq<char>,
    pub args: Seq<Seq<char>>,
}

impl<'a> View for CmdParts<'a> {
    type V = PartsView;

    open spec fn view(&self) -> PartsView {
        PartsView { source: opt_str(self.source), command: self.command@, args: texts(self.args@) }
    }
}

/// What was received, and when.
#[derive(Debug, PartialEq)]
pub struct MsgMeta {
    pub raw: String,
    pub ts: Timestamp,
}

/// One parsed protocol line.
#[derive(Debug, PartialEq)]
pub struct Msg {
    pub meta: MsgMeta,
    pub source: Option<String>,
    pub command: Command,
}

/// The mathematical value of a [`Msg`].
pub struct MsgView {
    pub raw: Seq<char>,
    pub ts: Timestamp,
    pub source: Option<Seq<char>>,
    pub command: CommandView,
}

impl View for Msg {
    type V = MsgView;

    open spec fn view(&self) -> MsgView {
        MsgView {
            raw: self.meta.raw@,
            ts: self.meta.ts,
            source: opt_string(self.source),
            command: self.command@,
        }
    }
}

/// The command that a sender's words spell: each of the three verbs
/// needs a first argument; every other verb is refused.
pub open spec fn command_of(nick: Seq<char>, parts: PartsView, trailing: Seq<char>) -> Option<
    CommandView,
> {
    if parts.args.len() == 0 {
        None
    } else if parts.command == "PING"@ {
        Some(CommandView::Ping { token: Some(parts.args[0]) })
    } else if parts.command == "PRIVMSG"@ {
        Some(CommandView::Privmsg { nick, channel: parts.args[0], message: trailing })
    } else if parts.command == "JOIN"@ {
        Some(CommandView::Join { nick, channel: parts.args[0] })
    } else {
        None
    }
}

/// The words before the trailing text, as prefix, verb and arguments:
/// a first word that begins with `:` is the prefix, without the colon.
pub open spec fn tokens_of(before: Seq<char>) -> Option<PartsView> {
    let toks = words(before, Spacing::Ascii);
    if toks.len() == 0 {
        None
    } else if toks[0].len() > 0 && toks[0][0] == ':' {
        if toks.len() < 2 {
            None
        } else {
            Some(
                PartsView {
                    source: Some(toks[0].subrange(1, toks[0].len() as int)),
                    command: toks[1],
                    args: toks.subrange(2, toks.len() as int),
                },
            )
        }
    } else {
        Some(
            PartsView {
                source: None,
                command: toks[0],
                args: toks.subrange(1, toks.len() as int),
            },
        )
    }
}

/// The trailing text of a line; empty where the line has none.
pub open spec fn trailing_of(line: Seq<char>) -> Seq<char> {
    match split_trailing(line).1 {
        Some(t) => t,
        None => Seq::empty(),
    }
}

/// The message that `line` spells when received at `now`.
pub open spec fn parse_line(line: Seq<char>, now: Timestamp) -> Option<MsgView> {
    match tokens_of(split_trailing(line).0) {
        Some(parts) => match command_of(nick_of(parts.source), parts, trailing_of(line)) {
            Some(command) => Some(MsgView { raw: line, ts: now, source: parts.source, command }),
            None => None,
        },
        None => None,
    }
}

impl Command {
    /// Builds the command that `parts` spell for the sender `nick`.
    pub fn from_parts(nick: String, parts: CmdParts<'_>, trailing: &str) -> (r: Option<Command>)
        ensures
            match r {
                Some(c) => command_of(nick@, parts@, trailing@) == Some(c@),
                None => command_of(nick@, parts@, trailing@) is None,
            },
    {
        if parts.args.len() == 0 {
            return None;
        }
        let first = parts.args[0];
        assert(texts(parts.args@)[0] == first@);
        if same_text(parts.command, "PING") {
            Some(Command::Ping { token: Some(first.to_owned()) })
        } else if same_text(parts.command, "PRIVMSG") {
            Some(Command::Privmsg { nick, channel: first.to_owned(), message: trailing.to_owned() })
        } else if same_text(parts.command, "JOIN") {
            Some(Command::Join { nick, channel: first.to_owned() })
        } else {
            None
        }
    }
}

/// Cuts `line` at its first `" :"`; the second part is empty where the
/// line has no trailing text. Always succeeds.
pub fn split_irc<'a>(line: &'a str) -> (r: Option<(&'a str, &'a str)>)
    ensures
        r matches Some((before, trailing)) && before@ == split_trailing(line@).0 && trailing@
            == trailing_of(line@),
{
    match crate::irc_core::irc_msg::split_irc(line) {
        Some((before, Some(trailing))) => Some((before, trailing)),
        Some((before, None)) => {
            let empty = line.substring_char(0, 0);
            assert(empty@ =~= Seq::<char>::empty());
            Some((before, empty))
        },
        None => None,
    }
}

impl Msg {
    /// Parses one line received at `now`. Fails on a line without a verb,
    /// on a verb other than `PING`, `PRIVMSG` and `JOIN`, and where the
    /// verb has no argument.
    pub fn parse(line: &str, now: Timestamp) -> (r: Option<Msg>)
        ensures
            match r {
                Some(m) => parse_line(line@, now) == Some(m@),
                None => parse_line(line@, now) is None,
            },
    {
        let meta = MsgMeta { raw: line.to_owned(), ts: now };
        let (before, trailing) = match split_irc(line) {
            Some(p) => p,
            None => { return None; },
        };
        let cmd_parts = match Self::parse_command_tokens(before) {
            Some(p) => p,
            None => { return None; },
        };
        let nick = Self::source_to_nick(cmd_parts.source);
        let source: Option<String> = match cmd_parts.source {
            Some(s) => Some(s.to_owned()),
            None => None,
        };
        match Command::from_parts(nick, cmd_parts, trailing) {
            Some(command) => Some(Msg { meta, source, command }),
            None => None,
        }
    }

    /// The nick in an optional prefix.
    pub fn source_to_nick(source: Option<&str>) -> (r: String)
        ensures
            r@ == nick_of(opt_str(source)),
    {
        crate::irc_core::irc_msg::Msg::source_to_nick(source)
    }

    /// Reads prefix, verb and arguments from the words before the
    /// trailing text.
    pub fn parse_command_tokens<'a>(before: &'a str) -> (r: Option<CmdParts<'a>>)
        ensures
            match r {
                Some(p) => tokens_of(before@) == Some(p@),
                None => tokens_of(before@) is None,
            },
    {
        let toks = split_words(before, Spacing::Ascii);
        if toks.len() == 0 {
            return None;
        }
        let first = toks[0];
        let first_chars = chars_of(first);
        if first_chars.len() > 0 && first_chars[0] == ':' {
            if toks.len() < 2 {
                return None;
            }
            let source = first.substring_char(1, first_chars.len());
            let command = toks[1];
            let args = tail_of(&toks, 2);
            Some(CmdParts { source: Some(source), command, args })
        } else {
            let args = tail_of(&toks, 1);
            Some(CmdParts { source: None, command: first, args })
        }
    }
}

} // verus!
