//! The message grammar: one protocol line in, one structured message out.
//!
//! ```text
//! [':' source ' '] command *(' ' middle) [' :' trailing]
//! ```

use vstd::prelude::*;
use crate::clock::Timestamp;
use crate::text::{chars_of, find, find_in, same_text, split_words, texts, words, Spacing};

verus! {

/// A protocol verb with the arguments that the bot reads from it.
#[allow(inconsistent_fields)]
#[derive(Debug, PartialEq, Clone)]
pub enum Command {
    Ping { token: Option<String> },
    Join { channel: String, message: Option<String> },
    Part { channel: String, message: Option<String> },
    Privmsg { target: String, message: String },
    Notice { target: String, message: String },
    Numeric { code: u16, args: Vec<String>, trailing: Option<String> },
    Other {  },
}

/// The mathematical value of a [`Command`].
#[allow(inconsistent_fields)]
pub enum CommandView {
    Ping { token: Option<Seq<char>> },
    Join { channel: Seq<char>, message: Option<Seq<char>> },
    Part { channel: Seq<char>, message: Option<Seq<char>> },
    Privmsg { target: Seq<char>, message: Seq<char> },
    Notice { target: Seq<char>, message: Seq<char> },
    Numeric { code: int, args: Seq<Seq<char>>, trailing: Option<Seq<char>> },
    Other,
}

/// The text of an optional owned string.
pub open spec fn opt_string(o: Option<String>) -> Option<Seq<char>> {
    match o {
        Some(s) => Some(s@),
        None => None,
    }
}

/// The text of an optional string slice.
pub open spec fn opt_str(o: Option<&str>) -> Option<Seq<char>> {
    match o {
        Some(s) => Some(s@),
        None => None,
    }
}

/// The texts of a sequence of owned strings.
pub open spec fn strings(v: Seq<String>) -> Seq<Seq<char>> {
    Seq::new(v.len(), |i: int| v[i]@)
}

impl View for Command {
    type V = CommandView;

    open spec fn view(&self) -> CommandView {
        match *self {
            Command::Ping { token } => CommandView::Ping { token: opt_string(token) },
            Command::Join { channel, message } => CommandView::Join {
                channel: channel@,
                message: opt_string(message),
            },
            Command::Part { channel, message } => CommandView::Part {
                channel: channel@,
                message: opt_string(message),
            },
            Command::Privmsg { target, message } => CommandView::Privmsg {
                target: target@,
                message: message@,
            },
            Command::Notice { target, message } => CommandView::Notice {
                target: target@,
                message: message@,
            },
            Command::Numeric { code, args, trailing } => CommandView::Numeric {
                code: code as int,
                args: strings(args@),
                trailing: opt_string(trailing),
            },
            Command::Other {  } => CommandView::Other,
        }
    }
}

/// The pieces of a tokenized line, borrowed from it.
#[derive(Debug)]
pub struct CmdParts<'a> {
    pub source: Option<&'a str>,
    pub command: &'a str,
    pub args: Vec<&'a str>,
    pub trailing: Option<&'a str>,
}

/// The mathematical value of a [`CmdParts`].
pub struct PartsView {
    pub source: Option<Seq<char>>,
    pub command: Seq<char>,
    pub args: Seq<Seq<char>>,
    pub trailing: Option<Seq<char>>,
}

impl<'a> View for CmdParts<'a> {
    type V = PartsView;

    open spec fn view(&self) -> PartsView {
        PartsView {
            source: opt_str(self.source),
            command: self.command@,
            args: texts(self.args@),
            trailing: opt_str(self.trailing),
        }
    }
}

/// Whether `c` is one of the digits `0` to `9`.
pub open spec fn is_digit(c: char) -> bool {
    '0' <= c && c <= '9'
}

/// The number that the digit `c` stands for.
pub open spec fn digit_value(c: char) -> int {
    c as int - '0' as int
}

impl PartsView {
    /// A numeric reply is a verb of exactly three ASCII digits.
    pub open spec fn is_numeric(self) -> bool {
        self.command.len() == 3 && is_digit(self.command[0]) && is_digit(self.command[1])
            && is_digit(self.command[2])
    }

    /// The decimal value of a three-digit verb.
    pub open spec fn code(self) -> int {
        100 * digit_value(self.command[0]) + 10 * digit_value(self.command[1]) + digit_value(
            self.command[2],
        )
    }

    pub open spec fn first_arg(self) -> Option<Seq<char>> {
        if self.args.len() > 0 {
            Some(self.args[0])
        } else {
            None
        }
    }

    pub open spec fn trailing_or_first(self) -> Option<Seq<char>> {
        match self.trailing {
            Some(t) => Some(t),
            None => self.first_arg(),
        }
    }

    /// The text after the `" :"` delimiter, or the empty text.
    pub open spec fn trailing_or_empty(self) -> Seq<char> {
        match self.trailing {
            Some(t) => t,
            None => Seq::empty(),
        }
    }

    /// The command that the pieces spell, or `None` where a verb that needs
    /// a first argument has none.
    pub open spec fn command_view(self) -> Option<CommandView> {
        if self.command == "PING"@ {
            Some(CommandView::Ping { token: self.trailing_or_first() })
        } else if self.command == "PRIVMSG"@ {
            match self.first_arg() {
                Some(target) => Some(
                    CommandView::Privmsg { target, message: self.trailing_or_empty() },
                ),
                None => None,
            }
        } else if self.command == "JOIN"@ {
            match self.first_arg() {
                Some(channel) => Some(CommandView::Join { channel, message: self.trailing }),
                None => None,
            }
        } else if self.command == "PART"@ {
            match self.first_arg() {
                Some(channel) => Some(CommandView::Part { channel, message: self.trailing }),
                None => None,
            }
        } else if self.command == "NOTICE"@ {
            match self.first_arg() {
                Some(target) => Some(
                    CommandView::Notice { target, message: self.trailing_or_empty() },
                ),
                None => None,
            }
        } else if self.is_numeric() {
            Some(
                CommandView::Numeric {
                    code: self.code(),
                    args: self.args,
                    trailing: self.trailing_or_first(),
                },
            )
        } else {
            Some(CommandView::Other)
        }
    }
}

/// The value of the digit `c`, if it is one.
fn digit_of(c: char) -> (r: Option<u16>)
    ensures
        r is Some == is_digit(c),
        r matches Some(d) ==> d == digit_value(c) && d <= 9,
{
    if '0' <= c && c <= '9' {
        Some((c as u32 - '0' as u32) as u16)
    } else {
        None
    }
}

/// Owned copies of `items`, in order.
pub fn owned_all(items: &Vec<&str>) -> (r: Vec<String>)
    ensures
        strings(r@) == texts(items@),
{
    let mut r: Vec<String> = Vec::new();
    let mut i: usize = 0;
    while i < items.len()
        invariant
            i <= items.len(),
            r.len() == i,
            forall|j: int| 0 <= j < i ==> r@[j]@ == items@[j]@,
        decreases items.len() - i,
    {
        r.push(items[i].to_owned());
        i = i + 1;
    }
    assert(strings(r@) =~= texts(items@));
    r
}

/// An owned copy of an optional slice.
fn owned_opt(o: Option<&str>) -> (r: Option<String>)
    ensures
        opt_string(r) == opt_str(o),
{
    match o {
        Some(s) => Some(s.to_owned()),
        None => None,
    }
}

impl<'a> CmdParts<'a> {
    pub fn is_numeric(&self) -> (r: bool)
        ensures
            r == self@.is_numeric(),
    {
        let cs = chars_of(self.command);
        cs.len() == 3 && digit_of(cs[0]).is_some() && digit_of(cs[1]).is_some() && digit_of(
            cs[2],
        ).is_some()
    }

    /// The numeric code of the verb, if it is three digits.
    pub fn code(&self) -> (r: Option<u16>)
        ensures
            r is Some == self@.is_numeric(),
            r matches Some(c) ==> c == self@.code() && c <= 999,
    {
        let cs = chars_of(self.command);
        if cs.len() != 3 {
            return None;
        }
        match (digit_of(cs[0]), digit_of(cs[1]), digit_of(cs[2])) {
            (Some(a), Some(b), Some(c)) => Some(100 * a + 10 * b + c),
            _ => None,
        }
    }

    pub fn first_arg(&self) -> (r: Option<&'a str>)
        ensures
            opt_str(r) == self@.first_arg(),
    {
        if self.args.len() > 0 {
            Some(self.args[0])
        } else {
            None
        }
    }

    pub fn trailing_or_first(&self) -> (r: Option<&'a str>)
        ensures
            opt_str(r) == self@.trailing_or_first(),
    {
        match self.trailing {
            Some(t) => Some(t),
            None => self.first_arg(),
        }
    }

    /// The trailing text, or the empty string where the line has none.
    fn trailing_or_empty(&self) -> (r: String)
        ensures
            r@ == self@.trailing_or_empty(),
    {
        match self.trailing {
            Some(t) => t.to_owned(),
            None => String::new(),
        }
    }
}

impl Command {
    /// Classifies a tokenized line by its verb. Fails exactly when the verb
    /// is `PRIVMSG`, `JOIN`, `PART` or `NOTICE` and no argument follows it.
    pub fn build_from_parts(parts: &CmdParts<'_>) -> (r: Option<Command>)
        ensures
            match r {
                Some(c) => parts@.command_view() == Some(c@),
                None => parts@.command_view() is None,
            },
    {
        if same_text(parts.command, "PING") {
            Some(Command::Ping { token: owned_opt(parts.trailing_or_first()) })
        } else if same_text(parts.command, "PRIVMSG") {
            match parts.first_arg() {
                Some(target) => Some(
                    Command::Privmsg {
                        target: target.to_owned(),
                        message: parts.trailing_or_empty(),
                    },
                ),
                None => None,
            }
        } else if same_text(parts.command, "JOIN") {
            match parts.first_arg() {
                Some(channel) => Some(
                    Command::Join {
                        channel: channel.to_owned(),
                        message: owned_opt(parts.trailing),
                    },
                ),
                None => None,
            }
        } else if same_text(parts.command, "PART") {
            match parts.first_arg() {
                Some(channel) => Some(
                    Command::Part {
                        channel: channel.to_owned(),
                        message: owned_opt(parts.trailing),
                    },
                ),
                None => None,
            }
        } else if same_text(parts.command, "NOTICE") {
            match parts.first_arg() {
                Some(target) => Some(
                    Command::Notice {
                        target: target.to_owned(),
                        message: parts.trailing_or_empty(),
                    },
                ),
                None => None,
            }
        } else {
            match parts.code() {
                Some(code) => Some(
                    Command::Numeric {
                        code,
                        args: owned_all(&parts.args),
                        trailing: owned_opt(parts.trailing_or_first()),
                    },
                ),
                None => Some(Command::Other {  }),
            }
        }
    }
}

/// What was received, and when.
#[derive(Debug, PartialEq)]
pub struct MsgMeta {
    pub raw: String,
    pub ts: Timestamp,
}

/// One parsed protocol line.
#[derive(Debug, PartialEq)]
pub struct Msg {
    pub meta: MsgMeta,
    /// The whole prefix, without its colon, if the line has one.
    pub source: Option<String>,
    pub command: Command,
}

/// The mathematical value of a [`Msg`].
pub struct MsgView {
    pub raw: Seq<char>,
    pub ts: Timestamp,
    pub source: Option<Seq<char>>,
    pub command: CommandView,
}

impl View for Msg {
    type V = MsgView;

    open spec fn view(&self) -> MsgView {
        MsgView {
            raw: self.meta.raw@,
            ts: self.meta.ts,
            source: opt_string(self.source),
            command: self.command@,
        }
    }
}

/// A line cut at its first `" :"`: the text before it, and the text after
/// it where the delimiter occurs.
pub open spec fn split_trailing(line: Seq<char>) -> (Seq<char>, Option<Seq<char>>) {
    match find(line, " :"@) {
        Some(k) => (line.subrange(0, k), Some(line.subrange(k + 2, line.len() as int))),
        None => (line, None),
    }
}

/// The pieces of a line, or `None` where it holds no verb: the words
/// before the delimiter are the optional `:source`, the verb and the
/// arguments.
pub open spec fn parts_of(line: Seq<char>) -> Option<PartsView> {
    let (before, trailing) = split_trailing(line);
    let toks = words(before, Spacing::Ascii);
    if toks.len() == 0 {
        None
    } else if toks[0].len() > 0 && toks[0][0] == ':' {
        if toks.len() < 2 {
            None
        } else {
            Some(
                PartsView {
                    source: Some(toks[0].subrange(1, toks[0].len() as int)),
                    command: toks[1],
                    args: toks.subrange(2, toks.len() as int),
                    trailing,
                },
            )
        }
    } else {
        Some(
            PartsView {
                source: None,
                command: toks[0],
                args: toks.subrange(1, toks.len() as int),
                trailing,
            },
        )
    }
}

/// The message that `line` spells when received at `now`, or `None` where
/// the line is no message.
pub open spec fn parse_line(line: Seq<char>, now: Timestamp) -> Option<MsgView> {
    match parts_of(line) {
        Some(parts) => match parts.command_view() {
            Some(command) => Some(MsgView { raw: line, ts: now, source: parts.source, command }),
            None => None,
        },
        None => None,
    }
}

/// Whether `r` is what [`Msg::parse`] returns for `line` received at `now`.
pub open spec fn parses_to(line: Seq<char>, now: Timestamp, r: Option<Msg>) -> bool {
    match r {
        Some(m) => parse_line(line, now) == Some(m@),
        None => parse_line(line, now) is None,
    }
}

/// Parsing is deterministic: two results for the same line and the same
/// instant both fail, or are messages of equal value.
pub proof fn lemma_parse_deterministic(
    line: Seq<char>,
    now: Timestamp,
    first: Option<Msg>,
    second: Option<Msg>,
)
    requires
        parses_to(line, now, first),
        parses_to(line, now, second),
    ensures
        first is Some == second is Some,
        first is Some ==> first->0@ == second->0@,
{
}

/// A parsed message records the line it came from and the instant of its
/// receipt unchanged.
pub proof fn lemma_parse_keeps_meta(line: Seq<char>, now: Timestamp)
    ensures
        parse_line(line, now) matches Some(m) ==> m.raw == line && m.ts == now,
{
}

/// Whether a verb must be followed by an argument.
pub open spec fn needs_argument(verb: Seq<char>) -> bool {
    verb == "PRIVMSG"@ || verb == "JOIN"@ || verb == "PART"@ || verb == "NOTICE"@
}

/// The five verbs that are read by name differ from one another, and
/// none of them is a numeric reply.
proof fn lemma_verbs_differ()
    ensures
        "PING"@ != "PRIVMSG"@,
        "PING"@ != "JOIN"@,
        "PING"@ != "PART"@,
        "PING"@ != "NOTICE"@,
        "PRIVMSG"@ != "JOIN"@,
        "PRIVMSG"@ != "PART"@,
        "PRIVMSG"@ != "NOTICE"@,
        "JOIN"@ != "PART"@,
        "JOIN"@ != "NOTICE"@,
        "PART"@ != "NOTICE"@,
        "PING"@.len() == 4,
        "JOIN"@.len() == 4,
        "PART"@.len() == 4,
        "PRIVMSG"@.len() == 7,
        "NOTICE"@.len() == 6,
{
    reveal_strlit("PING");
    reveal_strlit("PRIVMSG");
    reveal_strlit("JOIN");
    reveal_strlit("PART");
    reveal_strlit("NOTICE");
    assert("PING"@.len() == 4 && "JOIN"@.len() == 4 && "PART"@.len() == 4);
    assert("PRIVMSG"@.len() == 7 && "NOTICE"@.len() == 6);
    assert("PING"@[1] == 'I' && "PART"@[1] == 'A' && "JOIN"@[0] == 'J');
}

/// Parsing fails on exactly two kinds of line: one that holds no verb,
/// and one whose verb is `PRIVMSG`, `JOIN`, `PART` or `NOTICE` with no
/// argument behind it. Every other line is a message.
pub proof fn lemma_parse_fails_only_when(line: Seq<char>, now: Timestamp)
    ensures
        parse_line(line, now) is None <==> match parts_of(line) {
            None => true,
            Some(parts) => needs_argument(parts.command) && parts.args.len() == 0,
        },
{
    lemma_verbs_differ();
}

/// A message is a numeric reply exactly when its verb is three ASCII
/// digits; its code is then the number they spell, between 0 and 999.
pub proof fn lemma_numeric_only_for_three_digits(parts: PartsView)
    ensures
        parts.command_view() matches Some(CommandView::Numeric { .. }) <==> parts.is_numeric(),
        parts.command_view() matches Some(CommandView::Numeric { code, args, trailing })
            ==> code == parts.code() && 0 <= code <= 999 && args == parts.args && trailing
            == parts.trailing_or_first(),
{
    lemma_verbs_differ();
}

/// A line of nothing but separators (the empty line too) is no message.
pub proof fn lemma_blank_line_fails(line: Seq<char>, now: Timestamp)
    requires
        forall|i: int| 0 <= i < line.len() ==> crate::text::is_ascii_space(#[trigger] line[i]),
    ensures
        parse_line(line, now) is None,
{
    reveal_strlit(" :");
    crate::text::lemma_find_from(line, " :"@, 0);
    match find(line, " :"@) {
        Some(k) => {
            assert(line.subrange(k, k + 2)[1] == ':');
            assert(line[k + 1] == ':');
        },
        None => {},
    }
    crate::text::lemma_word_start(line, Spacing::Ascii, 0);
    let a = crate::text::word_start(line, Spacing::Ascii, 0);
    if a < line.len() {
        assert(crate::text::is_ascii_space(line[a]));
    }
}

/// The nick in a prefix: the text before its first `!`, the whole prefix
/// where it has none, the empty text where there is no prefix.
pub open spec fn nick_of(source: Option<Seq<char>>) -> Seq<char> {
    match source {
        Some(s) => match find(s, "!"@) {
            Some(k) => s.subrange(0, k),
            None => s,
        },
        None => Seq::empty(),
    }
}

/// The nick is the longest beginning of the prefix that holds no `!`:
/// it begins the prefix, holds no `!` itself, and either is the whole
/// prefix or has a `!` right behind it.
pub proof fn lemma_nick_is_text_before_bang(source: Seq<char>)
    ensures
        ({
            let nick = nick_of(Some(source));
            &&& nick.len() <= source.len()
            &&& nick == source.subrange(0, nick.len() as int)
            &&& forall|i: int| 0 <= i < nick.len() ==> nick[i] != '!'
            &&& nick.len() < source.len() ==> source[nick.len() as int] == '!'
        }),
{
    reveal_strlit("!");
    crate::text::lemma_find_from(source, "!"@, 0);
    let nick = nick_of(Some(source));
    match find(source, "!"@) {
        Some(k) => {
            assert(source.subrange(k, k + 1)[0] == '!');
            assert forall|i: int| 0 <= i < nick.len() implies nick[i] != '!' by {
                if nick[i] == '!' {
                    assert(source[i] == '!');
                    assert(source.subrange(i, i + 1) =~= "!"@);
                    assert(crate::text::matches_at(source, "!"@, i));
                }
            }
        },
        None => {
            assert(nick =~= source.subrange(0, nick.len() as int));
            assert forall|i: int| 0 <= i < nick.len() implies nick[i] != '!' by {
                if nick[i] == '!' {
                    assert(source.subrange(i, i + 1) =~= "!"@);
                    assert(crate::text::matches_at(source, "!"@, i));
                }
            }
        },
    }
}

impl MsgView {
    /// The sender's nick, where the message has a prefix with one.
    pub open spec fn nick(self) -> Option<Seq<char>> {
        if nick_of(self.source).len() == 0 {
            None
        } else {
            Some(nick_of(self.source))
        }
    }

    /// The channel or nick that the message is addressed to.
    pub open spec fn channel(self) -> Option<Seq<char>> {
        match self.command {
            CommandView::Privmsg { target, .. } => Some(target),
            CommandView::Join { channel, .. } => Some(channel),
            CommandView::Part { channel, .. } => Some(channel),
            CommandView::Notice { target, .. } => Some(target),
            _ => None,
        }
    }
}

/// Cuts `line` at its first `" :"`. Always succeeds.
pub fn split_irc<'a>(line: &'a str) -> (r: Option<(&'a str, Option<&'a str>)>)
    ensures
        r matches Some((before, trailing)) && (before@, opt_str(trailing)) == split_trailing(
            line@,
        ),
{
    let cs = chars_of(line);
    let pat = chars_of(" :");
    proof {
        reveal_strlit(" :");
        crate::text::lemma_find_from(line@, " :"@, 0);
    }
    match find_in(&cs, &pat, 0) {
        Some(k) => {
            assert(k + 2 <= cs.len());
            let before = line.substring_char(0, k);
            let trailing = line.substring_char(k + 2, cs.len());
            Some((before, Some(trailing)))
        },
        None => {
            let before = line.substring_char(0, cs.len());
            assert(line@.subrange(0, line@.len() as int) =~= line@);
            Some((before, None))
        },
    }
}

impl Msg {
    /// The sender's nick; `None` where the message has no prefix or an
    /// empty one.
    pub fn nick(&self) -> (r: Option<String>)
        ensures
            opt_string(r) == self@.nick(),
    {
        let nick = match &self.source {
            Some(s) => Self::source_to_nick(Some(s.as_str())),
            None => Self::source_to_nick(None),
        };
        if nick.as_str().unicode_len() == 0 {
            None
        } else {
            Some(nick)
        }
    }

    /// The channel or nick that the message is addressed to, for the
    /// commands that have one.
    pub fn channel(&self) -> (r: Option<String>)
        ensures
            opt_string(r) == self@.channel(),
    {
        match &self.command {
            Command::Privmsg { target, .. } => Some(target.clone()),
            Command::Join { channel, .. } => Some(channel.clone()),
            Command::Part { channel, .. } => Some(channel.clone()),
            Command::Notice { target, .. } => Some(target.clone()),
            _ => None,
        }
    }

    /// Parses one line, without its line ending, received at `now`.
    ///
    /// Fails on a line that holds no verb (an empty or blank line, or a
    /// prefix alone) and on a `PRIVMSG`, `JOIN`, `PART` or `NOTICE` without
    /// a first argument; every other line gives a message.
    pub fn parse(line: &str, now: Timestamp) -> (r: Option<Msg>)
        ensures
            parses_to(line@, now, r),
    {
        let meta = MsgMeta { raw: line.to_owned(), ts: now };
        let parts = match Self::tokenize_line(line) {
            Some(p) => p,
            None => { return None; },
        };
        let source = owned_opt(parts.source);
        let command = match Command::build_from_parts(&parts) {
            Some(c) => c,
            None => { return None; },
        };
        Some(Msg { meta, source, command })
    }

    /// The nick in an optional prefix; see [`nick_of`].
    pub fn source_to_nick(source: Option<&str>) -> (r: String)
        ensures
            r@ == nick_of(opt_str(source)),
    {
        match source {
            Some(s) => {
                let cs = chars_of(s);
                let bang = chars_of("!");
                match find_in(&cs, &bang, 0) {
                    Some(k) => {
                        proof {
                            crate::text::lemma_find_from(s@, "!"@, 0);
                        }
                        s.substring_char(0, k).to_owned()
                    },
                    None => s.to_owned(),
                }
            },
            None => String::new(),
        }
    }

    /// Cuts a line into prefix, verb, arguments and trailing text.
    pub fn tokenize_line<'a>(line: &'a str) -> (r: Option<CmdParts<'a>>)
        ensures
            match r {
                Some(p) => parts_of(line@) == Some(p@),
                None => parts_of(line@) is None,
            },
    {
        let (before, trailing) = match split_irc(line) {
            Some(p) => p,
            None => { return None; },
        };
        let toks = split_words(before, Spacing::Ascii);
        if toks.len() == 0 {
            return None;
        }
        let first = toks[0];
        let first_chars = chars_of(first);
        if first_chars.len() > 0 && first_chars[0] == ':' {
            if toks.len() < 2 {
                return None;
            }
            let source = first.substring_char(1, first_chars.len());
            let command = toks[1];
            let args = tail_of(&toks, 2);
            Some(CmdParts { source: Some(source), command, args, trailing })
        } else {
            let args = tail_of(&toks, 1);
            Some(CmdParts { source: None, command: first, args, trailing })
        }
    }
}

/// The items of `v` from position `from` on.
pub fn tail_of<'a>(v: &Vec<&'a str>, from: usize) -> (r: Vec<&'a str>)
    requires
        from <= v.len(),
    ensures
        texts(r@) == texts(v@).subrange(from as int, v.len() as int),
{
    let mut r: Vec<&'a str> = Vec::new();
    let mut i: usize = from;
    while i < v.len()
        invariant
            from <= i <= v.len(),
            r.len() == i - from,
            forall|j: int| 0 <= j < r.len() ==> r@[j]@ == v@[from + j]@,
        decreases v.len() - i,
    {
        r.push(v[i]);
        i = i + 1;
    }
    assert(texts(r@) =~= texts(v@).subrange(from as int, v.len() as int));
    r
}

} // verus!
