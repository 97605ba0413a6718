//! The application's side of the connection: outbound lines are queued
//! whole, inbound lines are parsed one at a time.

use vstd::prelude::*;
use vstd::string::StringExecFns;
use crate::clock::Timestamp;
use crate::irc_core::irc_msg::{opt_str, parses_to, strings, Msg};
use crate::text::{chars_of, ends_with};

verus! {

/// How many lines each queue between the socket workers and the
/// application may hold.
pub const QUEUE_CAPACITY: usize = 100;

/// A line was offered to a connection whose outbound queue is closed.
#[derive(Debug, PartialEq, Eq)]
pub struct SendError {}

/// A received line that is no message; it carries the line.
#[derive(Debug, PartialEq, Eq)]
pub struct ParseFailure {
    pub line: String,
}

/// The text of `PRIVMSG <target> :<text>`.
pub open spec fn privmsg_text(target: Seq<char>, text: Seq<char>) -> Seq<char> {
    "PRIVMSG "@ + target + " :"@ + text
}

/// The text of `JOIN <channel>`.
pub open spec fn join_text(channel: Seq<char>) -> Seq<char> {
    "JOIN "@ + channel
}

/// The text of `PONG :<token>`, or of a bare `PONG`.
pub open spec fn pong_text(token: Option<Seq<char>>) -> Seq<char> {
    match token {
        Some(t) => "PONG :"@ + t,
        None => "PONG"@,
    }
}

/// The text of `NAMES <channel>`.
pub open spec fn names_text(channel: Seq<char>) -> Seq<char> {
    "NAMES "@ + channel
}

/// The text of `NICK <nick>`, the first registration line.
pub open spec fn nick_text(nick: Seq<char>) -> Seq<char> {
    "NICK "@ + nick
}

/// The text of `USER <user> 0 * :<user>`, the second registration line.
pub open spec fn user_text(user: Seq<char>) -> Seq<char> {
    "USER "@ + user + " 0 * :"@ + user
}

/// A line as it goes on the wire: with the line ending added unless the
/// line already ends with it.
pub open spec fn terminated(line: Seq<char>) -> Seq<char> {
    if ends_with(line, "\r\n"@) {
        line
    } else {
        line + "\r\n"@
    }
}

/// What a sequence of queued lines puts on the wire: each line whole,
/// terminated, in queue order.
pub open spec fn wire_text(lines: Seq<Seq<char>>) -> Seq<char>
    decreases lines.len(),
{
    if lines.len() == 0 {
        Seq::empty()
    } else {
        wire_text(lines.drop_last()) + terminated(lines.last())
    }
}

/// Builds `PRIVMSG <target> :<text>`.
pub fn privmsg_line(target: &str, text: &str) -> (line: String)
    ensures
        line@ == privmsg_text(target@, text@),
{
    let mut line = String::from_str("PRIVMSG ");
    line.append(target);
    line.append(" :");
    line.append(text);
    line
}

/// Builds `JOIN <channel>`.
pub fn join_line(channel: &str) -> (line: String)
    ensures
        line@ == join_text(channel@),
{
    let mut line = String::from_str("JOIN ");
    line.append(channel);
    line
}

/// Builds `PONG :<token>`, or `PONG` without a token.
pub fn pong_line(token: Option<&str>) -> (line: String)
    ensures
        line@ == pong_text(opt_str(token)),
{
    match token {
        Some(t) => {
            let mut line = String::from_str("PONG :");
            line.append(t);
            line
        },
        None => String::from_str("PONG"),
    }
}

/// Builds `NAMES <channel>`.
pub fn names_line(channel: &str) -> (line: String)
    ensures
        line@ == names_text(channel@),
{
    let mut line = String::from_str("NAMES ");
    line.append(channel);
    line
}

/// Builds `NICK <nick>`, the first line a connection sends.
pub fn nick_line(nick: &str) -> (line: String)
    ensures
        line@ == nick_text(nick@),
{
    let mut line = String::from_str("NICK ");
    line.append(nick);
    line
}

/// Builds `USER <user> 0 * :<user>`, the second line a connection sends.
pub fn user_line(user: &str) -> (line: String)
    ensures
        line@ == user_text(user@),
{
    let mut line = String::from_str("USER ");
    line.append(user);
    line.append(" 0 * :");
    line.append(user);
    line
}

/// The two lines that register a connection, in the order in which they
/// are sent before anything else.
pub fn registration_lines(nick: &str, user: &str) -> (lines: Vec<String>)
    ensures
        strings(lines@) == seq![nick_text(nick@), user_text(user@)],
{
    let mut lines: Vec<String> = Vec::new();
    lines.push(nick_line(nick));
    lines.push(user_line(user));
    assert(strings(lines@) =~= seq![nick_text(nick@), user_text(user@)]);
    lines
}

/// Gives a dequeued line its line ending, unless it has one.
pub fn terminate(line: String) -> (r: String)
    ensures
        r@ == terminated(line@),
        ends_with(r@, "\r\n"@),
{
    proof {
        reveal_strlit("\r\n");
    }
    let cs = chars_of(line.as_str());
    let n: usize = cs.len();
    if n >= 2 && cs[n - 2] == '\r' && cs[n - 1] == '\n' {
        assert(line@.subrange(n - 2, n as int) =~= "\r\n"@);
        line
    } else {
        if n >= 2 {
            assert(line@.subrange(n - 2, n as int)[0] == line@[n - 2]);
            assert(line@.subrange(n - 2, n as int)[1] == line@[n - 1]);
        }
        let mut r = line;
        r.append("\r\n");
        assert(r@.subrange(r@.len() - 2, r@.len() as int) =~= "\r\n"@);
        r
    }
}

/// The application's handle on one connection.
pub struct Client {
    /// The nick the connection registered with.
    pub nick: String,
    /// Lines accepted for sending and not yet taken by the writer.
    pending: Vec<String>,
    /// Whether the outbound queue still accepts lines.
    open: bool,
}

/// The mathematical value of a [`Client`].
pub struct ClientView {
    pub nick: Seq<char>,
    pub pending: Seq<Seq<char>>,
    pub open: bool,
}

impl View for Client {
    type V = ClientView;

    closed spec fn view(&self) -> ClientView {
        ClientView { nick: self.nick@, pending: strings(self.pending@), open: self.open }
    }
}

impl ClientView {
    /// The value after `line` was offered: queued last where the queue is
    /// open, unchanged where it is closed.
    pub open spec fn offer(self, line: Seq<char>) -> ClientView {
        if self.open {
            ClientView { pending: self.pending.push(line), ..self }
        } else {
            self
        }
    }
}

impl Client {
    /// A connection registered as `nick`, with an open and empty queue.
    pub fn new(nick: String) -> (c: Client)
        ensures
            c@ == (ClientView { nick: nick@, pending: Seq::empty(), open: true }),
    {
        let c = Client { nick, pending: Vec::new(), open: true };
        assert(c@.pending =~= Seq::empty());
        c
    }

    /// The nick the connection registered with.
    pub fn nick(&self) -> (r: &str)
        ensures
            r@ == self@.nick,
    {
        self.nick.as_str()
    }

    /// Whether the outbound queue still accepts lines.
    pub fn is_open(&self) -> (r: bool)
        ensures
            r == self@.open,
    {
        self.open
    }

    /// Closes the outbound queue: every later `send` fails. What is
    /// queued stays queued.
    pub fn close(&mut self)
        ensures
            final(self)@ == (ClientView { open: false, ..old(self)@ }),
    {
        self.open = false;
    }

    /// Queues one raw line. Succeeds exactly when the queue is open; it
    /// then holds the line last, whole, behind all lines queued before.
    pub fn send(&mut self, line: &str) -> (r: Result<(), SendError>)
        ensures
            r is Ok == old(self)@.open,
            final(self)@ == old(self)@.offer(line@),
    {
        if self.open {
            self.pending.push(line.to_owned());
            assert(strings(self.pending@) =~= strings(old(self).pending@).push(line@));
            Ok(())
        } else {
            Err(SendError {  })
        }
    }

    /// Takes the queued lines for the writer, oldest first, and leaves the
    /// queue empty.
    pub fn take_pending(&mut self) -> (lines: Vec<String>)
        ensures
            strings(lines@) == old(self)@.pending,
            final(self)@ == (ClientView { pending: Seq::empty(), ..old(self)@ }),
    {
        let mut lines: Vec<String> = Vec::new();
        std::mem::swap(&mut lines, &mut self.pending);
        assert(strings(self.pending@) =~= Seq::empty());
        lines
    }

    /// Turns what the inbound queue handed over into a message: `None`
    /// (the queue is closed and drained) is the end of the stream, a line
    /// is parsed with `now` as its instant of receipt, and a line that is
    /// no message comes back in the failure.
    pub fn recv(&self, line: Option<String>, now: Timestamp) -> (r: Result<
        Option<Msg>,
        ParseFailure,
    >)
        ensures
            match line {
                None => r == Ok::<Option<Msg>, ParseFailure>(None),
                Some(l) => match r {
                    Ok(m) => m is Some && parses_to(l@, now, m),
                    Err(e) => parses_to(l@, now, None) && e.line@ == l@,
                },
            },
    {
        match line {
            None => Ok(None),
            Some(l) => match Msg::parse(l.as_str(), now) {
                Some(m) => Ok(Some(m)),
                None => Err(ParseFailure { line: l }),
            },
        }
    }

    /// Queues `PRIVMSG <target> :<text>`.
    pub fn privmsg(&mut self, target: &str, text: &str) -> (r: Result<(), SendError>)
        ensures
            r is Ok == old(self)@.open,
            final(self)@ == old(self)@.offer(privmsg_text(target@, text@)),
    {
        let line = privmsg_line(target, text);
        self.send(line.as_str())
    }

    /// Queues `JOIN <channel>`.
    pub fn join(&mut self, channel: &str) -> (r: Result<(), SendError>)
        ensures
            r is Ok == old(self)@.open,
            final(self)@ == old(self)@.offer(join_text(channel@)),
    {
        let line = join_line(channel);
        self.send(line.as_str())
    }

    /// Queues `PONG :<token>`, or `PONG` without a token.
    pub fn pong(&mut self, token: Option<&str>) -> (r: Result<(), SendError>)
        ensures
            r is Ok == old(self)@.open,
            final(self)@ == old(self)@.offer(pong_text(opt_str(token))),
    {
        let line = pong_line(token);
        self.send(line.as_str())
    }

    /// Queues `NAMES <channel>`.
    pub fn names(&mut self, channel: &str) -> (r: Result<(), SendError>)
        ensures
            r is Ok == old(self)@.open,
            final(self)@ == old(self)@.offer(names_text(channel@)),
    {
        let line = names_line(channel);
        self.send(line.as_str())
    }
}

/// Lines queued one after another reach the wire one after another: what
/// the queue puts on the wire after a line is accepted is what it put
/// there before, followed by that whole line and its line ending. No
/// character of another line stands inside it.
pub proof fn lemma_send_keeps_lines_whole(before: ClientView, line: Seq<char>)
    requires
        before.open,
    ensures
        wire_text(before.offer(line).pending) == wire_text(before.pending) + terminated(line),
        ends_with(wire_text(before.offer(line).pending), "\r\n"@),
{
    reveal_strlit("\r\n");
    let after = before.offer(line).pending;
    assert(after.drop_last() =~= before.pending);
    let w = wire_text(after);
    let t = terminated(line);
    assert(ends_with(t, "\r\n"@)) by {
        if !ends_with(line, "\r\n"@) {
            assert(t.subrange(t.len() - 2, t.len() as int) =~= "\r\n"@);
        }
    }
    assert(w.subrange(w.len() - 2, w.len() as int) =~= t.subrange(t.len() - 2, t.len() as int));
}

/// What two runs of lines put on the wire, one run after the other, is
/// what the first puts there followed by what the second does.
pub proof fn lemma_wire_text_of_runs(first: Seq<Seq<char>>, second: Seq<Seq<char>>)
    ensures
        wire_text(first + second) == wire_text(first) + wire_text(second),
    decreases second.len(),
{
    if second.len() == 0 {
        assert(first + second =~= first);
        assert(wire_text(first) + wire_text(second) =~= wire_text(first));
    } else {
        lemma_wire_text_of_runs(first, second.drop_last());
        assert((first + second).drop_last() =~= first + second.drop_last());
        assert((first + second).last() == second.last());
        assert(wire_text(first + second) =~= wire_text(first) + wire_text(second));
    }
}

} // verus!
