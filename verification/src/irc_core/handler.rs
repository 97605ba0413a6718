//! Shared state, the dispatch context and the handler capability.

use vstd::prelude::*;
use std::ops::ControlFlow;
use crate::clock::Timestamp;
use crate::irc_core::client::{Client, ClientView};
use crate::irc_core::irc_msg::{nick_of, strings, Command, CommandView, Msg, MsgView};
use crate::irc_core::nick_map::NickMap;
use crate::text::same_text;

verus! {

/// When a user was last seen, and what they said.
#[derive(Clone, Debug)]
pub struct SeenInfo {
    pub nick: String,
    pub last_seen: Timestamp,
    pub message: String,
}

/// The mathematical value of a [`SeenInfo`].
pub struct SeenInfoView {
    pub nick: Seq<char>,
    pub last_seen: Timestamp,
    pub message: Seq<char>,
}

impl View for SeenInfo {
    type V = SeenInfoView;

    open spec fn view(&self) -> SeenInfoView {
        SeenInfoView { nick: self.nick@, last_seen: self.last_seen, message: self.message@ }
    }
}

/// The state that handlers share.
pub struct State {
    /// Last sighting by nick.
    pub seen: NickMap<SeenInfo>,
    /// Score by nick.
    pub scores: NickMap<i32>,
    /// The channels to join once registered.
    pub channels: Vec<String>,
    /// The nicks known to be in the channel.
    pub names: Vec<String>,
}

/// The mathematical value of a [`State`].
pub struct StateView {
    pub seen: Map<Seq<char>, SeenInfoView>,
    pub scores: Map<Seq<char>, i32>,
    pub channels: Seq<Seq<char>>,
    pub names: Seq<Seq<char>>,
}

impl View for State {
    type V = StateView;

    open spec fn view(&self) -> StateView {
        StateView {
            seen: self.seen@,
            scores: self.scores@,
            channels: strings(self.channels@),
            names: strings(self.names@),
        }
    }
}

impl StateView {
    /// The state in which nothing is recorded and `channels` are to be
    /// joined.
    pub open spec fn initial(channels: Seq<Seq<char>>) -> StateView {
        StateView { seen: Map::empty(), scores: Map::empty(), channels, names: Seq::empty() }
    }
}

impl State {
    /// Both maps are well formed.
    pub open spec fn wf(self) -> bool {
        self.seen.wf() && self.scores.wf()
    }

    /// The state at startup: nothing seen, no scores, no names, and the
    /// given channels to join.
    pub fn new(channels: Vec<String>) -> (s: State)
        ensures
            s.wf(),
            s@ == StateView::initial(strings(channels@)),
    {
        let s = State {
            seen: NickMap::new(),
            scores: NickMap::new(),
            channels,
            names: Vec::new(),
        };
        assert(strings(s.names@) =~= Seq::empty());
        s
    }

    /// Records that `nick` said `message` at `now`, in place of any
    /// earlier sighting of `nick`.
    pub fn update_seen(seen: &mut NickMap<SeenInfo>, nick: &str, message: &str, now: Timestamp)
        requires
            old(seen).wf(),
        ensures
            final(seen).wf(),
            final(seen)@ == old(seen)@.insert(
                nick@,
                SeenInfoView { nick: nick@, last_seen: now, message: message@ },
            ),
    {
        seen.insert(
            nick.to_owned(),
            SeenInfo { nick: nick.to_owned(), last_seen: now, message: message.to_owned() },
        );
    }
}

impl Default for State {
    /// The state at startup with no channel to join.
    fn default() -> (s: State)
        ensures
            s.wf(),
            s@ == StateView::initial(Seq::empty()),
    {
        let channels: Vec<String> = Vec::new();
        assert(strings(channels@) =~= Seq::empty());
        State::new(channels)
    }
}

/// Whether one of `items` holds the text of `s`.
pub fn contains_text(items: &Vec<String>, s: &str) -> (r: bool)
    ensures
        r == strings(items@).contains(s@),
{
    let mut i: usize = 0;
    while i < items.len()
        invariant
            i <= items.len(),
            forall|j: int| 0 <= j < i ==> strings(items@)[j] != s@,
        decreases items.len() - i,
    {
        if same_text(items[i].as_str(), s) {
            assert(strings(items@)[i as int] == s@);
            return true;
        }
        i = i + 1;
    }
    false
}

/// What every handler call is given: the connection and the shared state.
pub struct Context {
    pub client: Client,
    pub state: State,
}

/// The mathematical value of a [`Context`].
pub struct ContextView {
    pub client: ClientView,
    pub state: StateView,
}

impl View for Context {
    type V = ContextView;

    open spec fn view(&self) -> ContextView {
        ContextView { client: self.client@, state: self.state@ }
    }
}

impl Context {
    pub open spec fn wf(self) -> bool {
        self.state.wf()
    }
}

/// Something that reacts to messages. Its only effects are on the
/// context (lines queued, state changed); what it returns says whether
/// later handlers are offered the same message.
pub trait Handler {
    /// Whether the handler, offered `msg` in context `before`, may leave
    /// the context as `after` and stop the chain (`stop`) or not. A
    /// handler that does not say is taken to be capable of anything.
    open spec fn handles(&self, before: ContextView, msg: MsgView, after: ContextView, stop: bool) -> bool {
        true
    }

    /// Return `ControlFlow::Break(())` to stop processing further handlers.
    fn handle(&self, ctx: &mut Context, msg: &Msg) -> (flow: ControlFlow<()>)
        requires
            old(ctx).wf(),
        ensures
            final(ctx).wf(),
            self.handles(old(ctx)@, msg@, final(ctx)@, flow is Break),
    ;
}

/// What a function handler gives back: the lines to send, in order, and
/// whether the chain goes on.
pub struct Reaction {
    pub lines: Vec<String>,
    pub flow: ControlFlow<()>,
}

impl ClientView {
    /// The value after each of `lines` was offered in turn.
    pub open spec fn offer_all(self, lines: Seq<Seq<char>>) -> ClientView
        decreases lines.len(),
    {
        if lines.len() == 0 {
            self
        } else {
            self.offer_all(lines.drop_last()).offer(lines.last())
        }
    }
}

/// Offers each of `lines` to the connection in turn; a refusal is
/// passed over.
pub fn send_all(client: &mut Client, lines: &Vec<String>)
    ensures
        final(client)@ == old(client)@.offer_all(strings(lines@)),
{
    let mut i: usize = 0;
    while i < lines.len()
        invariant
            i <= lines.len(),
            client@ == old(client)@.offer_all(strings(lines@).take(i as int)),
        decreases lines.len() - i,
    {
        let _ = client.send(lines[i].as_str());
        proof {
            let all = strings(lines@);
            assert(all.take(i + 1).drop_last() =~= all.take(i as int));
            assert(all.take(i + 1).last() == lines@[i as int]@);
        }
        i = i + 1;
    }
    assert(strings(lines@).take(lines@.len() as int) =~= strings(lines@));
}

/// A handler that is a plain function: it reads the context and the
/// message and says what to send and whether to stop. The function must
/// accept every well-formed context and every message.
pub struct HandlerFn<F: Fn(&Context, &Msg) -> Reaction>(F);

impl<F: Fn(&Context, &Msg) -> Reaction> HandlerFn<F> {
    #[verifier::type_invariant]
    spec fn total(self) -> bool {
        forall|ctx: &Context, msg: &Msg| ctx.wf() ==> #[trigger] self.0.requires((ctx, msg))
    }

    /// The wrapped function.
    pub closed spec fn func(self) -> F {
        self.0
    }

    /// Wraps `f`, which must be callable on every well-formed context.
    pub fn new(f: F) -> (h: Self)
        requires
            forall|ctx: &Context, msg: &Msg| ctx.wf() ==> #[trigger] f.requires((ctx, msg)),
        ensures
            h.func() == f,
    {
        HandlerFn(f)
    }
}

impl<F: Fn(&Context, &Msg) -> Reaction> Handler for HandlerFn<F> {
    /// The context afterwards is the one before with the function's lines
    /// offered in order; the state is untouched.
    open spec fn handles(&self, before: ContextView, msg: MsgView, after: ContextView, stop: bool) -> bool {
        exists|ctx: &Context, m: &Msg, r: Reaction|
            ctx@ == before && m@ == msg && #[trigger] self.func().ensures((ctx, m), r) && after == (
            ContextView { client: before.client.offer_all(strings(r.lines@)), state: before.state })
                && stop == (r.flow is Break)
    }

    fn handle(&self, ctx: &mut Context, msg: &Msg) -> (flow: ControlFlow<()>) {
        proof {
            use_type_invariant(self);
        }
        let r = (self.0)(&*ctx, msg);
        let ghost before: &Context = &*old(ctx);
        send_all(&mut ctx.client, &r.lines);
        assert(self.func().ensures((before, msg), r));
        r.flow
    }
}

/// A handler that only wants chat messages, with the speaker's nick, the
/// target and the text already taken out of them.
pub trait PrivmsgHandler {
    /// As [`Handler::handles`], for one chat message said by `nick`.
    open spec fn handles_privmsg(
        &self,
        before: ContextView,
        nick: Seq<char>,
        channel: Seq<char>,
        message: Seq<char>,
        after: ContextView,
        stop: bool,
    ) -> bool {
        true
    }

    fn handle_privmsg(&self, ctx: &mut Context, nick: &str, channel: &str, message: &str) -> (flow:
        ControlFlow<()>)
        requires
            old(ctx).wf(),
        ensures
            final(ctx).wf(),
            self.handles_privmsg(old(ctx)@, nick@, channel@, message@, final(ctx)@, flow is Break),
    ;
}

impl<T: PrivmsgHandler> Handler for T {
    /// A chat message with a prefix is handed on as the nick in that
    /// prefix, the target and the text; every other message passes.
    open spec fn handles(&self, before: ContextView, msg: MsgView, after: ContextView, stop: bool) -> bool {
        match (msg.command, msg.source) {
            (CommandView::Privmsg { target, message }, Some(source)) => self.handles_privmsg(
                before,
                nick_of(Some(source)),
                target,
                message,
                after,
                stop,
            ),
            _ => after == before && !stop,
        }
    }

    fn handle(&self, ctx: &mut Context, msg: &Msg) -> (flow: ControlFlow<()>) {
        match (&msg.command, &msg.source) {
            (Command::Privmsg { target, message }, Some(source)) => {
                let nick = Msg::source_to_nick(Some(source.as_str()));
                self.handle_privmsg(ctx, nick.as_str(), target.as_str(), message.as_str())
            },
            _ => ControlFlow::Continue(()),
        }
    }
}

/// Whether a message is a chat message with a sender: the only kind
/// that a [`PrivmsgHandler`] is shown.
pub open spec fn is_chat(msg: MsgView) -> bool {
    msg.command is Privmsg && msg.source is Some
}

/// The adapter never shows its handler anything but a chat message with a
/// sender: on every other message (a `PING`, a numeric reply, a chat
/// message without a prefix) it leaves the context as it was and lets
/// the chain go on.
pub proof fn lemma_adapter_passes_over<T: PrivmsgHandler>(
    h: T,
    before: ContextView,
    msg: MsgView,
    after: ContextView,
    stop: bool,
)
    requires
        !is_chat(msg),
    ensures
        h.handles(before, msg, after, stop) <==> (after == before && !stop),
{
}

/// On a chat message with a sender the adapter is its handler, called
/// once with the speaker's nick (the prefix up to its first `!`), the
/// target and the text of that message: the two have the same outcomes.
pub proof fn lemma_adapter_delegates<T: PrivmsgHandler>(
    h: T,
    before: ContextView,
    msg: MsgView,
    after: ContextView,
    stop: bool,
)
    requires
        is_chat(msg),
    ensures
        h.handles(before, msg, after, stop) <==> h.handles_privmsg(
            before,
            nick_of(msg.source),
            msg.command->Privmsg_target,
            msg.command->Privmsg_message,
            after,
            stop,
        ),
{
}

} // verus!
