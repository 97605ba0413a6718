//! The handler chain: each message is offered to the handlers in the
//! order they were registered, until one of them stops the chain.

use vstd::prelude::*;
use std::ops::ControlFlow;
use crate::clock::Timestamp;
use crate::irc_core::client::{Client, ClientView, ParseFailure};
use crate::irc_core::handler::{Context, ContextView, Handler, State, StateView};
use crate::irc_core::irc_msg::{parse_line, strings, Msg, MsgView};

verus! {

/// Whether offering `msg` to the handlers `hs[i..]` in order, from
/// context `before`, may end in context `after`, stopped by a handler
/// (`stop`) or run through to the end of the list.
///
/// Handler `i` is offered the message first. If it stops the chain, its
/// result is the chain's result; otherwise the rest of the list goes on
/// from the context it left.
pub open spec fn chain_from<H: Handler>(
    hs: Seq<H>,
    i: int,
    before: ContextView,
    msg: MsgView,
    after: ContextView,
    stop: bool,
) -> bool
    decreases hs.len() - i,
{
    if i < 0 || i >= hs.len() {
        after == before && !stop
    } else {
        exists|mid: ContextView, s: bool| #[trigger]
            hs[i].handles(before, msg, mid, s) && if s {
                after == mid && stop
            } else {
                chain_from(hs, i + 1, mid, msg, after, stop)
            }
    }
}

/// One dispatch pass over the whole list.
pub open spec fn dispatches<H: Handler>(
    hs: Seq<H>,
    before: ContextView,
    msg: MsgView,
    after: ContextView,
    stop: bool,
) -> bool {
    chain_from(hs, 0, before, msg, after, stop)
}

/// A handler that stops the chain hides every handler behind it: where
/// handler `i` stops on this message whatever it does, the outcome of the
/// chain from `i` on is handler `i`'s own outcome, and no handler
/// behind it has any part in it.
pub proof fn lemma_break_short_circuits<H: Handler>(
    hs: Seq<H>,
    i: int,
    before: ContextView,
    msg: MsgView,
    after: ContextView,
    stop: bool,
)
    requires
        0 <= i < hs.len(),
        forall|mid: ContextView, s: bool| #[trigger] hs[i].handles(before, msg, mid, s) ==> s,
    ensures
        chain_from(hs, i, before, msg, after, stop) <==> (stop && hs[i].handles(
            before,
            msg,
            after,
            true,
        )),
{
    if stop && hs[i].handles(before, msg, after, true) {
        assert(chain_from(hs, i, before, msg, after, stop));
    }
}

/// The handlers behind a stopping handler may be replaced by any others
/// without changing what the chain can do: two lists that agree up to
/// and including a handler that stops on this message have the same
/// outcomes from every position up to it.
pub proof fn lemma_later_handlers_unseen<H: Handler>(
    hs: Seq<H>,
    gs: Seq<H>,
    i: int,
    k: int,
    start: ContextView,
    msg: MsgView,
    after: ContextView,
    stop: bool,
)
    requires
        0 <= i <= k < hs.len(),
        k < gs.len(),
        forall|j: int| 0 <= j <= k ==> hs[j] == gs[j],
        forall|before: ContextView, mid: ContextView, s: bool| #[trigger]
            hs[k].handles(before, msg, mid, s) ==> s,
    ensures
        chain_from(hs, i, start, msg, after, stop) == chain_from(gs, i, start, msg, after, stop),
    decreases k - i,
{
    assert(hs[i] == gs[i]);
    assert(hs[k] == gs[k]);
    if i == k {
        lemma_break_short_circuits(hs, k, start, msg, after, stop);
        lemma_break_short_circuits(gs, k, start, msg, after, stop);
    } else {
        assert forall|mid: ContextView| #[trigger]
            chain_from(hs, i + 1, mid, msg, after, stop) == chain_from(
            gs,
            i + 1,
            mid,
            msg,
            after,
            stop,
        ) by {
            lemma_later_handlers_unseen(hs, gs, i + 1, k, mid, msg, after, stop);
        }
        if chain_from(hs, i, start, msg, after, stop) {
            let (mid, s) = choose|mid: ContextView, s: bool| #[trigger]
                hs[i].handles(start, msg, mid, s) && if s {
                    after == mid && stop
                } else {
                    chain_from(hs, i + 1, mid, msg, after, stop)
                };
            assert(gs[i].handles(start, msg, mid, s));
            if !s {
                assert(chain_from(gs, i + 1, mid, msg, after, stop));
            }
            assert(chain_from(gs, i, start, msg, after, stop));
        }
        if chain_from(gs, i, start, msg, after, stop) {
            let (mid, s) = choose|mid: ContextView, s: bool| #[trigger]
                gs[i].handles(start, msg, mid, s) && if s {
                    after == mid && stop
                } else {
                    chain_from(gs, i + 1, mid, msg, after, stop)
                };
            assert(hs[i].handles(start, msg, mid, s));
            if !s {
                assert(chain_from(hs, i + 1, mid, msg, after, stop));
            }
            assert(chain_from(hs, i, start, msg, after, stop));
        }
    }
}

/// A handler that lets the message pass hands the context it left to the
/// next handler.
pub proof fn lemma_continue_passes_on<H: Handler>(
    hs: Seq<H>,
    i: int,
    before: ContextView,
    msg: MsgView,
    mid: ContextView,
    after: ContextView,
    stop: bool,
)
    requires
        0 <= i < hs.len(),
        hs[i].handles(before, msg, mid, false),
        chain_from(hs, i + 1, mid, msg, after, stop),
    ensures
        chain_from(hs, i, before, msg, after, stop),
{
}

/// Offers `msg` to each handler in order, with the same context, and
/// stops behind the first that returns `Break`. The result says whether
/// one did.
pub fn dispatch<H: Handler>(handlers: &Vec<H>, ctx: &mut Context, msg: &Msg) -> (flow: ControlFlow<()>)
    requires
        old(ctx).wf(),
    ensures
        final(ctx).wf(),
        dispatches(handlers@, old(ctx)@, msg@, final(ctx)@, flow is Break),
{
    let mut i: usize = 0;
    while i < handlers.len()
        invariant
            i <= handlers.len(),
            ctx.wf(),
            forall|after: ContextView, stop: bool| #[trigger]
                chain_from(handlers@, i as int, ctx@, msg@, after, stop) ==> chain_from(
                    handlers@,
                    0,
                    old(ctx)@,
                    msg@,
                    after,
                    stop,
                ),
        decreases handlers.len() - i,
    {
        let ghost before = ctx@;
        let flow = handlers[i].handle(ctx, msg);
        if let ControlFlow::Break(_) = flow {
            assert(chain_from(handlers@, i as int, before, msg@, ctx@, true));
            return ControlFlow::Break(());
        }
        proof {
            let mid = ctx@;
            assert forall|after: ContextView, stop: bool| #[trigger]
                chain_from(handlers@, i + 1, mid, msg@, after, stop) implies chain_from(
                handlers@,
                0,
                old(ctx)@,
                msg@,
                after,
                stop,
            ) by {
                lemma_continue_passes_on(handlers@, i as int, before, msg@, mid, after, stop);
            }
        }
        i = i + 1;
    }
    assert(chain_from(handlers@, i as int, ctx@, msg@, ctx@, false));
    ControlFlow::Continue(())
}

/// What one turn of the run loop came to.
#[derive(Debug, PartialEq)]
pub enum Outcome {
    /// The line was the message `msg`; it was offered to the chain,
    /// which ran through (`Continue`) or was stopped (`Break`).
    Dispatched { msg: Msg, flow: ControlFlow<()> },
    /// The line was no message; it was passed over.
    Skipped(ParseFailure),
    /// The inbound queue is closed and drained: the loop is over.
    EndOfStream,
}

/// An ordered list of handlers with the context they work on.
pub struct Bot<H: Handler> {
    handlers: Vec<H>,
    state: State,
    client: Client,
}

/// Collects handlers and state for a [`Bot`].
pub struct BotBuilder<H: Handler> {
    handlers: Vec<H>,
    state: State,
}

impl<H: Handler> BotBuilder<H> {
    /// The handlers registered so far, in order.
    pub closed spec fn handlers(self) -> Seq<H> {
        self.handlers@
    }

    /// The state the bot will start with.
    pub closed spec fn state(self) -> State {
        self.state
    }

    /// A builder with no handler and the empty state.
    pub fn new() -> (b: Self)
        ensures
            b.handlers() == Seq::<H>::empty(),
            b.state().wf(),
            b.state()@ == StateView::initial(Seq::empty()),
    {
        BotBuilder { handlers: Vec::new(), state: State::default() }
    }

    /// Registers `h` behind the handlers registered before.
    pub fn with_handler(self, h: H) -> (b: Self)
        ensures
            b.handlers() == self.handlers().push(h),
            b.state() == self.state(),
    {
        let mut b = self;
        b.handlers.push(h);
        b
    }

    /// A builder with no handler and the given state.
    pub fn new_with_state(state: State) -> (b: Self)
        ensures
            b.handlers() == Seq::<H>::empty(),
            b.state() == state,
    {
        BotBuilder { handlers: Vec::new(), state }
    }

    /// The bot over `client` with the handlers and state collected.
    pub fn build(self, client: Client) -> (bot: Bot<H>)
        ensures
            bot.handlers() == self.handlers(),
            bot.state() == self.state(),
            bot.client() == client,
    {
        Bot { handlers: self.handlers, state: self.state, client }
    }
}

impl<H: Handler> Bot<H> {
    /// The handlers, in registration order.
    pub closed spec fn handlers(self) -> Seq<H> {
        self.handlers@
    }

    pub closed spec fn state(self) -> State {
        self.state
    }

    pub closed spec fn client(self) -> Client {
        self.client
    }

    /// The context that the handlers are given.
    pub open spec fn context(self) -> ContextView {
        ContextView { client: self.client()@, state: self.state()@ }
    }

    pub open spec fn wf(self) -> bool {
        self.state().wf()
    }

    /// One turn of the run loop, on what the inbound queue handed over at
    /// `now`.
    ///
    /// The end of the stream and a line that is no message leave the bot
    /// as it is; the loop ends on the first and goes on after the second.
    /// A message is offered to the chain from its first handler on.
    pub fn step(&mut self, line: Option<String>, now: Timestamp) -> (outcome: Outcome)
        requires
            old(self).wf(),
        ensures
            final(self).wf(),
            final(self).handlers() == old(self).handlers(),
            match line {
                None => outcome == Outcome::EndOfStream && final(self).context() == old(self).context(),
                Some(l) => match parse_line(l@, now) {
                    None => outcome matches Outcome::Skipped(e) && e.line@ == l@ && final(self).context() == old(self).context(),
                    Some(m) => outcome matches Outcome::Dispatched { msg, flow } && msg@ == m
                        && dispatches(
                        old(self).handlers(),
                        old(self).context(),
                        m,
                        final(self).context(),
                        flow is Break,
                    ),
                },
            },
    {
        match self.client.recv(line, now) {
            Ok(None) => Outcome::EndOfStream,
            Err(e) => Outcome::Skipped(e),
            Ok(Some(msg)) => {
                let flow = self.offer(&msg);
                Outcome::Dispatched { msg, flow }
            },
        }
    }

    /// Offers one message to the chain; see [`dispatch`].
    pub fn offer(&mut self, msg: &Msg) -> (flow: ControlFlow<()>)
        requires
            old(self).wf(),
        ensures
            final(self).wf(),
            final(self).handlers() == old(self).handlers(),
            dispatches(
                old(self).handlers(),
                old(self).context(),
                msg@,
                final(self).context(),
                flow is Break,
            ),
    {
        let mut state = State::new(Vec::new());
        let mut client = Client::new(String::new());
        std::mem::swap(&mut state, &mut self.state);
        std::mem::swap(&mut client, &mut self.client);
        let mut ctx = Context { client, state };
        let flow = dispatch(&self.handlers, &mut ctx, msg);
        self.state = ctx.state;
        self.client = ctx.client;
        flow
    }

    /// The connection, for what is sent outside the chain.
    pub fn client_mut(&mut self) -> (c: &mut Client)
        ensures
            *c == old(self).client(),
            final(self).client() == *final(c),
            final(self).handlers() == old(self).handlers(),
            final(self).state() == old(self).state(),
    {
        &mut self.client
    }

    /// Takes the lines that the handlers queued, oldest first, for the
    /// writer.
    pub fn take_pending(&mut self) -> (lines: Vec<String>)
        ensures
            final(self).handlers() == old(self).handlers(),
            final(self).state() == old(self).state(),
            strings(lines@) == old(self).context().client.pending,
            final(self).context().client == (ClientView {
                pending: Seq::empty(),
                ..old(self).context().client
            }),
    {
        self.client.take_pending()
    }

    /// Closes the outbound queue, after the writer has gone.
    pub fn close(&mut self)
        ensures
            final(self).handlers() == old(self).handlers(),
            final(self).state() == old(self).state(),
            final(self).context().client == (ClientView {
                open: false,
                ..old(self).context().client
            }),
    {
        self.client.close();
    }
}

} // verus!
