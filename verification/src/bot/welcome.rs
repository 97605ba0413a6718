//! Joining the configured channels once the server has greeted the bot.

use vstd::prelude::*;
use std::ops::ControlFlow;
use crate::irc_core::client::join_text;
use crate::irc_core::handler::{Context, ContextView, Handler};
use crate::irc_core::irc_msg::{Command, CommandView, Msg, MsgView};

verus! {

/// Joins every configured channel when the message of the day has ended.
pub struct WelcomeHandler;

/// Whether a numeric reply says that the message of the day is over
/// (376) or missing (422).
pub open spec fn is_motd_end(code: int) -> bool {
    code == 376 || code == 422
}

/// The `JOIN` lines for `channels`, in order.
pub open spec fn join_texts(channels: Seq<Seq<char>>) -> Seq<Seq<char>> {
    Seq::new(channels.len(), |i: int| join_text(channels[i]))
}

impl Handler for WelcomeHandler {
    /// On the end of the message of the day, one `JOIN` is queued for each
    /// configured channel, in order, and the chain stops. Everything else
    /// passes.
    open spec fn handles(&self, before: ContextView, msg: MsgView, after: ContextView, stop: bool) -> bool {
        match msg.command {
            CommandView::Numeric { code, .. } => if is_motd_end(code) {
                &&& stop
                &&& after.state == before.state
                &&& after.client == before.client.offer_all(join_texts(before.state.channels))
            } else {
                after == before && !stop
            },
            _ => after == before && !stop,
        }
    }

    fn handle(&self, ctx: &mut Context, msg: &Msg) -> (flow: ControlFlow<()>) {
        if let Command::Numeric { code, .. } = &msg.command {
            if *code == 376 || *code == 422 {
                let ghost all = join_texts(ctx.state@.channels);
                let mut i: usize = 0;
                while i < ctx.state.channels.len()
                    invariant
                        i <= ctx.state.channels.len(),
                        ctx.state == old(ctx).state,
                        all == join_texts(ctx.state@.channels),
                        ctx.client@ == old(ctx).client@.offer_all(all.take(i as int)),
                    decreases ctx.state.channels.len() - i,
                {
                    let _ = ctx.client.join(ctx.state.channels[i].as_str());
                    proof {
                        assert(all.take(i + 1).drop_last() =~= all.take(i as int));
                        assert(all.take(i + 1).last() == join_text(ctx.state.channels@[i as int]@));
                    }
                    i = i + 1;
                }
                assert(all.take(all.len() as int) =~= all);
                return ControlFlow::Break(());
            }
        }
        ControlFlow::Continue(())
    }
}

} // verus!
