//! Keeping the list of nicks in the channel.

use vstd::prelude::*;
use std::ops::ControlFlow;
use crate::irc_core::handler::{Context, ContextView, Handler, StateView};
use crate::irc_core::irc_msg::{owned_all, strings, Command, CommandView, Msg, MsgView};
use crate::text::{same_text, split_words, words, Spacing};

verus! {

/// Follows `JOIN`, `PART` and the names reply (353).
pub struct NamesHandler;

/// `items` without every occurrence of `x`, the rest in order.
pub open spec fn without(items: Seq<Seq<char>>, x: Seq<char>) -> Seq<Seq<char>>
    decreases items.len(),
{
    if items.len() == 0 {
        items
    } else if items.last() == x {
        without(items.drop_last(), x)
    } else {
        without(items.drop_last(), x).push(items.last())
    }
}

/// The names after a message: a `JOIN` by another nick adds that nick at
/// the end, a `PART` removes the nick that left, a names reply adds the
/// nicks it lists, but for the bot's own. Every other message leaves the
/// names as they are.
pub open spec fn names_after(names: Seq<Seq<char>>, own: Seq<char>, msg: MsgView) -> Seq<
    Seq<char>,
> {
    match msg.command {
        CommandView::Join { .. } => match msg.nick() {
            Some(nick) => if nick != own {
                names.push(nick)
            } else {
                names
            },
            None => names,
        },
        CommandView::Part { .. } => match msg.nick() {
            Some(nick) => without(names, nick),
            None => names,
        },
        CommandView::Numeric { code, trailing, .. } => match trailing {
            Some(list) => if code == 353 {
                names + without(words(list, Spacing::Ascii), own)
            } else {
                names
            },
            None => names,
        },
        _ => names,
    }
}

/// Copies of the `items` that differ from `x`, in order.
pub fn keep_others(items: &Vec<String>, x: &str) -> (r: Vec<String>)
    ensures
        strings(r@) == without(strings(items@), x@),
{
    let ghost all = strings(items@);
    let mut r: Vec<String> = Vec::new();
    let mut i: usize = 0;
    assert(strings(r@) =~= without(all.take(0), x@));
    while i < items.len()
        invariant
            i <= items.len(),
            all == strings(items@),
            strings(r@) == without(all.take(i as int), x@),
        decreases items.len() - i,
    {
        let ghost kept = strings(r@);
        assert(all.take(i + 1).drop_last() =~= all.take(i as int));
        assert(all.take(i + 1).last() == items@[i as int]@);
        if !same_text(items[i].as_str(), x) {
            r.push(items[i].clone());
            assert(strings(r@) =~= kept.push(items@[i as int]@));
        }
        i = i + 1;
    }
    assert(all.take(all.len() as int) =~= all);
    r
}

/// Adds copies of `more` at the end of `names`.
fn extend_names(names: &mut Vec<String>, more: &Vec<String>)
    ensures
        strings(final(names)@) == strings(old(names)@) + strings(more@),
{
    let mut i: usize = 0;
    assert(strings(names@) =~= strings(old(names)@) + strings(more@).take(0));
    while i < more.len()
        invariant
            i <= more.len(),
            strings(names@) == strings(old(names)@) + strings(more@).take(i as int),
        decreases more.len() - i,
    {
        let ghost so_far = strings(names@);
        names.push(more[i].clone());
        assert(strings(names@) =~= so_far.push(more@[i as int]@));
        assert(strings(more@).take(i + 1) =~= strings(more@).take(i as int).push(
            more@[i as int]@,
        ));
        i = i + 1;
    }
    assert(strings(more@).take(more@.len() as int) =~= strings(more@));
}

impl Handler for NamesHandler {
    /// Only the names change, as [`names_after`] says; nothing is sent
    /// and the chain always goes on.
    open spec fn handles(&self, before: ContextView, msg: MsgView, after: ContextView, stop: bool) -> bool {
        &&& !stop
        &&& after.client == before.client
        &&& after.state == (StateView {
            names: names_after(before.state.names, before.client.nick, msg),
            ..before.state
        })
    }

    fn handle(&self, ctx: &mut Context, msg: &Msg) -> (flow: ControlFlow<()>) {
        match &msg.command {
            Command::Join { .. } => {
                if let Some(nick) = msg.nick() {
                    if !same_text(nick.as_str(), ctx.client.nick()) {
                        let ghost names = strings(ctx.state.names@);
                        ctx.state.names.push(nick);
                        assert(strings(ctx.state.names@) =~= names.push(nick@));
                    }
                }
            },
            Command::Part { .. } => {
                if let Some(nick) = msg.nick() {
                    let kept = keep_others(&ctx.state.names, nick.as_str());
                    ctx.state.names = kept;
                }
            },
            Command::Numeric { code, trailing, .. } => {
                if let Some(list) = trailing {
                    if *code == 353 {
                        let listed = owned_all(&split_words(list.as_str(), Spacing::Ascii));
                        let others = keep_others(&listed, ctx.client.nick());
                        extend_names(&mut ctx.state.names, &others);
                    }
                }
            },
            _ => {},
        }
        ControlFlow::Continue(())
    }
}

} // verus!
