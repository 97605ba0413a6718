use botty::clock::Timestamp;
use botty::irc_core::bot::{dispatch, Bot, BotBuilder, Outcome};
use botty::irc_core::client::Client;
use botty::irc_core::handler::{
    send_all, Context, Handler, HandlerFn, PrivmsgHandler, Reaction, State,
};
use botty::irc_core::irc_msg::{Command, Msg};
use std::cell::Cell;
use std::ops::ControlFlow;

/// Queues its name and returns the flow it was made with.
struct Named {
    name: &'static str,
    flow: ControlFlow<()>,
}

impl Handler for Named {
    fn handle(&self, ctx: &mut Context, _msg: &Msg) -> ControlFlow<()> {
        let _ = ctx.client.send(self.name);
        self.flow
    }
}

fn named(name: &'static str, stop: bool) -> Named {
    Named { name, flow: if stop { ControlFlow::Break(()) } else { ControlFlow::Continue(()) } }
}

fn context() -> Context {
    Context { client: Client::new("botty".into()), state: State::new(vec!["#chan".into()]) }
}

fn message(line: &str) -> Msg {
    Msg::parse(line, Timestamp::from_micros(0)).unwrap()
}

#[test]
fn break_hides_later_handlers() {
    let handlers = vec![named("A", true), named("B", false), named("C", false)];
    let mut ctx = context();
    let flow = dispatch(&handlers, &mut ctx, &message("PING x"));
    assert_eq!(flow, ControlFlow::Break(()));
    assert_eq!(ctx.client.take_pending(), vec!["A".to_string()]);

    let flow = dispatch(&handlers, &mut ctx, &message("PING y"));
    assert_eq!(flow, ControlFlow::Break(()));
    assert_eq!(ctx.client.take_pending(), vec!["A".to_string()]);
}

#[test]
fn handlers_run_in_registration_order() {
    let handlers = vec![named("A", false), named("B", false), named("C", false)];
    let mut ctx = context();
    let flow = dispatch(&handlers, &mut ctx, &message("PING x"));
    assert_eq!(flow, ControlFlow::Continue(()));
    assert_eq!(
        ctx.client.take_pending(),
        vec!["A".to_string(), "B".to_string(), "C".to_string()]
    );

    let handlers = vec![named("A", false), named("B", true), named("C", false)];
    let flow = dispatch(&handlers, &mut ctx, &message("PING x"));
    assert_eq!(flow, ControlFlow::Break(()));
    assert_eq!(ctx.client.take_pending(), vec!["A".to_string(), "B".to_string()]);
}

#[test]
fn empty_chain_does_nothing() {
    let handlers: Vec<Named> = vec![];
    let mut ctx = context();
    assert_eq!(dispatch(&handlers, &mut ctx, &message("PING x")), ControlFlow::Continue(()));
    assert!(ctx.client.take_pending().is_empty());
}

/// Stops on a `PING`, passes everything else.
struct StopOnPing;

impl Handler for StopOnPing {
    fn handle(&self, ctx: &mut Context, msg: &Msg) -> ControlFlow<()> {
        let _ = ctx.client.send("saw it");
        match msg.command {
            Command::Ping { .. } => ControlFlow::Break(()),
            _ => ControlFlow::Continue(()),
        }
    }
}

#[test]
fn every_message_starts_at_the_first_handler() {
    let mut bot = BotBuilder::new()
        .with_handler(HandlerFn::new(Box::new(|_: &Context, msg: &Msg| Reaction {
            lines: vec!["first".to_string()],
            flow: match msg.command {
                Command::Ping { .. } => ControlFlow::Break(()),
                _ => ControlFlow::Continue(()),
            },
        }) as Box<dyn Fn(&Context, &Msg) -> Reaction>))
        .with_handler(HandlerFn::new(Box::new(|_: &Context, _: &Msg| Reaction {
            lines: vec!["second".to_string()],
            flow: ControlFlow::Continue(()),
        }) as Box<dyn Fn(&Context, &Msg) -> Reaction>))
        .build(Client::new("botty".into()));

    let t = Timestamp::from_micros(0);
    assert_eq!(
        bot.step(Some("PING x".into()), t),
        Outcome::Dispatched { msg: message("PING x"), flow: ControlFlow::Break(()) }
    );
    assert_eq!(bot.take_pending(), vec!["first".to_string()]);

    assert_eq!(
        bot.step(Some(":a!b@c PRIVMSG #chan :hi".into()), t),
        Outcome::Dispatched {
            msg: message(":a!b@c PRIVMSG #chan :hi"),
            flow: ControlFlow::Continue(())
        }
    );
    assert_eq!(bot.take_pending(), vec!["first".to_string(), "second".to_string()]);

    assert_eq!(
        bot.step(Some("PING y".into()), t),
        Outcome::Dispatched { msg: message("PING y"), flow: ControlFlow::Break(()) }
    );
    assert_eq!(bot.take_pending(), vec!["first".to_string()]);
}

#[test]
fn run_loop_skips_malformed_lines_and_ends_on_end_of_stream() {
    let mut bot: Bot<StopOnPing> =
        BotBuilder::new().with_handler(StopOnPing).build(Client::new("botty".into()));
    let t = Timestamp::from_micros(0);

    for bad in ["", ":", "PRIVMSG"] {
        match bot.step(Some(bad.to_string()), t) {
            Outcome::Skipped(e) => assert_eq!(e.line, bad),
            other => panic!("{other:?}"),
        }
        assert!(bot.take_pending().is_empty());
    }
    assert!(matches!(
        bot.step(Some("PING x".into()), t),
        Outcome::Dispatched { flow: ControlFlow::Break(()), .. }
    ));
    assert_eq!(bot.take_pending(), vec!["saw it".to_string()]);
    assert_eq!(bot.step(None, t), Outcome::EndOfStream);
    assert!(bot.take_pending().is_empty());
}

#[test]
fn offer_reports_the_flow() {
    let mut bot = BotBuilder::new_with_state(State::new(vec![]))
        .with_handler(StopOnPing)
        .build(Client::new("botty".into()));
    assert_eq!(bot.offer(&message("PING x")), ControlFlow::Break(()));
    assert_eq!(bot.offer(&message("JOIN #c")), ControlFlow::Continue(()));
    assert_eq!(bot.client_mut().send("outside the chain"), Ok(()));
    bot.close();
    assert_eq!(bot.offer(&message("PING x")), ControlFlow::Break(()));
    assert_eq!(
        bot.take_pending(),
        vec!["saw it".to_string(), "saw it".to_string(), "outside the chain".to_string()]
    );
}

/// Counts its calls and records what it was called with.
struct Counting {
    calls: Cell<u32>,
    last: Cell<Option<(String, String, String)>>,
}

impl PrivmsgHandler for Counting {
    fn handle_privmsg(
        &self,
        _ctx: &mut Context,
        nick: &str,
        channel: &str,
        message: &str,
    ) -> ControlFlow<()> {
        self.calls.set(self.calls.get() + 1);
        self.last.set(Some((nick.into(), channel.into(), message.into())));
        ControlFlow::Break(())
    }
}

#[test]
fn adapter_only_fires_on_chat_messages_with_a_sender() {
    let handler = Counting { calls: Cell::new(0), last: Cell::new(None) };
    let mut ctx = context();

    for line in ["PING x", ":srv 001 me :hi", "PRIVMSG #chan :no sender", ":a!b@c JOIN #chan"] {
        assert_eq!(handler.handle(&mut ctx, &message(line)), ControlFlow::Continue(()));
        assert_eq!(handler.calls.get(), 0);
    }

    let flow = handler.handle(&mut ctx, &message(":nick!user@host PRIVMSG #chan :hello world"));
    assert_eq!(flow, ControlFlow::Break(()));
    assert_eq!(handler.calls.get(), 1);
    assert_eq!(
        handler.last.take(),
        Some(("nick".to_string(), "#chan".to_string(), "hello world".to_string()))
    );
}

#[test]
fn adapter_hands_on_the_nick_in_the_prefix() {
    let handler = Counting { calls: Cell::new(0), last: Cell::new(None) };
    let mut ctx = context();

    handler.handle(&mut ctx, &message(":nick!user@host PRIVMSG #chan :hi"));
    assert_eq!(
        handler.last.take(),
        Some(("nick".to_string(), "#chan".to_string(), "hi".to_string()))
    );
    handler.handle(&mut ctx, &message(":irc.example.com PRIVMSG #chan :hi"));
    assert_eq!(
        handler.last.take(),
        Some(("irc.example.com".to_string(), "#chan".to_string(), "hi".to_string()))
    );
    handler.handle(&mut ctx, &message(":a!b!c PRIVMSG botty :x"));
    assert_eq!(
        handler.last.take(),
        Some(("a".to_string(), "botty".to_string(), "x".to_string()))
    );
    assert_eq!(handler.calls.get(), 3);
}

#[test]
fn function_handler_sends_its_lines() {
    let handler = HandlerFn::new(|ctx: &Context, _: &Msg| Reaction {
        lines: vec![format!("hello from {}", ctx.client.nick()), "again".to_string()],
        flow: ControlFlow::Break(()),
    });
    let mut ctx = context();
    assert_eq!(handler.handle(&mut ctx, &message("PING x")), ControlFlow::Break(()));
    assert_eq!(
        ctx.client.take_pending(),
        vec!["hello from botty".to_string(), "again".to_string()]
    );

    ctx.client.close();
    send_all(&mut ctx.client, &vec!["lost".to_string()]);
    assert!(ctx.client.take_pending().is_empty());
}
