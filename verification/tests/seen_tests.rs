use botty::bot::seen::{
    addressed_to, asked_about, format_seen_response, format_seen_response_at, update_seen,
    SeenHandler,
};
use botty::clock::Timestamp;
use botty::irc_core::client::Client;
use botty::irc_core::handler::{Context, Handler, PrivmsgHandler, SeenInfo, State};
use botty::irc_core::irc_msg::Msg;
use std::ops::ControlFlow;

fn now() -> Timestamp {
    Timestamp::from_micros(chrono::Local::now().timestamp_micros())
}

#[test]
fn seen_response_when_user_not_seen() {
    let state = State::new(vec![]);

    let resp = format_seen_response(&state, "alice");
    assert_eq!(resp, "I have not seen alice");
}

#[test]
fn seen_response_when_user_seen() {
    let mut state = State::new(vec![]);
    state.seen.insert(
        "alice".to_string(),
        SeenInfo {
            nick: "alice".to_string(),
            last_seen: now(),
            message: "hello world".to_string(),
        },
    );

    let resp = format_seen_response(&state, "alice");
    assert!(
        resp.contains("alice was last seen"),
        "response was: {resp:?}"
    );
    assert!(
        resp.contains("saying: hello world"),
        "response was: {resp:?}"
    );
}

#[test]
fn seen_response_names_the_span() {
    let mut state = State::new(vec![]);
    let then = Timestamp::from_micros(1_000_000_000_000);
    update_seen(&mut state.seen, "alice", "hello world", then);

    let an_hour = Timestamp::from_micros(1_000_000_000_000 + 3_600_000_000);
    assert_eq!(
        format_seen_response_at(&state, "alice", an_hour),
        "alice was last seen an hour ago saying: hello world"
    );
    let three_days = Timestamp::from_micros(1_000_000_000_000 + 3 * 86_400_000_000);
    assert_eq!(
        format_seen_response_at(&state, "alice", three_days),
        "alice was last seen 3 days ago saying: hello world"
    );
    assert_eq!(
        format_seen_response_at(&state, "alice", then),
        "alice was last seen now saying: hello world"
    );
    let before = Timestamp::from_micros(1_000_000_000_000 - 120_000_000);
    assert_eq!(
        format_seen_response_at(&state, "alice", before),
        "alice was last seen in 2 minutes saying: hello world"
    );
}

#[test]
fn timestamp_distance_is_held_to_range() {
    let far = Timestamp::from_micros(i64::MAX);
    let back = Timestamp::from_micros(i64::MIN);
    assert_eq!(far.micros_since(back), i64::MAX);
    assert_eq!(back.micros_since(far), i64::MIN);
    assert_eq!(Timestamp::from_micros(5).micros_since(Timestamp::from_micros(7)), -2);
}

#[test]
fn update_seen_replaces_earlier_sighting() {
    let mut state = State::new(vec![]);
    update_seen(&mut state.seen, "alice", "first", Timestamp::from_micros(1));
    update_seen(&mut state.seen, "bob", "other", Timestamp::from_micros(2));
    State::update_seen(&mut state.seen, "alice", "second", Timestamp::from_micros(3));
    let info = state.seen.get("alice").unwrap();
    assert_eq!(info.nick, "alice");
    assert_eq!(info.message, "second");
    assert_eq!(info.last_seen, Timestamp::from_micros(3));
    assert_eq!(state.seen.get("bob").unwrap().message, "other");
    assert_eq!(state.seen.len(), 2);
    assert!(state.seen.get("carol").is_none());
    assert!(state.seen.contains_key("bob"));
    assert!(!state.seen.contains_key("carol"));
}

#[test]
fn seen_question_words() {
    assert!(addressed_to("botty, seen alice", "botty"));
    assert!(addressed_to("BOTTY, seen alice", "botty"));
    assert!(!addressed_to("botty: seen alice", "botty"));
    assert!(!addressed_to("botty, seen alice", "Botty"));
    assert_eq!(asked_about("botty, SEEN alice today"), Some("alice"));
    assert_eq!(asked_about("botty,\u{2003}seen\u{a0}alice"), Some("alice"));
    assert_eq!(asked_about("botty, seen"), None);
    assert_eq!(asked_about("botty, saw alice"), None);
}

fn context(channels: &[&str]) -> Context {
    Context {
        client: Client::new("botty".into()),
        state: State::new(channels.iter().map(|c| c.to_string()).collect()),
    }
}

#[test]
fn seen_handler_records_and_answers() {
    let mut ctx = context(&["#chan"]);
    let handler = SeenHandler;
    let t = Timestamp::from_micros(1_000_000_000_000);

    let flow = handler.handle_privmsg_at(&mut ctx, "alice", "#chan", "hello world", t);
    assert_eq!(flow, ControlFlow::Continue(()));
    let info = ctx.state.seen.get("alice").unwrap();
    assert_eq!(info.nick, "alice");
    assert_eq!(info.message, "hello world");
    assert_eq!(info.last_seen, t);
    assert!(ctx.client.take_pending().is_empty());

    let later = Timestamp::from_micros(1_000_000_000_000 + 3_600_000_000);
    let flow = handler.handle_privmsg_at(&mut ctx, "bob", "#chan", "botty, seen alice", later);
    assert_eq!(flow, ControlFlow::Continue(()));
    assert_eq!(
        ctx.client.take_pending(),
        vec!["PRIVMSG #chan :alice was last seen an hour ago saying: hello world".to_string()]
    );
    assert!(ctx.state.seen.get("bob").is_none());

    handler.handle_privmsg_at(&mut ctx, "bob", "#chan", "botty, seen carol", later);
    assert_eq!(
        ctx.client.take_pending(),
        vec!["PRIVMSG #chan :I have not seen carol".to_string()]
    );

    handler.handle_privmsg_at(&mut ctx, "bob", "#chan", "botty, hello", later);
    assert!(ctx.client.take_pending().is_empty());
    assert!(ctx.state.seen.get("bob").is_none());
}

#[test]
fn seen_handler_ignores_other_channels_and_empty_sources() {
    let mut ctx = context(&["#chan"]);
    let handler = SeenHandler;
    let t = Timestamp::from_micros(5);
    handler.handle_privmsg_at(&mut ctx, "alice", "#elsewhere", "hello", t);
    handler.handle_privmsg_at(&mut ctx, "", "#chan", "hello", t);
    assert_eq!(ctx.state.seen.len(), 0);
    assert!(ctx.client.take_pending().is_empty());
}

#[test]
fn seen_handler_reads_the_clock() {
    let mut ctx = context(&["#chan"]);
    let before = now();
    let flow = SeenHandler.handle_privmsg(&mut ctx, "alice", "#chan", "hello");
    let after = now();
    assert_eq!(flow, ControlFlow::Continue(()));
    let at = ctx.state.seen.get("alice").unwrap().last_seen;
    assert!(before.micros <= at.micros && at.micros <= after.micros);
    assert!(at.micros > 1_600_000_000_000_000);
}

#[test]
fn seen_handler_through_the_adapter() {
    let mut ctx = context(&["#chan"]);
    let msg = Msg::parse(":alice!a@h PRIVMSG #chan :hi all", Timestamp::from_micros(0)).unwrap();
    assert_eq!(SeenHandler.handle(&mut ctx, &msg), ControlFlow::Continue(()));
    let info = ctx.state.seen.get("alice").unwrap();
    assert_eq!(info.nick, "alice");
    assert_eq!(info.message, "hi all");
    assert!(ctx.state.seen.get("alice!a@h").is_none());
    assert_eq!(ctx.state.seen.len(), 1);
}

#[test]
fn a_question_about_a_nick_finds_who_spoke_under_a_full_prefix() {
    let mut ctx = context(&["#chan"]);
    let spoke = Msg::parse(":alice!a@h PRIVMSG #chan :hello world", Timestamp::from_micros(0));
    SeenHandler.handle(&mut ctx, &spoke.unwrap());
    let asks = Msg::parse(":bob!b@h PRIVMSG #chan :botty, seen alice", Timestamp::from_micros(0));
    SeenHandler.handle(&mut ctx, &asks.unwrap());
    let lines = ctx.client.take_pending();
    assert_eq!(lines.len(), 1);
    assert!(lines[0].starts_with("PRIVMSG #chan :alice was last seen "), "{lines:?}");
    assert!(lines[0].ends_with(" saying: hello world"), "{lines:?}");
}

#[test]
fn a_prefix_without_a_nick_is_not_recorded() {
    let mut ctx = context(&["#chan"]);
    let msg = Msg::parse(":!a@h PRIVMSG #chan :hi all", Timestamp::from_micros(0)).unwrap();
    assert_eq!(SeenHandler.handle(&mut ctx, &msg), ControlFlow::Continue(()));
    assert_eq!(ctx.state.seen.len(), 0);
}
