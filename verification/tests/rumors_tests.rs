use botty::bot::rumors::{
    extract_query_tail, extract_topic, strip_bot_prefix, RumorAction, RumorsHandler,
};
use botty::clock::Timestamp;
use botty::irc_core::client::Client;
use botty::irc_core::irc_msg::Msg;
use std::ops::ControlFlow;

#[test]
fn test_strip_bot_prefix() {
    let bot_name = "RumorBot";
    assert_eq!(
        strip_bot_prefix(bot_name, "RumorBot, tell me a rumor"),
        Some("tell me a rumor")
    );
    assert_eq!(
        strip_bot_prefix(bot_name, "RumorBot: what's the news?"),
        Some("what's the news?")
    );
    assert_eq!(strip_bot_prefix(bot_name, "Hello RumorBot"), None);
}

#[test]
fn test_extract_query_tail() {
    assert_eq!(
        extract_query_tail("Who is the best coder?"),
        Some("is the best coder?")
    );
    assert_eq!(extract_query_tail("Tell me a rumor about Rust."), None);
}

#[test]
fn test_extract_topic() {
    assert_eq!(extract_topic("rust???"), Some("rust"));
    assert_eq!(extract_topic("something interesting?"), Some("something"));
}

#[test]
fn test_random_prefix() {
    let prefixes: Vec<String> = vec!["prefix1".into(), "prefix2".into(), "prefix3".into()];
    let handler = RumorsHandler::with_prefixes("RumorBot", prefixes.clone());

    for _ in 0..50 {
        let prefix = handler.random_prefix();
        assert!(prefixes.iter().any(|p| p == prefix));
    }
}

#[test]
fn random_prefix_falls_back_when_empty() {
    let handler = RumorsHandler::with_prefixes("RumorBot", vec![]);
    assert_eq!(handler.random_prefix(), "i may be broken but i know for sure that");
}

#[test]
fn stock_prefixes_are_used() {
    let stock = [
        "rumor has it",
        "i heard that",
        "they say",
        "word on the street is",
        "people are saying",
    ];
    let handler = RumorsHandler::new("RumorBot");
    for _ in 0..50 {
        assert!(stock.contains(&handler.random_prefix()));
    }
}

#[test]
fn strip_bot_prefix_ignores_case_and_trims() {
    assert_eq!(strip_bot_prefix("RumorBot", "rumorbot:   hi there  "), Some("hi there"));
    assert_eq!(strip_bot_prefix("RumorBot", "RUMORBOT,\u{2003}x\u{a0}"), Some("x"));
    assert_eq!(strip_bot_prefix("RumorBot", "RumorBot,"), Some(""));
    assert_eq!(strip_bot_prefix("RumorBot", "RumorBot tell me"), None);
    assert_eq!(strip_bot_prefix("RumorBot", ""), None);
}

#[test]
fn extract_topic_edges() {
    assert_eq!(extract_topic("  what about rust ?  "), Some("what"));
    assert_eq!(extract_topic("no question"), None);
    assert_eq!(extract_topic("???"), None);
    assert_eq!(extract_topic(""), None);
    assert_eq!(extract_topic("rust? ok"), None);
}

#[test]
fn extract_query_tail_edges() {
    assert_eq!(extract_query_tail("so WHAT happened here"), Some("happened here"));
    assert_eq!(extract_query_tail("tell me why"), None);
    assert_eq!(extract_query_tail("is who is"), Some("is who is"));
    assert_eq!(extract_query_tail(""), None);
}

#[test]
fn plan_decides_what_to_ask_of_the_store() {
    let handler = RumorsHandler::new("RumorBot");
    assert_eq!(handler.plan("alice", "#chan", "hello there"), RumorAction::Pass);
    assert_eq!(
        handler.plan("alice", "#chan", "RumorBot: rust?"),
        RumorAction::Fetch { channel: "#chan".into(), topic: "rust".into() }
    );
    assert_eq!(
        handler.plan("alice", "#chan", "rumorbot, botty was written in rust"),
        RumorAction::Store {
            nick: "alice".into(),
            channel: "#chan".into(),
            rumor: "botty was written in rust".into()
        }
    );
    assert_eq!(handler.plan("", "#chan", "RumorBot, something"), RumorAction::Ignore);
    assert_eq!(handler.plan("alice", "#chan", "RumorBot,   "), RumorAction::Ignore);
}

#[test]
fn flow_after_rumor_action() {
    assert_eq!(RumorsHandler::flow_after(&RumorAction::Pass), ControlFlow::Continue(()));
    assert_eq!(RumorsHandler::flow_after(&RumorAction::Ignore), ControlFlow::Break(()));
    assert_eq!(
        RumorsHandler::flow_after(&RumorAction::Fetch { channel: "#c".into(), topic: "x".into() }),
        ControlFlow::Break(())
    );
}

fn message(line: &str) -> Msg {
    Msg::parse(line, Timestamp::from_micros(0)).unwrap()
}

#[test]
fn plan_for_reads_the_nick_and_respects_the_chain() {
    let handler = RumorsHandler::new("RumorBot");
    let go_on = ControlFlow::Continue(());
    let stopped = ControlFlow::Break(());

    let told = message(":alice!a@h PRIVMSG #chan :RumorBot, botty was written in rust");
    assert_eq!(
        handler.plan_for(&told, &go_on),
        RumorAction::Store {
            nick: "alice".into(),
            channel: "#chan".into(),
            rumor: "botty was written in rust".into()
        }
    );
    assert_eq!(handler.plan_for(&told, &stopped), RumorAction::Pass);

    let asked = message(":bob!b@h PRIVMSG #chan :rumorbot: rust?");
    assert_eq!(
        handler.plan_for(&asked, &go_on),
        RumorAction::Fetch { channel: "#chan".into(), topic: "rust".into() }
    );
    assert_eq!(handler.plan_for(&asked, &stopped), RumorAction::Pass);

    assert_eq!(
        handler.plan_for(&message("PRIVMSG #chan :RumorBot, no sender"), &go_on),
        RumorAction::Pass
    );
    assert_eq!(
        handler.plan_for(&message(":!a@h PRIVMSG #chan :RumorBot, no nick"), &go_on),
        RumorAction::Ignore
    );
    assert_eq!(
        handler.plan_for(&message(":alice!a@h NOTICE #chan :RumorBot, a notice"), &go_on),
        RumorAction::Pass
    );
    assert_eq!(handler.plan_for(&message("PING RumorBot,"), &go_on), RumorAction::Pass);
    assert_eq!(
        handler.plan_for(&message(":alice!a@h PRIVMSG #chan :hello"), &go_on),
        RumorAction::Pass
    );
}

#[test]
fn tell_and_thank_queue_lines() {
    let handler = RumorsHandler::with_prefixes("RumorBot", vec!["they say".into()]);
    let mut client = Client::new("RumorBot".into());
    handler.tell(&mut client, "#chan", None);
    assert!(client.take_pending().is_empty());
    handler.tell(&mut client, "#chan", Some("botty was written in rust"));
    RumorsHandler::thank(&mut client, "#chan");
    assert_eq!(
        client.take_pending(),
        vec![
            "PRIVMSG #chan :they say botty was written in rust".to_string(),
            "PRIVMSG #chan :Good to know!".to_string()
        ]
    );
    assert_eq!(RumorsHandler::retell("i heard that", "x"), "i heard that x");
}
