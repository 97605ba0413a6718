use botty::clock::Timestamp;
use botty::irc_msg::{split_irc, CmdParts, Command, Msg, MsgMeta};

#[test]
fn irc_msg_from_parts_privmsg() {
    let got = Command::from_parts(
        String::from("nickname"),
        CmdParts {
            source: Some("nickname!+username@host"),
            command: "PRIVMSG",
            args: vec![&"#channel"],
        },
        "chat chat chat",
    )
    .unwrap();

    assert_eq!(
        Command::Privmsg {
            nick: String::from("nickname"),
            channel: String::from("#channel"),
            message: String::from("chat chat chat")
        },
        got
    );
}

#[test]
fn irc_msg_parse_privmsg() {
    let raw = ":nick!username@host PRIVMSG #channel :chat chat chat";
    let now = Timestamp::from_micros(chrono::Local::now().timestamp_micros());
    let got = Msg::parse(raw, now).unwrap();

    assert_eq!(
        Msg {
            meta: MsgMeta {
                raw: String::from(raw),
                ts: now,
            },
            command: Command::Privmsg {
                nick: String::from("nick"),
                channel: String::from("#channel"),
                message: String::from("chat chat chat"),
            },
            source: Some(String::from("nick!username@host")),
        },
        got
    );
}

#[test]
fn irc_msg_parse_ping() {
    let raw = "PING foo.example.com";
    let now = Timestamp::from_micros(chrono::Local::now().timestamp_micros());
    let got = Msg::parse(raw, now).unwrap();

    assert_eq!(
        Msg {
            meta: MsgMeta {
                raw: String::from(raw),
                ts: now
            },
            command: Command::Ping {
                token: Some(String::from("foo.example.com"))
            },
            source: None,
        },
        got
    )
}

#[test]
fn compact_join_carries_nick() {
    let got = Msg::parse(":nick!u@h JOIN #chan", Timestamp::from_micros(7)).unwrap();
    assert_eq!(
        got.command,
        Command::Join { nick: "nick".into(), channel: "#chan".into() }
    );
}

#[test]
fn compact_form_refuses_other_verbs_and_missing_arguments() {
    let t = Timestamp::from_micros(7);
    assert_eq!(Msg::parse(":srv 001 me :hi", t), None);
    assert_eq!(Msg::parse("PRIVMSG", t), None);
    assert_eq!(Msg::parse("JOIN", t), None);
    assert_eq!(Msg::parse("PING", t), None);
    assert_eq!(Msg::parse("", t), None);
    assert_eq!(Msg::parse(":", t), None);
}

#[test]
fn compact_split_gives_empty_trailing() {
    assert_eq!(split_irc("a b"), Some(("a b", "")));
    assert_eq!(split_irc("a b :c :d"), Some(("a b", "c :d")));
}

#[test]
fn compact_tokens() {
    let parts = Msg::parse_command_tokens(":src CMD a b").unwrap();
    assert_eq!(parts.source, Some("src"));
    assert_eq!(parts.command, "CMD");
    assert_eq!(parts.args, vec!["a", "b"]);
    let bare = Msg::parse_command_tokens("CMD").unwrap();
    assert_eq!(bare.source, None);
    assert_eq!(bare.command, "CMD");
    assert!(bare.args.is_empty());
    assert!(Msg::parse_command_tokens("  ").is_none());
}
