use botty::bot::score::{parse_score_delta, score_line, ScoreHandler};
use botty::irc_core::nick_map::NickMap;

#[test]
fn test_parse_score_delta() {
    let delta = parse_score_delta("message++");
    assert_eq!(delta, Some(("message", 1)));
    let delta = parse_score_delta("message--");
    assert_eq!(delta, Some(("message", -1)));
}

#[test]
fn test_parse_score_delta_invalid() {
    let delta = parse_score_delta("message+-");
    assert_eq!(delta, None);
    let delta = parse_score_delta("++");
    assert_eq!(delta, None);
    let delta = parse_score_delta("--message");
    assert_eq!(delta, None);
}

#[test]
fn test_add_to_score() {
    let mut scores: NickMap<i32> = NickMap::new();
    scores.insert("botty".into(), 1);
    scores.insert("thumbkin".into(), -1);

    ScoreHandler::add_to_score(&mut scores, "botty", 1);
    let new_score = scores.get("botty").copied();
    assert_eq!(Some(2), new_score);

    ScoreHandler::add_to_score(&mut scores, "thumbkin", -1);
    let new_score = scores.get("thumbkin").copied();
    assert_eq!(Some(-2), new_score);

    ScoreHandler::add_to_score(&mut scores, "beelzebub", 1);
    let new_score = scores.get("beelzebub").copied();
    assert_eq!(Some(1), new_score);
}

#[test]
fn score_delta_takes_first_asking_word() {
    assert_eq!(parse_score_delta("well  done alice++ and bob--"), Some(("alice", 1)));
    assert_eq!(parse_score_delta("++ bob-- alice++"), Some(("bob", -1)));
    assert_eq!(parse_score_delta("a++b++"), Some(("a", 1)));
    assert_eq!(parse_score_delta("++a--"), Some(("++a", -1)));
    assert_eq!(parse_score_delta("a--b++"), Some(("a--b", 1)));
    assert_eq!(parse_score_delta(""), None);
    assert_eq!(parse_score_delta("nothing here"), None);
}

#[test]
fn two_updates_add_up() {
    let mut scores: NickMap<i32> = NickMap::new();
    assert_eq!(ScoreHandler::add_to_score(&mut scores, "x", 1), 1);
    assert_eq!(ScoreHandler::add_to_score(&mut scores, "y", -1), -1);
    assert_eq!(ScoreHandler::add_to_score(&mut scores, "x", 1), 2);
    assert_eq!(scores.get("x").copied(), Some(2));
    assert_eq!(scores.get("y").copied(), Some(-1));
    assert_eq!(scores.len(), 2);
}

#[test]
fn score_at_the_limit_is_left_alone() {
    let mut scores: NickMap<i32> = NickMap::new();
    scores.insert("top".into(), i32::MAX);
    scores.insert("bottom".into(), i32::MIN);
    assert_eq!(ScoreHandler::try_add_to_score(&mut scores, "top", 1), None);
    assert_eq!(scores.get("top").copied(), Some(i32::MAX));
    assert_eq!(ScoreHandler::try_add_to_score(&mut scores, "bottom", -1), None);
    assert_eq!(scores.get("bottom").copied(), Some(i32::MIN));
    assert_eq!(ScoreHandler::try_add_to_score(&mut scores, "top", -1), Some(i32::MAX - 1));
    assert_eq!(ScoreHandler::try_add_to_score(&mut scores, "new", -1), Some(-1));
}

#[test]
fn score_line_text() {
    assert_eq!(score_line("alice", 2), "alice's score is now 2");
    assert_eq!(score_line("bob", -17), "bob's score is now -17");
    assert_eq!(score_line("n", 0), "n's score is now 0");
    assert_eq!(score_line("n", i32::MIN), "n's score is now -2147483648");
    assert_eq!(score_line("n", i32::MAX), "n's score is now 2147483647");
}
