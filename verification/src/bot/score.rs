//! Keeping score: `nick++` and `nick--` in a channel the bot has joined.

use vstd::prelude::*;
use vstd::string::StringExecFns;
use std::ops::ControlFlow;
use crate::irc_core::client::privmsg_text;
use crate::irc_core::handler::{contains_text, Context, ContextView, PrivmsgHandler, StateView};
use crate::irc_core::nick_map::NickMap;
use crate::text::{chars_of, decimal, decimal_string, find, find_in, split_words, texts, words, Spacing};

verus! {

/// Answers `nick++` and `nick--` with the new score.
pub struct ScoreHandler;

/// What one word asks for: the text before its first `++` with +1, or
/// else the text before its first `--` with -1, where that text is not
/// empty.
pub open spec fn delta_of(token: Seq<char>) -> Option<(Seq<char>, int)> {
    let up = find(token, "++"@);
    let down = find(token, "--"@);
    if up is Some && up->0 > 0 {
        Some((token.subrange(0, up->0), 1int))
    } else if down is Some && down->0 > 0 {
        Some((token.subrange(0, down->0), -1int))
    } else {
        None
    }
}

/// What the first of `tokens` that asks for anything asks for.
pub open spec fn first_delta(tokens: Seq<Seq<char>>) -> Option<(Seq<char>, int)>
    decreases tokens.len(),
{
    if tokens.len() == 0 {
        None
    } else if delta_of(tokens[0]) is Some {
        delta_of(tokens[0])
    } else {
        first_delta(tokens.drop_first())
    }
}

/// The score change that a message asks for: that of its first word that
/// asks for one.
pub open spec fn score_delta(message: Seq<char>) -> Option<(Seq<char>, int)> {
    first_delta(words(message, Spacing::Ascii))
}

/// The score of `nick`; a nick without an entry stands at 0.
pub open spec fn score_of(scores: Map<Seq<char>, i32>, nick: Seq<char>) -> int {
    if scores.contains_key(nick) {
        scores[nick] as int
    } else {
        0
    }
}

/// Whether the score of `nick`, changed by `d`, is still an `i32`.
pub open spec fn fits(scores: Map<Seq<char>, i32>, nick: Seq<char>, d: int) -> bool {
    i32::MIN <= score_of(scores, nick) + d <= i32::MAX
}

/// The scores after that of `nick` was changed by `d`.
pub open spec fn bumped(scores: Map<Seq<char>, i32>, nick: Seq<char>, d: int) -> Map<
    Seq<char>,
    i32,
> {
    scores.insert(nick, (score_of(scores, nick) + d) as i32)
}

/// The announcement of a new score.
pub open spec fn score_text(nick: Seq<char>, score: int) -> Seq<char> {
    nick + "'s score is now "@ + decimal(score)
}

/// Score updates add up: after two updates of one nick, a later read
/// gives the score before them plus both changes, and every other nick
/// stands where it stood.
pub proof fn lemma_updates_add_up(
    scores: Map<Seq<char>, i32>,
    nick: Seq<char>,
    first: int,
    second: int,
    other: Seq<char>,
)
    requires
        fits(scores, nick, first),
        fits(bumped(scores, nick, first), nick, second),
    ensures
        score_of(bumped(bumped(scores, nick, first), nick, second), nick) == score_of(scores, nick)
            + first + second,
        other != nick ==> score_of(bumped(bumped(scores, nick, first), nick, second), other)
            == score_of(scores, other),
{
}

/// What one word asks for; see [`delta_of`].
fn token_delta<'a>(token: &'a str) -> (r: Option<(&'a str, i32)>)
    ensures
        match r {
            Some((nick, d)) => delta_of(token@) == Some((nick@, d as int)),
            None => delta_of(token@) is None,
        },
{
    let cs = chars_of(token);
    let up = chars_of("++");
    let down = chars_of("--");
    if let Some(k) = find_in(&cs, &up, 0) {
        if k > 0 {
            proof {
                crate::text::lemma_find_from(token@, "++"@, 0);
            }
            return Some((token.substring_char(0, k), 1));
        }
    }
    if let Some(k) = find_in(&cs, &down, 0) {
        if k > 0 {
            proof {
                crate::text::lemma_find_from(token@, "--"@, 0);
            }
            return Some((token.substring_char(0, k), -1));
        }
    }
    None
}

/// Reads the score change that a message asks for: the nick and +1 or
/// -1, from the first word that names a nick before `++` or `--`.
pub fn parse_score_delta<'a>(message: &'a str) -> (r: Option<(&'a str, i32)>)
    ensures
        match r {
            Some((nick, d)) => score_delta(message@) == Some((nick@, d as int)),
            None => score_delta(message@) is None,
        },
{
    let tokens = split_words(message, Spacing::Ascii);
    let ghost all = texts(tokens@);
    let mut i: usize = 0;
    assert(all.skip(0) =~= all);
    while i < tokens.len()
        invariant
            i <= tokens.len(),
            all == texts(tokens@),
            all == words(message@, Spacing::Ascii),
            first_delta(all) == first_delta(all.skip(i as int)),
        decreases tokens.len() - i,
    {
        assert(all.skip(i as int)[0] == tokens@[i as int]@);
        assert(all.skip(i as int).drop_first() =~= all.skip(i + 1));
        let d = token_delta(tokens[i]);
        if d.is_some() {
            return d;
        }
        i = i + 1;
    }
    assert(all.skip(i as int) =~= Seq::empty());
    None
}

impl ScoreHandler {
    /// Changes the score of `nick` by `d` and returns the new score. A
    /// nick without a score starts from 0.
    pub fn add_to_score(scores: &mut NickMap<i32>, nick: &str, d: i32) -> (new_score: i32)
        requires
            old(scores).wf(),
            fits(old(scores)@, nick@, d as int),
        ensures
            final(scores).wf(),
            final(scores)@ == bumped(old(scores)@, nick@, d as int),
            new_score == score_of(old(scores)@, nick@) + d,
    {
        let new_score: i32 = match scores.get(nick) {
            Some(s) => *s + d,
            None => d,
        };
        scores.insert(nick.to_owned(), new_score);
        new_score
    }

    /// As [`ScoreHandler::add_to_score`], for every `d`: where the new
    /// score would not be an `i32`, nothing is changed and `None` comes
    /// back.
    pub fn try_add_to_score(scores: &mut NickMap<i32>, nick: &str, d: i32) -> (r: Option<i32>)
        requires
            old(scores).wf(),
        ensures
            final(scores).wf(),
            r is Some == fits(old(scores)@, nick@, d as int),
            match r {
                Some(new_score) => final(scores)@ == bumped(old(scores)@, nick@, d as int)
                    && new_score == score_of(old(scores)@, nick@) + d,
                None => final(scores)@ == old(scores)@,
            },
    {
        let current: i32 = match scores.get(nick) {
            Some(s) => *s,
            None => 0,
        };
        match current.checked_add(d) {
            Some(_) => Some(Self::add_to_score(scores, nick, d)),
            None => None,
        }
    }
}

/// Builds the announcement of a new score.
pub fn score_line(nick: &str, score: i32) -> (r: String)
    ensures
        r@ == score_text(nick@, score as int),
{
    let mut r = nick.to_owned();
    r.append("'s score is now ");
    let digits = decimal_string(score);
    r.append(digits.as_str());
    r
}

impl PrivmsgHandler for ScoreHandler {
    /// Outside the joined channels, and on a message that asks for no
    /// score change, nothing happens. Otherwise the score is changed, the
    /// new score is announced in the channel, and the chain stops. A
    /// change that would leave the range of `i32` is passed over. Who
    /// spoke makes no difference.
    open spec fn handles_privmsg(
        &self,
        before: ContextView,
        speaker: Seq<char>,
        channel: Seq<char>,
        message: Seq<char>,
        after: ContextView,
        stop: bool,
    ) -> bool {
        match score_delta(message) {
            Some((nick, d)) => if before.state.channels.contains(channel) && fits(
                before.state.scores,
                nick,
                d,
            ) {
                &&& stop
                &&& after.state == (StateView {
                    scores: bumped(before.state.scores, nick, d),
                    ..before.state
                })
                &&& after.client == before.client.offer(
                    privmsg_text(
                        channel,
                        score_text(nick, score_of(before.state.scores, nick) + d),
                    ),
                )
            } else {
                after == before && !stop
            },
            None => after == before && !stop,
        }
    }

    fn handle_privmsg(&self, ctx: &mut Context, _speaker: &str, channel: &str, message: &str) -> (flow:
        ControlFlow<()>) {
        if !contains_text(&ctx.state.channels, channel) {
            return ControlFlow::Continue(());
        }
        if let Some((nick, d)) = parse_score_delta(message) {
            if let Some(new_score) = Self::try_add_to_score(&mut ctx.state.scores, nick, d) {
                let response = score_line(nick, new_score);
                let _ = ctx.client.privmsg(channel, response.as_str());
                return ControlFlow::Break(());
            }
        }
        ControlFlow::Continue(())
    }
}

} // verus!
