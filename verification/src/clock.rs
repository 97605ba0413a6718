//! Instants and the system clock.

use vstd::prelude::*;

verus! {

/// An instant, as microseconds since the Unix epoch (negative before it).
#[derive(Clone, Copy, Debug, PartialEq, Eq, Structural)]
pub struct Timestamp {
    pub micros: i64,
}

/// The signed distance from `now` to `then` in microseconds, negative when
/// `then` lies in the past, held to the range of `i64`.
pub open spec fn micros_between(then: Timestamp, now: Timestamp) -> int {
    let d = then.micros - now.micros;
    if d > i64::MAX {
        i64::MAX as int
    } else if d < i64::MIN {
        i64::MIN as int
    } else {
        d
    }
}

impl Timestamp {
    /// The instant `micros` microseconds after the Unix epoch.
    pub fn from_micros(micros: i64) -> (t: Timestamp)
        ensures
            t.micros == micros,
    {
        Timestamp { micros }
    }

    /// The distance from `now` to `self`; see [`micros_between`].
    pub fn micros_since(&self, now: Timestamp) -> (d: i64)
        ensures
            d == micros_between(*self, now),
    {
        match self.micros.checked_sub(now.micros) {
            Some(d) => d,
            None => if self.micros < now.micros {
                i64::MIN
            } else {
                i64::MAX
            },
        }
    }
}

/// Reads the system clock through `chrono::Local::now` and
/// `DateTime::timestamp_micros`. Nothing is claimed of the instant that
/// comes back: two calls may differ. (chrono itself gives up where the
/// system clock stands before 1970.)
#[verifier::external_body]
pub(crate) fn now() -> Timestamp {
    Timestamp { micros: chrono::Local::now().timestamp_micros() }
}

/// The English phrase that `chrono_humanize::HumanTime` prints for a span of
/// `delta` microseconds ("3 hours ago", "in a minute", "now").
pub uninterp spec fn human_text(delta: int) -> Seq<char>;

/// Formats a span through `chrono::Duration::microseconds`,
/// `HumanTime::from` and its `Display` impl. The phrase depends on the span
/// alone; it is given the name [`human_text`] and not restated.
#[verifier::external_body]
pub(crate) fn humanize(delta: i64) -> (r: String)
    ensures
        r@ == human_text(delta as int),
{
    chrono_humanize::HumanTime::from(chrono::Duration::microseconds(delta)).to_string()
}

} // verus!
