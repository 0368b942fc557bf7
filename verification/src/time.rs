//! Instants and durations.

use std::time::Duration;
use vstd::prelude::*;

verus! {

/// The first second that an instant can lie in, counted from the start of 1970 in UTC.
pub const FIRST_SECOND: i64 = -8334601228800;

/// The last second that an instant can lie in.
pub const LAST_SECOND: i64 = 8210266876799;

/// Whether `secs` and `nanos` make up an instant: a second within range and the nanoseconds
/// since then, which pass one second only within a leap second.
pub open spec fn is_instant(secs: i64, nanos: u32) -> bool {
    &&& FIRST_SECOND <= secs <= LAST_SECOND
    &&& nanos < 1_000_000_000 || (nanos < 2_000_000_000 && secs as int % 60 == 59)
}

/// An instant in UTC: whole seconds since the start of 1970, and nanoseconds.
#[derive(Debug, Clone, Copy, PartialEq, Eq, Structural)]
pub struct Timestamp {
    pub(crate) secs: i64,
    pub(crate) nanos: u32,
}

/// The text of an instant: RFC 3339 with as many digits of the second as it needs, in UTC.
pub uninterp spec fn timestamp_text(secs: i64, nanos: u32) -> Seq<char>;

/// The instant that a text gives, or `None` where it gives none.
pub uninterp spec fn timestamp_of_text(text: Seq<char>) -> Option<(i64, u32)>;

/// The duration of so many milliseconds.
pub uninterp spec fn duration_of_millis(millis: u64) -> Duration;

/// `Duration::from_millis`: its result is determined by its argument.
pub assume_specification[ Duration::from_millis ](millis: u64) -> (duration: Duration)
    ensures
        duration == duration_of_millis(millis),
;

/// `chrono::Utc::now`: some instant, and never one within a leap second. Which one depends on
/// the clock of the machine, so nothing more is stated. A clock set before 1970 or past the
/// last instant makes it panic.
#[verifier::external_body]
fn utc_now() -> (now: (i64, u32))
    ensures
        is_instant(now.0, now.1),
        now.1 < 1_000_000_000,
{
    let now = chrono::Utc::now();
    (now.timestamp(), now.timestamp_subsec_nanos())
}

/// `chrono::DateTime::to_rfc3339_opts` with digits of the second as needed and `Z` for UTC,
/// which is how `chrono` writes an instant for `serde`. The text is determined by the
/// instant, and `chrono` reads the same instant from it.
#[verifier::external_body]
fn write_instant(secs: i64, nanos: u32) -> (text: String)
    requires
        is_instant(secs, nanos),
    ensures
        text@ == timestamp_text(secs, nanos),
        timestamp_of_text(text@) == Some((secs, nanos)),
{
    let at = chrono::DateTime::from_timestamp(secs, nanos).unwrap();
    at.to_rfc3339_opts(chrono::SecondsFormat::AutoSi, true)
}

/// `str::parse` as a `chrono::DateTime<Utc>`, which is how `chrono` reads an instant for
/// `serde`: whether a text gives an instant, and which, is determined by the text.
#[verifier::external_body]
fn read_instant(text: &str) -> (instant: Option<(i64, u32)>)
    ensures
        instant == timestamp_of_text(text@),
        match instant {
            Some((secs, nanos)) => is_instant(secs, nanos),
            None => true,
        },
{
    let at = text.parse::<chrono::DateTime<chrono::Utc>>().ok()?;
    Some((at.timestamp(), at.timestamp_subsec_nanos()))
}

impl Timestamp {
    #[verifier::type_invariant]
    pub(crate) open spec fn in_range(self) -> bool {
        is_instant(self.secs, self.nanos)
    }

    /// The whole seconds since the start of 1970.
    pub closed spec fn seconds(self) -> i64 {
        self.secs
    }

    /// The nanoseconds since the last whole second.
    pub closed spec fn nanoseconds(self) -> u32 {
        self.nanos
    }

    /// Whether the clock showed the instant when it was read.
    pub closed spec fn is_shown(self) -> bool {
        call_ensures(utc_now, (), (self.secs, self.nanos))
    }

    /// Whether the instant was read from the clock. Such an instant does not lie within a leap
    /// second.
    pub open spec fn is_reading(self) -> bool {
        &&& self.is_shown()
        &&& is_instant(self.seconds(), self.nanoseconds())
        &&& self.nanoseconds() < 1_000_000_000
    }

    /// The instant `nanos` nanoseconds past the second `secs`, where there is one.
    pub fn new(secs: i64, nanos: u32) -> (timestamp: Option<Timestamp>)
        ensures
            match timestamp {
                Some(at) => is_instant(secs, nanos) && at.seconds() == secs && at.nanoseconds()
                    == nanos,
                None => !is_instant(secs, nanos),
            },
    {
        if secs < FIRST_SECOND || secs > LAST_SECOND {
            return None;
        }
        let within_minute: i64 = (secs - FIRST_SECOND) % 60;
        if nanos < 1_000_000_000 || (nanos < 2_000_000_000 && within_minute == 59) {
            Some(Timestamp { secs, nanos })
        } else {
            None
        }
    }

    /// The instant of the call, by the clock of the machine, which knows no leap seconds.
    pub fn now() -> (at: Timestamp)
        ensures
            at.is_reading(),
    {
        let (secs, nanos) = utc_now();
        assert(call_ensures(utc_now, (), (secs, nanos)));
        Timestamp { secs, nanos }
    }

    /// Its text in the state file.
    pub fn to_text(&self) -> (text: String)
        ensures
            text@ == self.text(),
            Timestamp::of_text(text@) == Some(*self),
    {
        proof {
            use_type_invariant(self);
        }
        write_instant(self.secs, self.nanos)
    }

    /// The instant that `text` gives.
    pub fn from_text(text: &str) -> (at: Option<Timestamp>)
        ensures
            at == Timestamp::of_text(text@),
            match at {
                Some(at) => timestamp_of_text(text@) == Some((at.seconds(), at.nanoseconds())),
                None => timestamp_of_text(text@) is None,
            },
    {
        match read_instant(text) {
            Some((secs, nanos)) => Some(Timestamp { secs, nanos }),
            None => None,
        }
    }

    /// Its text in the state file.
    pub open spec fn text(self) -> Seq<char> {
        timestamp_text(self.seconds(), self.nanoseconds())
    }

    /// The instant that `text` gives.
    pub closed spec fn of_text(text: Seq<char>) -> Option<Timestamp> {
        match timestamp_of_text(text) {
            Some((secs, nanos)) => Some(Timestamp { secs, nanos }),
            None => None,
        }
    }
}

/// The instant that a text gives has the second and the nanoseconds that the text gives.
pub proof fn lemma_of_text(text: Seq<char>)
    ensures
        match Timestamp::of_text(text) {
            Some(at) => timestamp_of_text(text) == Some((at.seconds(), at.nanoseconds())),
            None => timestamp_of_text(text) is None,
        },
{
}

} // verus!
