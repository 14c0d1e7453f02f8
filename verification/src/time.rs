//! Instants on the UTC time line, and their RFC 3339 text.

use vstd::prelude::*;
use crate::text::{is_plain, optional_text};

verus! {

/// An instant: whole seconds since 1970-01-01T00:00:00Z, not counting leap
/// seconds, and the nanoseconds past that second.
#[derive(Clone, Copy, Debug, PartialEq, Eq, Structural)]
pub struct Timestamp {
    pub secs: i64,
    pub nanos: u32,
}

/// The seconds of a day without a leap second.
pub const SECONDS_PER_DAY: i64 = 86_400;

impl Timestamp {
    /// Whether `self` is strictly earlier than `other`.
    pub open spec fn before(self, other: Timestamp) -> bool {
        self.secs < other.secs || (self.secs == other.secs && self.nanos < other.nanos)
    }

    /// Whether `self` is `other` or earlier.
    pub open spec fn not_after(self, other: Timestamp) -> bool {
        !other.before(self)
    }

    /// Whether `self` is strictly earlier than `other`.
    pub fn is_before(&self, other: &Timestamp) -> (r: bool)
        ensures
            r == self.before(*other),
    {
        self.secs < other.secs || (self.secs == other.secs && self.nanos < other.nanos)
    }

    /// Whether `self` is `other` or earlier.
    pub fn is_not_after(&self, other: &Timestamp) -> (r: bool)
        ensures
            r == self.not_after(*other),
    {
        !other.is_before(self)
    }

    /// The instant `days` days before `self`, held within the range of the
    /// seconds counter.
    pub open spec fn days_earlier(self, days: int) -> Timestamp {
        let secs = self.secs - days * SECONDS_PER_DAY;
        Timestamp {
            secs: if secs < i64::MIN {
                i64::MIN
            } else if secs > i64::MAX {
                i64::MAX
            } else {
                secs as i64
            },
            nanos: self.nanos,
        }
    }

    /// The instant `days` days before `self`; a negative count gives a later
    /// instant.
    pub fn minus_days(&self, days: i32) -> (r: Timestamp)
        ensures
            r == self.days_earlier(days as int),
    {
        let span: i64 = days as i64 * SECONDS_PER_DAY;
        let wide: i128 = self.secs as i128 - span as i128;
        let secs: i64 = if wide < i64::MIN as i128 {
            i64::MIN
        } else if wide > i64::MAX as i128 {
            i64::MAX
        } else {
            wide as i64
        };
        Timestamp { secs, nanos: self.nanos }
    }
}

/// `chrono`'s parse error.
#[verifier::external_type_specification]
#[verifier::external_body]
pub struct ExChronoParseError(chrono::ParseError);

/// The RFC 3339 text of the instant `(secs, nanos)` as `chrono` writes it in
/// UTC, for the instants that `chrono` can hold.
pub uninterp spec fn rfc3339_text(secs: i64, nanos: u32) -> Option<Seq<char>>;

/// The instant that `chrono` reads from an RFC 3339 text.
pub uninterp spec fn rfc3339_instant(text: Seq<char>) -> Option<(i64, u32)>;

/// The instant of a reading, `None` for a failed one.
pub open spec fn reading_instant(r: Result<Timestamp, chrono::ParseError>) -> Option<(i64, u32)> {
    match r {
        Ok(t) => Some((t.secs, t.nanos)),
        Err(_) => None,
    }
}

/// `chrono::DateTime::from_timestamp` followed by `DateTime::to_rfc3339`:
/// the text of `t`, `None` where `from_timestamp` refuses the instant. The
/// text is a function of the instant alone, and it is plain: `chrono` makes
/// it of digits, signs, colons, a `T` and at most one point, so it holds no
/// comma, no double quote and no line feed.
#[verifier::external_body]
pub(crate) fn format_rfc3339(t: Timestamp) -> (r: Option<String>)
    ensures
        optional_text(r) == rfc3339_text(t.secs, t.nanos),
        r matches Some(text) ==> is_plain(text@),
{
    match chrono::DateTime::from_timestamp(t.secs, t.nanos) {
        Some(instant) => Some(instant.to_rfc3339()),
        None => None,
    }
}

/// The text of `t` as a field of a comma-separated line: its RFC 3339 text,
/// which is plain; `None` for an instant that has no such text.
pub open spec fn time_field(t: Timestamp) -> Option<Seq<char>> {
    match rfc3339_text(t.secs, t.nanos) {
        Some(text) => if is_plain(text) {
            Some(text)
        } else {
            None
        },
        None => None,
    }
}

/// The text of `t` as a field of a comma-separated line.
pub fn write_time(t: Timestamp) -> (r: Option<String>)
    ensures
        optional_text(r) == time_field(t),
{
    format_rfc3339(t)
}

/// `chrono::DateTime::parse_from_rfc3339`: the instant that `text` writes,
/// given by `DateTime::timestamp` and `DateTime::timestamp_subsec_nanos`, or
/// `chrono`'s error. The outcome is a function of the text alone.
#[verifier::external_body]
pub(crate) fn parse_rfc3339(text: &str) -> (r: Result<Timestamp, chrono::ParseError>)
    ensures
        reading_instant(r) == rfc3339_instant(text@),
{
    match chrono::DateTime::parse_from_rfc3339(text) {
        Ok(instant) => Ok(
            Timestamp { secs: instant.timestamp(), nanos: instant.timestamp_subsec_nanos() },
        ),
        Err(error) => Err(error),
    }
}

/// `chrono::Utc::now`: the instant at which the call is made. Nothing is
/// claimed of it. `chrono` does not return where the system clock stands
/// before 1970.
#[verifier::external_body]
pub(crate) fn current_time() -> (t: Timestamp) {
    let instant = chrono::Utc::now();
    Timestamp { secs: instant.timestamp(), nanos: instant.timestamp_subsec_nanos() }
}

} // verus!
