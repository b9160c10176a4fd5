//! Points in time as text, by the `chrono` crate.
use vstd::prelude::*;

verus! {

/// The last second of the year 9999.
pub const LAST_SECOND: u64 = 253_402_300_799;

/// A point in time: the seconds since the beginning of 1970 in UTC, and the
/// nanoseconds of the second.
#[derive(Clone, Copy, Debug, PartialEq, Eq, Structural)]
pub struct Timestamp {
    seconds: u64,
    nanoseconds: u32,
}

impl Timestamp {
    pub closed spec fn spec_seconds(&self) -> u64 {
        self.seconds
    }

    pub closed spec fn spec_nanoseconds(&self) -> u32 {
        self.nanoseconds
    }

    #[verifier::type_invariant]
    spec fn is_valid(self) -> bool {
        self.seconds <= LAST_SECOND && self.nanoseconds < 1_000_000_000
    }

    /// A point in time up to the year 9999.
    pub fn new(seconds: u64, nanoseconds: u32) -> (time: Option<Timestamp>)
        ensures
            match time {
                Some(t) => seconds <= LAST_SECOND && nanoseconds < 1_000_000_000
                    && t.spec_seconds() == seconds && t.spec_nanoseconds() == nanoseconds,
                None => seconds > LAST_SECOND || nanoseconds >= 1_000_000_000,
            },
    {
        if seconds > LAST_SECOND || nanoseconds >= 1_000_000_000 {
            return None;
        }
        Some(Timestamp { seconds, nanoseconds })
    }

    /// The time as `20260828093000`.
    pub fn compact(&self) -> (text: String)
        ensures
            text@ == compact_text(self.spec_seconds(), self.spec_nanoseconds()),
    {
        proof {
            use_type_invariant(self);
        }
        format_compact(self.seconds, self.nanoseconds)
    }

    /// The time by RFC 3339.
    pub fn rfc3339(&self) -> (text: String)
        ensures
            text@ == rfc3339_text(self.spec_seconds(), self.spec_nanoseconds()),
    {
        proof {
            use_type_invariant(self);
        }
        format_rfc3339(self.seconds, self.nanoseconds)
    }
}

/// The text that `chrono` writes for a point in time with `%Y%m%d%H%M%S`.
pub uninterp spec fn compact_text(seconds: u64, nanoseconds: u32) -> Seq<char>;

/// The text that `chrono` writes for a point in time by RFC 3339.
pub uninterp spec fn rfc3339_text(seconds: u64, nanoseconds: u32) -> Seq<char>;

/// `chrono::DateTime::format` with `%Y%m%d%H%M%S`, of the time that
/// `DateTime::from_timestamp` gives; named by `compact_text`.
#[verifier::external_body]
fn format_compact(seconds: u64, nanoseconds: u32) -> (text: String)
    requires
        seconds <= LAST_SECOND,
        nanoseconds < 1_000_000_000,
    ensures
        text@ == compact_text(seconds, nanoseconds),
{
    let time = chrono::DateTime::<chrono::Utc>::from_timestamp(seconds as i64, nanoseconds);
    time.map(|t| t.format("%Y%m%d%H%M%S").to_string()).unwrap_or_default()
}

/// `chrono::DateTime::to_rfc3339` of the time that `DateTime::from_timestamp`
/// gives; named by `rfc3339_text`.
#[verifier::external_body]
fn format_rfc3339(seconds: u64, nanoseconds: u32) -> (text: String)
    requires
        seconds <= LAST_SECOND,
        nanoseconds < 1_000_000_000,
    ensures
        text@ == rfc3339_text(seconds, nanoseconds),
{
    let time = chrono::DateTime::<chrono::Utc>::from_timestamp(seconds as i64, nanoseconds);
    time.map(|t| t.to_rfc3339()).unwrap_or_default()
}

} // verus!
