//! The instant at which a record was published, to the second.

use vstd::prelude::*;
use crate::command::Error;
use crate::grow::{ISO8601_DATE_FORMAT, ISO8601_DATE_TIME_FORMAT};

verus! {

/// 1 January of the year -262143, 00:00:00 UTC: the first instant that
/// `chrono` can hold.
pub const MIN_SECONDS: i64 = -8_334_601_228_800;

/// 31 December of the year 262142, 23:59:59 UTC: the last instant that
/// `chrono` can hold.
pub const MAX_SECONDS: i64 = 8_210_266_876_799;

/// An instant in UTC, in whole seconds since 1 January 1970, 00:00:00.
#[derive(Debug, PartialEq, Eq, Clone, Copy)]
pub struct Timestamp {
    seconds: i64,
}

/// What `chrono` writes for the instant `seconds` under the format `format`.
pub uninterp spec fn formatted_time(seconds: int, format: Seq<char>) -> Seq<char>;

/// The instant that `chrono` reads from `s` under the format `format`, where
/// it reads one.
pub uninterp spec fn parsed_time(s: Seq<char>, format: Seq<char>) -> Option<int>;

/// `chrono::Utc::now`, to the second. The instant is one that `chrono` can
/// hold; nothing more is known of it. `chrono` panics where the system clock
/// stands before 1970.
#[verifier::external_body]
fn current_seconds() -> (seconds: i64)
    ensures
        MIN_SECONDS <= seconds <= MAX_SECONDS,
{
    chrono::Utc::now().timestamp()
}

/// `chrono::DateTime::format`, on the instant `seconds` in UTC. The text
/// depends on the instant and the format alone.
#[verifier::external_body]
fn format_seconds(seconds: i64, format: &str) -> (out: String)
    requires
        MIN_SECONDS <= seconds <= MAX_SECONDS,
        format@ == ISO8601_DATE_TIME_FORMAT@ || format@ == ISO8601_DATE_FORMAT@,
    ensures
        out@ == formatted_time(seconds as int, format@),
{
    chrono::DateTime::from_timestamp(seconds, 0).unwrap().format(format).to_string()
}

/// `chrono::NaiveDateTime::parse_from_str`, the date and time taken as UTC.
/// Whether `s` can be read, and as which instant, depends on `s` and the
/// format alone; an instant that was read is one that `chrono` can hold.
#[verifier::external_body]
fn parse_seconds(s: &str, format: &str) -> (r: Result<i64, chrono::format::ParseError>)
    ensures
        match r {
            Ok(seconds) => parsed_time(s@, format@) == Some(seconds as int) && MIN_SECONDS
                <= seconds <= MAX_SECONDS,
            Err(_) => parsed_time(s@, format@).is_none(),
        },
{
    match chrono::NaiveDateTime::parse_from_str(s, format) {
        Ok(date_time) => Ok(date_time.and_utc().timestamp()),
        Err(e) => Err(e),
    }
}

impl View for Timestamp {
    type V = int;

    closed spec fn view(&self) -> int {
        self.seconds as int
    }
}

impl Default for Timestamp {
    /// 1 January 1970, 00:00:00 UTC.
    fn default() -> (t: Timestamp)
        ensures
            t@ == 0,
    {
        Timestamp { seconds: 0 }
    }
}

impl Timestamp {
    #[verifier::type_invariant]
    spec fn in_range(self) -> bool {
        MIN_SECONDS <= self.seconds <= MAX_SECONDS
    }

    /// The instant `seconds`, where it is one that can be held.
    pub fn from_seconds(seconds: i64) -> (r: Option<Timestamp>)
        ensures
            match r {
                Some(t) => t@ == seconds && MIN_SECONDS <= seconds <= MAX_SECONDS,
                None => seconds < MIN_SECONDS || seconds > MAX_SECONDS,
            },
    {
        if MIN_SECONDS <= seconds && seconds <= MAX_SECONDS {
            Some(Timestamp { seconds })
        } else {
            None
        }
    }

    /// The instant in seconds since 1 January 1970, 00:00:00 UTC.
    pub fn seconds(&self) -> (seconds: i64)
        ensures
            seconds == self@,
    {
        self.seconds
    }

    /// The present instant.
    pub fn now() -> (t: Timestamp)
        ensures
            MIN_SECONDS <= t@ <= MAX_SECONDS,
    {
        Timestamp { seconds: current_seconds() }
    }

    /// Reads a date and time written as `YYYY-MM-DD HH:MM:SS`.
    pub fn parse(s: &str) -> (r: Result<Timestamp, Error>)
        ensures
            match r {
                Ok(t) => parsed_time(s@, ISO8601_DATE_TIME_FORMAT@) == Some(t@),
                Err(e) => parsed_time(s@, ISO8601_DATE_TIME_FORMAT@).is_none()
                    && e is DateTimeError,
            },
    {
        match parse_seconds(s, ISO8601_DATE_TIME_FORMAT) {
            Ok(seconds) => Ok(Timestamp { seconds }),
            Err(e) => Err(Error::DateTimeError(e)),
        }
    }

    /// The date and time as `YYYY-MM-DD HH:MM:SS`.
    pub fn date_time(&self) -> (out: String)
        ensures
            out@ == formatted_time(self@, ISO8601_DATE_TIME_FORMAT@),
    {
        proof {
            use_type_invariant(self);
        }
        format_seconds(self.seconds, ISO8601_DATE_TIME_FORMAT)
    }

    /// The date as `YYYY-MM-DD`.
    pub fn date(&self) -> (out: String)
        ensures
            out@ == formatted_time(self@, ISO8601_DATE_FORMAT@),
    {
        proof {
            use_type_invariant(self);
        }
        format_seconds(self.seconds, ISO8601_DATE_FORMAT)
    }
}

} // verus!
