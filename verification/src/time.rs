//! Instants and their HTTP date text.

use vstd::prelude::*;
use crate::text::{is_header_text, header_is_text};

verus! {

/// An instant: whole seconds since 1970-01-01T00:00:00Z, and the nanoseconds
/// past that second. During a leap second the nanoseconds run from
/// 1,000,000,000 up to 1,999,999,999.
#[derive(Debug, Clone, Copy, PartialEq, Eq, Structural)]
pub struct Timestamp {
    pub secs: i64,
    pub nanos: u32,
}

/// The first second of the year 0, the earliest that an HTTP date can name.
pub const FIRST_WRITABLE_SECOND: i64 = -62_167_219_200;

/// The last second of the year 9999, the latest that an HTTP date can name.
pub const LAST_WRITABLE_SECOND: i64 = 253_402_300_799;

/// The seconds of a day.
pub const SECONDS_PER_DAY: i64 = 86_400;

impl Timestamp {
    /// The instant as a count of nanoseconds since the epoch.
    pub open spec fn nanos_since_epoch(self) -> int {
        self.secs * 1_000_000_000 + self.nanos
    }

    /// Whether the instant can be written as an HTTP date: it lies in the
    /// years 0 to 9999, and its nanoseconds reach a full second only within a
    /// minute's last second.
    pub open spec fn is_writable(self) -> bool {
        &&& FIRST_WRITABLE_SECOND <= self.secs <= LAST_WRITABLE_SECOND
        &&& (self.nanos < 1_000_000_000 || (self.nanos < 2_000_000_000 && self.secs % 60 == 59))
    }

    /// Whether the instant lies before `other`.
    pub open spec fn is_before(self, other: Timestamp) -> bool {
        self.secs < other.secs || (self.secs == other.secs && self.nanos < other.nanos)
    }

    /// Whether the instant can be written as an HTTP date.
    pub fn writable(&self) -> (yes: bool)
        ensures
            yes == self.is_writable(),
    {
        if self.secs < FIRST_WRITABLE_SECOND || self.secs > LAST_WRITABLE_SECOND {
            return false;
        }
        if self.nanos < 1_000_000_000 {
            return true;
        }
        let in_last_second: bool = if self.secs >= 0 {
            self.secs % 60 == 59
        } else {
            (-(self.secs + 1)) % 60 == 0
        };
        self.nanos < 2_000_000_000 && in_last_second
    }

    /// The instant without its fraction of a second.
    pub fn truncated(&self) -> (whole: Timestamp)
        ensures
            whole == (Timestamp { secs: self.secs, nanos: 0 }),
    {
        Timestamp { secs: self.secs, nanos: 0 }
    }
}

/// The instant that a text names when read as an RFC 2822 date, as seconds
/// and nanoseconds since the epoch; `None` where the text is no such date.
pub uninterp spec fn rfc2822_instant(text: Seq<u8>) -> Option<(i64, u32)>;

/// The RFC 2822 text of the instant `secs` seconds and `nanos` nanoseconds
/// after the epoch, in UTC.
pub uninterp spec fn rfc2822_text(secs: i64, nanos: u32) -> Seq<u8>;

/// `chrono::DateTime::parse_from_rfc2822`, then `with_timezone(&Utc)`,
/// `timestamp` and `timestamp_subsec_nanos`: the parsed instant is a function
/// of the text alone, and a text that does not parse gives `None`.
#[verifier::external_body]
fn parse_rfc2822(text: &[u8]) -> (instant: Option<(i64, u32)>)
    requires
        is_header_text(text@),
    ensures
        instant == rfc2822_instant(text@),
{
    let text = std::str::from_utf8(text).ok()?;
    match chrono::DateTime::parse_from_rfc2822(text) {
        Ok(date) => {
            let date = date.with_timezone(&chrono::Utc);
            Some((date.timestamp(), date.timestamp_subsec_nanos()))
        },
        Err(_) => None,
    }
}

/// `chrono::DateTime::to_rfc2822` on the instant that
/// `chrono::DateTime::from_timestamp` makes of the two numbers: the text is a
/// function of the instant alone. The instant must be one that the format can
/// write.
#[verifier::external_body]
fn format_rfc2822(secs: i64, nanos: u32) -> (text: Vec<u8>)
    requires
        (Timestamp { secs, nanos }).is_writable(),
    ensures
        text@ == rfc2822_text(secs, nanos),
{
    chrono::DateTime::from_timestamp(secs, nanos).unwrap().to_rfc2822().into_bytes()
}

/// `chrono::Utc::now`, as seconds and nanoseconds since the epoch. The clock
/// decides the value: it is not before the epoch, and the nanoseconds stay
/// below a full second.
#[verifier::external_body]
fn clock() -> (instant: (i64, u32))
    ensures
        instant.0 >= 0,
        instant.1 < 1_000_000_000,
{
    let now = chrono::Utc::now();
    (now.timestamp(), now.timestamp_subsec_nanos())
}

/// The date that a header value names: the value must be text and an RFC
/// 2822 date.
pub open spec fn http_date(value: Seq<u8>) -> Option<Timestamp> {
    if is_header_text(value) {
        match rfc2822_instant(value) {
            Some((secs, nanos)) => Some(Timestamp { secs, nanos }),
            None => None,
        }
    } else {
        None
    }
}

/// The HTTP date text of a writable instant.
pub open spec fn http_date_text(instant: Timestamp) -> Seq<u8> {
    rfc2822_text(instant.secs, instant.nanos)
}

/// Reads a header value as a date. `None` where the value is not text or not
/// a date.
pub fn header_to_date(value: &[u8]) -> (date: Option<Timestamp>)
    ensures
        date == http_date(value@),
{
    if !header_is_text(value) {
        return None;
    }
    match parse_rfc2822(value) {
        Some((secs, nanos)) => Some(Timestamp { secs, nanos }),
        None => None,
    }
}

/// Writes an instant as an HTTP date.
pub fn system_time_to_http_date(instant: &Timestamp) -> (text: Vec<u8>)
    requires
        instant.is_writable(),
    ensures
        text@ == http_date_text(*instant),
{
    format_rfc2822(instant.secs, instant.nanos)
}

/// Whether a file was changed after the copy that the cache holds of it.
pub fn modified_since_cache(cache_last_modified: Timestamp, file_last_modified: Timestamp) -> (modified: bool)
    ensures
        modified == cache_last_modified.is_before(file_last_modified),
{
    cache_last_modified.secs < file_last_modified.secs || (cache_last_modified.secs
        == file_last_modified.secs && cache_last_modified.nanos < file_last_modified.nanos)
}

/// The current instant, as the system clock has it.
pub fn current_time() -> (now: Timestamp)
    ensures
        now.secs >= 0,
        now.nanos < 1_000_000_000,
{
    let (secs, nanos) = clock();
    Timestamp { secs, nanos }
}

} // verus!
