//! Points in time, and the two ways in which the bot writes them down.
use vstd::prelude::*;

use crate::text::is_digit;

verus! {

/// The last second of the calendar that `chrono` covers, counted from the
/// start of 1970.
pub const LAST_SECOND: i64 = 8_210_266_876_799;

pub const NANOS_PER_SECOND: u32 = 1_000_000_000;

/// How a point in time is written into a file name.
pub const STAMP_FORMAT: &'static str = "%Y%m%d_%H%M%S";

/// A point in time: whole seconds since the start of 1970 in UTC, and the
/// nanoseconds past the last of them.
#[derive(Clone, Copy)]
pub struct UtcTime {
    pub secs: i64,
    pub nanos: u32,
}

/// What `chrono::DateTime::<Utc>::to_rfc3339` writes for a point in time.
pub uninterp spec fn rfc3339_text(secs: int, nanos: int) -> Seq<char>;

/// What `chrono::DateTime::<Utc>::format` writes for a point in time.
pub uninterp spec fn formatted_text(secs: int, nanos: int, format: Seq<char>) -> Seq<char>;

/// The characters of a stamp: digits, the underscore, and the plus sign.
pub open spec fn stamp_like(stamp: Seq<char>) -> bool {
    forall|i: int|
        0 <= i < stamp.len() ==> is_digit(#[trigger] stamp[i]) || stamp[i] == '_' || stamp[i] == '+'
}

/// `chrono::Utc::now`: the clock of the machine. It reads a time from 1970 on
/// that the calendar covers, with less than a second of nanoseconds. Which one
/// is up to the machine; a clock set before 1970 or past the calendar makes the
/// call panic.
#[verifier::external_body]
fn read_clock() -> (r: (i64, u32))
    ensures
        0 <= r.0 <= LAST_SECOND,
        r.1 < NANOS_PER_SECOND,
{
    let now = chrono::Utc::now();
    (now.timestamp(), now.timestamp_subsec_nanos())
}

/// `chrono::DateTime::<Utc>::to_rfc3339` of the point in time. The text depends
/// on that point alone; its shape is left unsaid.
#[verifier::external_body]
fn write_rfc3339(secs: i64, nanos: u32) -> (r: String)
    requires
        0 <= secs <= LAST_SECOND,
        nanos < NANOS_PER_SECOND,
    ensures
        r@ == rfc3339_text(secs as int, nanos as int),
{
    chrono::DateTime::from_timestamp(secs, nanos).unwrap().to_rfc3339()
}

/// `chrono::DateTime::<Utc>::format` of the point in time, with the format of
/// file names. The text depends on the arguments alone. It is made of digits
/// and the underscore, and of a plus sign before a year of five digits or more.
#[verifier::external_body]
fn write_formatted(secs: i64, nanos: u32, format: &str) -> (r: String)
    requires
        0 <= secs <= LAST_SECOND,
        nanos < NANOS_PER_SECOND,
        format@ == STAMP_FORMAT@,
    ensures
        r@ == formatted_text(secs as int, nanos as int, format@),
        stamp_like(r@),
{
    chrono::DateTime::from_timestamp(secs, nanos).unwrap().format(format).to_string()
}

impl UtcTime {
    /// The calendar covers this point, from 1970 on.
    pub open spec fn valid(self) -> bool {
        0 <= self.secs <= LAST_SECOND && self.nanos < NANOS_PER_SECOND
    }

    /// The point in time as RFC 3339 writes it.
    pub open spec fn spec_rfc3339(self) -> Seq<char> {
        rfc3339_text(self.secs as int, self.nanos as int)
    }

    /// The point in time as it stands in file names.
    pub open spec fn spec_stamp(self) -> Seq<char> {
        formatted_text(self.secs as int, self.nanos as int, STAMP_FORMAT@)
    }

    /// The present, by the clock of the machine.
    pub fn now() -> (t: UtcTime)
        ensures
            t.valid(),
    {
        let (secs, nanos) = read_clock();
        UtcTime { secs, nanos }
    }

    /// The point in time as RFC 3339 writes it.
    pub fn rfc3339(&self) -> (r: String)
        requires
            self.valid(),
        ensures
            r@ == self.spec_rfc3339(),
    {
        write_rfc3339(self.secs, self.nanos)
    }

    /// The point in time as it stands in file names.
    pub fn stamp(&self) -> (r: String)
        requires
            self.valid(),
        ensures
            r@ == self.spec_stamp(),
            stamp_like(r@),
    {
        write_formatted(self.secs, self.nanos, STAMP_FORMAT)
    }
}

/// A point in time is written down to its nanosecond for the records, and as a
/// date and a time of day for the names of files.
pub proof fn law_times_written(t: UtcTime)
    ensures
        t.spec_rfc3339() == rfc3339_text(t.secs as int, t.nanos as int),
        t.spec_stamp() == formatted_text(t.secs as int, t.nanos as int, "%Y%m%d_%H%M%S"@),
        t.valid() <==> 0 <= t.secs <= 8_210_266_876_799 && t.nanos < 1_000_000_000,
{
}

} // verus!
