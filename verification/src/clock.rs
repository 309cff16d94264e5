//! Wall-clock instants.

use vstd::prelude::*;

use crate::text;

verus! {

/// The first second that a calendar date can express.
pub const MIN_SECONDS: i64 = -8_334_601_228_800;

/// The last second that a calendar date can express.
pub const MAX_SECONDS: i64 = 8_210_266_876_799;

/// An instant in UTC: seconds since 1970 and the nanoseconds within that
/// second. A leap second is written as a 59th second of more than 10^9
/// nanoseconds.
#[derive(Clone, Copy, Debug, PartialEq, Eq, Structural)]
pub struct Timestamp {
    /// Seconds since 1970-01-01 00:00:00 UTC, without leap seconds.
    pub secs: i64,
    /// Nanoseconds after that second.
    pub nanos: u32,
}

impl Timestamp {
    /// Whether the instant has a calendar date and a time of day.
    pub open spec fn valid(self) -> bool {
        &&& MIN_SECONDS <= self.secs <= MAX_SECONDS
        &&& self.nanos < 1_000_000_000 || (self.nanos < 2_000_000_000 && self.secs as int % 60
            == 59)
    }

    /// Whether the instant has a calendar date and a time of day.
    pub fn is_valid(&self) -> (valid: bool)
        ensures
            valid == self.valid(),
    {
        let since: u64 = if self.secs < MIN_SECONDS {
            return false;
        } else if self.secs > MAX_SECONDS {
            return false;
        } else {
            (self.secs - MIN_SECONDS) as u64
        };
        assert(MIN_SECONDS as int % 60 == 0);
        assert(since as int % 60 == self.secs as int % 60);
        self.nanos < 1_000_000_000 || (self.nanos < 2_000_000_000 && since % 60 == 59)
    }
}

/// The time of day of an instant, as `HH:MM:SS`; the second is 60 within a
/// leap second.
pub open spec fn time_of_day(t: Timestamp) -> Seq<char> {
    let s = t.secs as int % 86_400;
    text::two_digits(s / 3_600) + ":"@ + text::two_digits(s / 60 % 60) + ":"@ + text::two_digits(
        s % 60 + t.nanos as int / 1_000_000_000,
    )
}

/// Wraps `chrono::Utc::now`. What the clock shows is unknown; the instant has
/// a calendar date.
#[verifier::external_body]
pub(crate) fn utc_now() -> (now: Timestamp)
    ensures
        now.valid(),
{
    let now = chrono::Utc::now();
    Timestamp { secs: now.timestamp(), nanos: now.timestamp_subsec_nanos() }
}

/// Wraps `chrono::DateTime::from_timestamp` and `DateTime::format` with the
/// pattern `%H:%M:%S`: two digits each of the hour, the minute and the second
/// in UTC.
#[verifier::external_body]
fn format_time_of_day(t: Timestamp) -> (text: String)
    requires
        t.valid(),
    ensures
        text@ == time_of_day(t),
{
    chrono::DateTime::from_timestamp(t.secs, t.nanos).unwrap().format("%H:%M:%S").to_string()
}

/// The time of day of an instant, as `HH:MM:SS`.
pub fn clock_text(t: Timestamp) -> (text: String)
    requires
        t.valid(),
    ensures
        text@ == time_of_day(t),
{
    format_time_of_day(t)
}

/// Every instant within the calendar is valid, with its nanoseconds below a
/// second, or within a second more at the end of a minute, where a leap second
/// may stand.
pub proof fn calendar_instants_are_valid(t: Timestamp)
    ensures
        t.valid() ==> -8_334_601_228_800 <= t.secs <= 8_210_266_876_799,
        -8_334_601_228_800 <= t.secs <= 8_210_266_876_799 && t.nanos <= 999_999_999 ==> t.valid(),
        -8_334_601_228_800 <= t.secs <= 8_210_266_876_799 && 1_000_000_000 <= t.nanos
            <= 1_999_999_999 ==> (t.valid() <==> (t.secs + 1) % 60 == 0),
        t.nanos >= 2_000_000_000 ==> !t.valid(),
{
}

/// The time of day is written as two digits each of the hour, the minute and
/// the second, with a colon after the first and the second pair; together they
/// count the seconds since midnight.
pub proof fn times_are_written_by_the_clock(t: Timestamp)
    requires
        t.valid(),
        t.nanos < 1_000_000_000,
    ensures
        ({
            let s = time_of_day(t);
            let pair = |i: int| (s[i] as int - 48) * 10 + (s[i + 1] as int - 48);
            &&& s.len() == 8
            &&& s[2] == ':' && s[5] == ':'
            &&& 0 <= pair(0) < 24 && 0 <= pair(3) < 60 && 0 <= pair(6) < 60
            &&& (t.secs - (pair(0) * 3_600 + pair(3) * 60 + pair(6))) % 86_400 == 0
        }),
{
    reveal_strlit(":");
    let d = t.secs as int % 86_400;
    text::two_digits_are_tens_and_units(d / 3_600);
    text::two_digits_are_tens_and_units(d / 60 % 60);
    text::two_digits_are_tens_and_units(d % 60 + t.nanos as int / 1_000_000_000);
}

} // verus!
