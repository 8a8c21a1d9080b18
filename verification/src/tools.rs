//! Wall-clock timestamps and the text that log lines carry for them.

use crate::text::opt_view;
use vstd::prelude::*;
use vstd::string::*;
use vstd::utf8::is_ascii_chars;

verus! {

/// A moment of civil time, to the nanosecond, as a clock reported it.
///
/// The fields are kept within the ranges of a broken-down time: months 1 to
/// 12, days 1 to 31, hours 0 to 23, minutes 0 to 59, seconds 0 to 60 (a leap
/// second reads 60) and years 1 to 9999. Whether the month has that many days
/// is the clock's business.
#[derive(Clone, Copy, Debug, PartialEq, Eq)]
pub struct Timestamp {
    year: i32,
    month: i32,
    day: i32,
    hour: i32,
    minute: i32,
    second: i32,
    nanosecond: i32,
}

/// The mathematical content of a [`Timestamp`].
pub struct TimestampView {
    pub year: int,
    pub month: int,
    pub day: int,
    pub hour: int,
    pub minute: int,
    pub second: int,
    pub nanosecond: int,
}

impl TimestampView {
    /// Every field lies in the range that a [`Timestamp`] keeps.
    pub open spec fn in_range(self) -> bool {
        &&& 1 <= self.year <= 9999
        &&& 1 <= self.month <= 12
        &&& 1 <= self.day <= 31
        &&& 0 <= self.hour <= 23
        &&& 0 <= self.minute <= 59
        &&& 0 <= self.second <= 60
        &&& 0 <= self.nanosecond <= 999_999_999
    }

    /// One integer per moment, larger for later moments: the fields read as
    /// the digits of a mixed-radix numeral, the year first.
    pub open spec fn key(self) -> int {
        (((((self.year * 12 + (self.month - 1)) * 31 + (self.day - 1)) * 24 + self.hour) * 60
            + self.minute) * 61 + self.second) * 1_000_000_000 + self.nanosecond
    }

    /// The order of moments, field by field, the year first.
    pub open spec fn before(self, other: TimestampView) -> bool {
        self.year < other.year || (self.year == other.year && (self.month < other.month || (
        self.month == other.month && (self.day < other.day || (self.day == other.day && (self.hour
            < other.hour || (self.hour == other.hour && (self.minute < other.minute || (self.minute
            == other.minute && (self.second < other.second || (self.second == other.second
            && self.nanosecond < other.nanosecond)))))))))))
    }
}

/// Keys order moments as their fields do, and distinct moments have distinct
/// keys.
pub proof fn lemma_key_orders_moments(a: TimestampView, b: TimestampView)
    requires
        a.in_range(),
        b.in_range(),
    ensures
        a.key() < b.key() <==> a.before(b),
        a.key() == b.key() <==> a == b,
{
    let a1 = a.year * 12 + (a.month - 1);
    let b1 = b.year * 12 + (b.month - 1);
    assert(a1 < b1 <==> (a.year < b.year || (a.year == b.year && a.month < b.month)));
    assert(a1 == b1 <==> (a.year == b.year && a.month == b.month));
    let a2 = a1 * 31 + (a.day - 1);
    let b2 = b1 * 31 + (b.day - 1);
    assert(a2 < b2 <==> (a1 < b1 || (a1 == b1 && a.day < b.day)));
    assert(a2 == b2 <==> (a1 == b1 && a.day == b.day));
    let a3 = a2 * 24 + a.hour;
    let b3 = b2 * 24 + b.hour;
    assert(a3 < b3 <==> (a2 < b2 || (a2 == b2 && a.hour < b.hour)));
    assert(a3 == b3 <==> (a2 == b2 && a.hour == b.hour));
    let a4 = a3 * 60 + a.minute;
    let b4 = b3 * 60 + b.minute;
    assert(a4 < b4 <==> (a3 < b3 || (a3 == b3 && a.minute < b.minute)));
    assert(a4 == b4 <==> (a3 == b3 && a.minute == b.minute));
    let a5 = a4 * 61 + a.second;
    let b5 = b4 * 61 + b.second;
    assert(a5 < b5 <==> (a4 < b4 || (a4 == b4 && a.second < b.second)));
    assert(a5 == b5 <==> (a4 == b4 && a.second == b.second));
    let a6 = a5 * 1_000_000_000 + a.nanosecond;
    let b6 = b5 * 1_000_000_000 + b.nanosecond;
    assert(a6 < b6 <==> (a5 < b5 || (a5 == b5 && a.nanosecond < b.nanosecond)));
    assert(a6 == b6 <==> (a5 == b5 && a.nanosecond == b.nanosecond));
    assert(a.key() == a6);
    assert(b.key() == b6);
}

impl View for Timestamp {
    type V = TimestampView;

    closed spec fn view(&self) -> TimestampView {
        TimestampView {
            year: self.year as int,
            month: self.month as int,
            day: self.day as int,
            hour: self.hour as int,
            minute: self.minute as int,
            second: self.second as int,
            nanosecond: self.nanosecond as int,
        }
    }
}

impl Timestamp {
    #[verifier::type_invariant]
    spec fn well_formed(self) -> bool {
        self@.in_range()
    }

    /// The moment with the given fields, or `None` when a field is out of its
    /// range.
    pub fn new(
        year: i32,
        month: i32,
        day: i32,
        hour: i32,
        minute: i32,
        second: i32,
        nanosecond: i32,
    ) -> (made: Option<Timestamp>)
        ensures
            made is Some <==> (TimestampView {
                year: year as int,
                month: month as int,
                day: day as int,
                hour: hour as int,
                minute: minute as int,
                second: second as int,
                nanosecond: nanosecond as int,
            }).in_range(),
            made is Some ==> made->0@ == (TimestampView {
                year: year as int,
                month: month as int,
                day: day as int,
                hour: hour as int,
                minute: minute as int,
                second: second as int,
                nanosecond: nanosecond as int,
            }),
    {
        if 1 <= year && year <= 9999 && 1 <= month && month <= 12 && 1 <= day && day <= 31 && 0
            <= hour && hour <= 23 && 0 <= minute && minute <= 59 && 0 <= second && second <= 60
            && 0 <= nanosecond && nanosecond <= 999_999_999 {
            Some(Timestamp { year, month, day, hour, minute, second, nanosecond })
        } else {
            None
        }
    }

    /// The year, 1 to 9999.
    pub fn year(&self) -> (v: i32)
        ensures
            v == self@.year,
    {
        self.year
    }

    /// The month, 1 to 12.
    pub fn month(&self) -> (v: i32)
        ensures
            v == self@.month,
    {
        self.month
    }

    /// The day of the month, 1 to 31.
    pub fn day(&self) -> (v: i32)
        ensures
            v == self@.day,
    {
        self.day
    }

    /// The hour, 0 to 23.
    pub fn hour(&self) -> (v: i32)
        ensures
            v == self@.hour,
    {
        self.hour
    }

    /// The minute, 0 to 59.
    pub fn minute(&self) -> (v: i32)
        ensures
            v == self@.minute,
    {
        self.minute
    }

    /// The second, 0 to 60.
    pub fn second(&self) -> (v: i32)
        ensures
            v == self@.second,
    {
        self.second
    }

    /// The nanoseconds after the second.
    pub fn nanosecond(&self) -> (v: i32)
        ensures
            v == self@.nanosecond,
    {
        self.nanosecond
    }

    fn key(&self) -> (k: u128)
        ensures
            k == self@.key(),
            self@.in_range(),
    {
        proof {
            use_type_invariant(self);
        }
        let y: u128 = self.year as u128;
        let months: u128 = y * 12 + (self.month - 1) as u128;
        let days: u128 = months * 31 + (self.day - 1) as u128;
        let hours: u128 = days * 24 + self.hour as u128;
        let minutes: u128 = hours * 60 + self.minute as u128;
        let seconds: u128 = minutes * 61 + self.second as u128;
        seconds * 1_000_000_000 + self.nanosecond as u128
    }

    /// Whether this moment is `other` or comes before it.
    pub fn not_after(&self, other: &Timestamp) -> (holds: bool)
        ensures
            holds == (self@.key() <= other@.key()),
            self@.in_range(),
            other@.in_range(),
    {
        self.key() <= other.key()
    }
}

/// The text that `time::strftime` writes for a format and the fields of a
/// broken-down time, or `None` where it rejects them. The fields are named as
/// `time::Tm` names them: years count from 1900 and months from 0.
pub uninterp spec fn strftime_text(
    format: Seq<char>,
    tm_sec: int,
    tm_min: int,
    tm_hour: int,
    tm_mday: int,
    tm_mon: int,
    tm_year: int,
    tm_wday: int,
    tm_yday: int,
    tm_isdst: int,
    tm_utcoff: int,
    tm_nsec: int,
) -> Option<Seq<char>>;

/// The format of a log stamp: date, time of day, and nanoseconds.
pub open spec fn stamp_format() -> Seq<char> {
    "%Y-%m-%d %T.%f"@
}

/// Calls `time::strftime` on a `time::Tm` with the given fields.
///
/// Believed, not proved: for the stamp format, and a year that `time` can
/// add 1900 to, the call returns, and what it returns depends on the format
/// and the fields alone. The contract says nothing of what the text is.
#[verifier::external_body]
fn strftime(
    format: &str,
    tm_sec: i32,
    tm_min: i32,
    tm_hour: i32,
    tm_mday: i32,
    tm_mon: i32,
    tm_year: i32,
    tm_wday: i32,
    tm_yday: i32,
    tm_isdst: i32,
    tm_utcoff: i32,
    tm_nsec: i32,
) -> (text: Option<String>)
    requires
        format@ == stamp_format(),
        tm_year <= i32::MAX - 1900,
    ensures
        opt_view(text) == strftime_text(
            format@,
            tm_sec as int,
            tm_min as int,
            tm_hour as int,
            tm_mday as int,
            tm_mon as int,
            tm_year as int,
            tm_wday as int,
            tm_yday as int,
            tm_isdst as int,
            tm_utcoff as int,
            tm_nsec as int,
        ),
{
    let tm = time::Tm {
        tm_sec,
        tm_min,
        tm_hour,
        tm_mday,
        tm_mon,
        tm_year,
        tm_wday,
        tm_yday,
        tm_isdst,
        tm_utcoff,
        tm_nsec,
    };
    time::strftime(format, &tm).ok()
}

/// A full stamp cut down to milliseconds: the text without its last six
/// characters. Text that is shorter, or not plain ASCII, is no stamp.
pub open spec fn trimmed(full: Seq<char>) -> Option<Seq<char>> {
    if full.len() >= 6 && is_ascii_chars(full) {
        Some(full.take(full.len() - 6))
    } else {
        None
    }
}

/// The log stamp of a moment: what `time::strftime` writes for it in the
/// stamp format, cut down to milliseconds.
pub open spec fn stamp_text(t: TimestampView) -> Option<Seq<char>> {
    match strftime_text(
        stamp_format(),
        t.second,
        t.minute,
        t.hour,
        t.day,
        t.month - 1,
        t.year - 1900,
        0,
        0,
        0,
        0,
        t.nanosecond,
    ) {
        Some(full) => trimmed(full),
        None => None,
    }
}

/// Cuts a full stamp down to milliseconds.
pub fn trim_subsecond(full: &str) -> (short: Option<String>)
    ensures
        opt_view(short) == trimmed(full@),
{
    if full.is_ascii() {
        let length = full.unicode_len();
        if length >= 6 {
            let short = full.substring_ascii(0, length - 6).to_owned();
            Some(short)
        } else {
            None
        }
    } else {
        None
    }
}

/// Writes a moment as a log stamp, `YYYY-MM-DD HH:MM:SS.mmm` for the years
/// that have four digits.
pub fn to_string(ti: &Timestamp) -> (text: Option<String>)
    ensures
        opt_view(text) == stamp_text(ti@),
{
    proof {
        use_type_invariant(ti);
    }
    let full = strftime(
        "%Y-%m-%d %T.%f",
        ti.second,
        ti.minute,
        ti.hour,
        ti.day,
        ti.month - 1,
        ti.year - 1900,
        0,
        0,
        0,
        0,
        ti.nanosecond,
    );
    match full {
        Some(t) => trim_subsecond(t.as_str()),
        None => None,
    }
}

/// A line of the log: the stamp, the actor and the category, each in square
/// brackets, and what happened.
pub open spec fn log_entry_text(
    stamp: Seq<char>,
    actor: Seq<char>,
    category: Seq<char>,
    info: Seq<char>,
) -> Seq<char> {
    "["@ + stamp + "]["@ + actor + "]["@ + category + "] "@ + info
}

/// A line of the system log: a log line of the category `system`.
pub open spec fn log_line_text(stamp: Seq<char>, actor: Seq<char>, info: Seq<char>) -> Seq<char> {
    log_entry_text(stamp, actor, "system"@, info)
}

/// Writes a line of the log.
pub fn log_entry(stamp: &str, actor: &str, category: &str, info: &str) -> (line: String)
    ensures
        line@ == log_entry_text(stamp@, actor@, category@, info@),
{
    let mut line = String::from_str("[");
    line.append(stamp);
    line.append("][");
    line.append(actor);
    line.append("][");
    line.append(category);
    line.append("] ");
    line.append(info);
    line
}

/// Writes a line of the system log.
pub fn log_line(stamp: &str, actor: &str, info: &str) -> (line: String)
    ensures
        line@ == log_line_text(stamp@, actor@, info@),
{
    log_entry(stamp, actor, "system", info)
}

} // verus!
