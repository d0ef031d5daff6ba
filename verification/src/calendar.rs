//! Calendar dates and the moment of a poll.
//!
//! Calendar arithmetic is left to `chrono`; this module holds the plain values
//! that the rest of the library computes with.

use chrono::Datelike;
use chrono::NaiveDate;
use chrono::NaiveTime;
use chrono::ParseError;
use vstd::prelude::*;

verus! {

/// `chrono::ParseError`, carried through as `chrono` made it.
#[verifier::external_type_specification]
#[verifier::external_body]
pub struct ExParseError(ParseError);

/// The text that `chrono` prints for the calendar day `year`-`month`-`day`,
/// or `None` where `chrono` has no such day.
pub uninterp spec fn date_text(year: i32, month: u32, day: u32) -> Option<Seq<char>>;

/// Seconds from 1970-01-01 00:00:00 to the midnight that begins the calendar day,
/// both taken without a time zone, or `None` where `chrono` has no such day.
pub uninterp spec fn epoch_midnight(year: i32, month: u32, day: u32) -> Option<i64>;

/// The calendar day that `chrono` reads from `text` under the format `format`,
/// as year, month and day, or `None` where it rejects the text.
pub uninterp spec fn scanned_date(text: Seq<char>, format: Seq<char>) -> Option<(i32, u32, u32)>;

/// A bound on the size of any timestamp that `chrono` gives to a midnight.
pub const MIDNIGHT_LIMIT: i64 = 10_000_000_000_000;

/// `NaiveDate::from_ymd_opt` followed by the date's `to_string`.
/// Trusted: the answer is `date_text`, and the printed date holds no line break
/// (it is made of digits, `-` and at most one sign).
#[verifier::external_body]
fn print_date(year: i32, month: u32, day: u32) -> (text: Option<String>)
    ensures
        match text {
            Some(s) => date_text(year, month, day) == Some(s@) && !s@.contains('\n'),
            None => date_text(year, month, day) is None,
        },
{
    match NaiveDate::from_ymd_opt(year, month, day) {
        Some(date) => Some(date.to_string()),
        None => None,
    }
}

/// `NaiveDate::from_ymd_opt`, then the timestamp of that day's midnight read as UTC.
/// Trusted: the answer is `epoch_midnight`; `chrono` holds years between -262143
/// and 262142 only, which bounds the timestamp.
#[verifier::external_body]
fn midnight_of(year: i32, month: u32, day: u32) -> (seconds: Option<i64>)
    ensures
        seconds == epoch_midnight(year, month, day),
        seconds matches Some(t) ==> -MIDNIGHT_LIMIT < t < MIDNIGHT_LIMIT,
{
    match NaiveDate::from_ymd_opt(year, month, day) {
        Some(date) => Some(date.and_time(NaiveTime::MIN).and_utc().timestamp()),
        None => None,
    }
}

/// `NaiveDate::parse_from_str`, handing out the year, month and day that were read.
/// Trusted: the answer is `scanned_date`.
#[verifier::external_body]
fn scan_date(text: &str, format: &str) -> (scanned: Result<(i32, u32, u32), ParseError>)
    ensures
        match scanned {
            Ok(ymd) => scanned_date(text@, format@) == Some(ymd),
            Err(_) => scanned_date(text@, format@) is None,
        },
{
    match NaiveDate::parse_from_str(text, format) {
        Ok(date) => Ok((date.year(), date.month(), date.day())),
        Err(e) => Err(e),
    }
}

/// `NaiveTime::from_hms_opt` with zero seconds, then the seconds since midnight.
/// Trusted: hours up to 23 and minutes up to 59 are accepted, nothing else.
#[verifier::external_body]
fn seconds_into_day(hour: u32, minute: u32) -> (seconds: Option<u32>)
    ensures
        hour < 24 && minute < 60 ==> seconds == Some((hour * 3600 + minute * 60) as u32),
        hour >= 24 || minute >= 60 ==> seconds is None,
{
    match NaiveTime::from_hms_opt(hour, minute, 0) {
        Some(time) => Some(chrono::Timelike::num_seconds_from_midnight(&time)),
        None => None,
    }
}

/// A day of the week.
#[derive(Clone, Copy, Debug, PartialEq, Eq, Structural)]
pub enum Weekday {
    Mon,
    Tue,
    Wed,
    Thu,
    Fri,
    Sat,
    Sun,
}

/// Why a text names no calendar day.
#[derive(Debug)]
pub enum DateError {
    /// The text is not written as a day; `chrono`'s report is kept.
    Unreadable(ParseError),
    /// The text is written as a day that this library does not hold.
    OutOfRange,
}

/// A calendar day as plain values.
pub struct DateView {
    pub year: i32,
    pub month: u32,
    pub day: u32,
    /// Seconds from 1970-01-01 00:00:00 to the day's midnight, without a time zone.
    pub midnight: i64,
    /// The day as it is written in a ledger.
    pub text: Seq<char>,
}

/// The calendar day that `chrono` makes of a year, a month and a day, if it makes one.
pub open spec fn date_of(year: i32, month: u32, day: u32) -> Option<DateView> {
    if date_text(year, month, day) is Some && epoch_midnight(year, month, day) is Some {
        Some(
            DateView {
                year,
                month,
                day,
                midnight: epoch_midnight(year, month, day)->0,
                text: date_text(year, month, day)->0,
            },
        )
    } else {
        None
    }
}

/// The calendar day that a text written as year, month and day with `-` between
/// them names, if it names one.
pub open spec fn parsed_date(text: Seq<char>) -> Option<DateView> {
    match scanned_date(text, "%Y-%m-%d"@) {
        Some(ymd) => date_of(ymd.0, ymd.1, ymd.2),
        None => None,
    }
}

/// The day that stands in a ledger which was never written: older than any day
/// on which this library runs.
pub open spec fn unwritten() -> DateView {
    DateView { year: 1990, month: 1, day: 1, midnight: 631_152_000, text: "1990-01-01"@ }
}

/// A calendar day, with the timestamp of its midnight and its written form.
///
/// The written form holds no line break, and the midnight is within `MIDNIGHT_LIMIT`
/// of the epoch: both hold of every value of this type.
#[derive(Debug)]
pub struct Date {
    year: i32,
    month: u32,
    day: u32,
    midnight: i64,
    text: String,
}

impl View for Date {
    type V = DateView;

    closed spec fn view(&self) -> DateView {
        DateView {
            year: self.year,
            month: self.month,
            day: self.day,
            midnight: self.midnight,
            text: self.text@,
        }
    }
}

impl Clone for Date {
    /// A day with the same values.
    fn clone(&self) -> (copy: Self)
        ensures
            copy@ == self@,
    {
        proof {
            use_type_invariant(self);
        }
        Date {
            year: self.year,
            month: self.month,
            day: self.day,
            midnight: self.midnight,
            text: self.text.clone(),
        }
    }
}

impl Date {
    #[verifier::type_invariant]
    spec fn well_formed(self) -> bool {
        &&& -MIDNIGHT_LIMIT < self.midnight < MIDNIGHT_LIMIT
        &&& !self.text@.contains('\n')
    }

    /// The day `year`-`month`-`day`, where `chrono` knows such a day.
    pub fn new(year: i32, month: u32, day: u32) -> (date: Option<Date>)
        ensures
            match date {
                Some(d) => date_of(year, month, day) == Some(d@),
                None => date_of(year, month, day) is None,
            },
    {
        match print_date(year, month, day) {
            None => None,
            Some(text) => match midnight_of(year, month, day) {
                None => None,
                Some(midnight) => Some(Date { year, month, day, midnight, text }),
            },
        }
    }

    /// The day `unwritten()`.
    pub fn unwritten() -> (date: Date)
        ensures
            date@ == unwritten(),
    {
        let text = String::from_str("1990-01-01");
        proof {
            reveal_strlit("1990-01-01");
        }
        Date { year: 1990, month: 1, day: 1, midnight: 631_152_000, text }
    }

    /// Reads a day written as year, month and day with `-` between them.
    pub fn parse(text: &str) -> (date: Result<Date, DateError>)
        ensures
            match date {
                Ok(d) => parsed_date(text@) == Some(d@),
                Err(error) => parsed_date(text@) is None && (error is Unreadable <==> scanned_date(
                    text@,
                    "%Y-%m-%d"@,
                ) is None),
            },
    {
        match scan_date(text, "%Y-%m-%d") {
            Err(e) => Err(DateError::Unreadable(e)),
            Ok(ymd) => match Date::new(ymd.0, ymd.1, ymd.2) {
                Some(d) => Ok(d),
                None => Err(DateError::OutOfRange),
            },
        }
    }

    /// The year of the day.
    pub fn year(&self) -> (year: i32)
        ensures
            year == self@.year,
    {
        self.year
    }

    /// The month of the day, from 1 on.
    pub fn month(&self) -> (month: u32)
        ensures
            month == self@.month,
    {
        self.month
    }

    /// The day of the month, from 1 on.
    pub fn day(&self) -> (day: u32)
        ensures
            day == self@.day,
    {
        self.day
    }

    /// The timestamp of the day's midnight, taken without a time zone.
    pub fn midnight(&self) -> (midnight: i64)
        ensures
            midnight == self@.midnight,
            -MIDNIGHT_LIMIT < midnight < MIDNIGHT_LIMIT,
    {
        proof {
            use_type_invariant(self);
        }
        self.midnight
    }

    /// The day as it is written in a ledger: on one line.
    pub fn to_string(&self) -> (text: String)
        ensures
            text@ == self@.text,
            !text@.contains('\n'),
    {
        proof {
            use_type_invariant(self);
        }
        self.text.clone()
    }

    /// Whether both are the same day of the calendar.
    pub fn same_day(&self, other: &Date) -> (same: bool)
        ensures
            same == (self@.year == other@.year && self@.month == other@.month && self@.day
                == other@.day),
    {
        self.year == other.year && self.month == other.month && self.day == other.day
    }
}

/// The moment of a poll, as the local clock shows it.
#[derive(Debug, Clone)]
pub struct Moment {
    /// Seconds since the epoch.
    pub timestamp: i64,
    /// The local calendar day.
    pub date: Date,
    /// The local day of the week.
    pub weekday: Weekday,
    /// What local time is ahead of UTC, in seconds.
    pub utc_offset: i32,
}

impl Moment {
    /// The timestamp at which the local day began.
    pub open spec fn day_start(&self) -> int {
        self.date@.midnight - self.utc_offset
    }

    /// The timestamp at which the local day began.
    pub fn local_midnight(&self) -> (start: i64)
        ensures
            start == self.day_start(),
            -MIDNIGHT_LIMIT - 0x8000_0000 < start < MIDNIGHT_LIMIT + 0x8000_0000,
    {
        self.date.midnight() - (self.utc_offset as i64)
    }
}

/// How far into the day `hour`:`minute` is, in seconds; `None` past 23 hours or 59 minutes.
pub open spec fn clock_seconds(hour: u32, minute: u32) -> Option<int> {
    if hour < 24 && minute < 60 {
        Some(hour * 3600 + minute * 60)
    } else {
        None
    }
}

/// How far into the day `hour`:`minute` is, in seconds.
pub fn seconds_of_clock(hour: u32, minute: u32) -> (seconds: Option<u32>)
    ensures
        match seconds {
            Some(s) => clock_seconds(hour, minute) == Some(s as int),
            None => clock_seconds(hour, minute) is None,
        },
{
    seconds_into_day(hour, minute)
}

} // verus!
