//! One scheduled window of a day: its two instants, its scripts, and what has been run.

use crate::calendar::clock_seconds;
use crate::calendar::seconds_of_clock;
use crate::calendar::Moment;
use crate::config::Config;
use crate::digest::is_word;
use crate::digest::md5_hex;
use crate::digest::md5_hex_of;
use crate::document::Node;
use crate::errors::PlanError;
use crate::errors::PlanFault;
use crate::text::chars_of;
use crate::text::int_text;
use crate::text::parse_unsigned;
use crate::text::push_int;
use crate::text::split;
use crate::text::split_chars;
use crate::text::texts;
use crate::text::unsigned_of_text;
use crate::weekday::name_str;
use std::borrow::Cow;
use vstd::prelude::*;

verus! {

/// What a poll finds due for an event.
#[derive(Debug, Clone, Copy, PartialEq, Eq, Structural)]
pub enum ExecutionType {
    /// The start script is due.
    START,
    /// The end script is due.
    END,
    /// The window is open and the script that accompanies it is due.
    LOOP,
    /// Nothing is due.
    NONE,
}

/// A window of the current day, with its scripts and its record of execution.
#[derive(Debug)]
pub struct Event {
    /// The instant at which the window opens, in seconds since the epoch.
    pub start: i64,
    /// The instant at which the window closes, in seconds since the epoch.
    pub end: i64,
    /// Run once when the window opens.
    pub execute_start: String,
    /// Run once when the window closes.
    pub execute_end: String,
    /// Run at every poll while the window is open, after the start script and
    /// before the end script.
    pub during: Option<String>,
    /// Whether the start script and the end script have been run.
    pub executed: (bool, bool),
    /// The digest that names the event in the ledger, once it is computed.
    pub checksum: Option<String>,
}

/// An event as plain values.
pub struct EventView {
    pub start: int,
    pub end: int,
    pub execute_start: Seq<char>,
    pub execute_end: Seq<char>,
    pub during: Option<Seq<char>>,
    pub executed: (bool, bool),
    pub checksum: Option<Seq<char>>,
}

impl View for Event {
    type V = EventView;

    open spec fn view(&self) -> EventView {
        EventView {
            start: self.start as int,
            end: self.end as int,
            execute_start: self.execute_start@,
            execute_end: self.execute_end@,
            during: match self.during {
                Some(script) => Some(script@),
                None => None,
            },
            executed: self.executed,
            checksum: match self.checksum {
                Some(digest) => Some(digest@),
                None => None,
            },
        }
    }
}

impl Clone for Event {
    /// An event with the same values.
    fn clone(&self) -> (copy: Self)
        ensures
            copy@ == self@,
    {
        Event {
            start: self.start,
            end: self.end,
            execute_start: self.execute_start.clone(),
            execute_end: self.execute_end.clone(),
            during: match &self.during {
                Some(script) => Some(script.clone()),
                None => None,
            },
            executed: (self.executed.0, self.executed.1),
            checksum: match &self.checksum {
                Some(digest) => Some(digest.clone()),
                None => None,
            },
        }
    }
}

/// The views of a sequence of events.
pub open spec fn views(events: Seq<Event>) -> Seq<EventView> {
    Seq::new(events.len(), |i: int| events[i]@)
}

/// What is due for `event` at the instant `now`.
///
/// The start script is due from the opening of the window until the start tolerance
/// has passed, as long as it has not been run. After it has been run and before the
/// end script has, the end script is due from the closing of the window until the end
/// tolerance has passed, and the accompanying script, where there is one, is due
/// before the closing.
pub open spec fn decide(event: EventView, now: int, config: Config) -> ExecutionType {
    if !event.executed.0 && event.start <= now <= event.start + config.start_tolerance() {
        ExecutionType::START
    } else if event.executed.0 && !event.executed.1 && event.end <= now <= event.end
        + config.end_tolerance() {
        ExecutionType::END
    } else if event.executed.0 && !event.executed.1 && now < event.end && event.during is Some {
        ExecutionType::LOOP
    } else {
        ExecutionType::NONE
    }
}

/// The text whose digest names an event: both instants in decimal, then both scripts.
pub open spec fn checksum_text(
    start: int,
    end: int,
    execute_start: Seq<char>,
    execute_end: Seq<char>,
) -> Seq<char> {
    int_text(start) + int_text(end) + execute_start + execute_end
}

/// The digest that names an event with these instants and scripts.
pub open spec fn checksum_of(
    start: int,
    end: int,
    execute_start: Seq<char>,
    execute_end: Seq<char>,
) -> Seq<char> {
    md5_hex(checksum_text(start, end, execute_start, execute_end))
}

/// How far into the day a time written as hours, `:` and minutes is, in seconds.
/// What follows a second `:` is not read. `None` where hours or minutes are no
/// numbers, or are past 23 and 59.
pub open spec fn clock_of_text(time: Seq<char>) -> Option<int> {
    let parts = split(time, ':');
    if parts.len() >= 2 {
        match (unsigned_of_text(parts[0]), unsigned_of_text(parts[1])) {
            (Some(hour), Some(minute)) => clock_seconds(hour, minute),
            _ => None,
        }
    } else {
        None
    }
}

/// The event that a record of a plan describes, on the day that began at `day_start`.
///
/// The record must hold `start` and `end` as times of day and `execute_start` and
/// `execute_end` as strings; `during` is read where it is a string. The first
/// of these to fail, in the order start, end, execute_start, execute_end, gives the error.
pub open spec fn event_of_record(record: Node, weekday: Seq<char>, day_start: int) -> Result<
    EventView,
    PlanFault,
> {
    if record.field("start"@) is None {
        Err(PlanFault::RequiredAttributeMissing { attribute: "start"@, weekday })
    } else if clock_of_text(record.field("start"@)->0) is None {
        Err(PlanFault::BadTimeFormat { weekday })
    } else if record.field("end"@) is None {
        Err(PlanFault::RequiredAttributeMissing { attribute: "end"@, weekday })
    } else if clock_of_text(record.field("end"@)->0) is None {
        Err(PlanFault::BadTimeFormat { weekday })
    } else if record.field("execute_start"@) is None {
        Err(PlanFault::RequiredAttributeMissing { attribute: "execute_start"@, weekday })
    } else if record.field("execute_end"@) is None {
        Err(PlanFault::RequiredAttributeMissing { attribute: "execute_end"@, weekday })
    } else {
        Ok(
            EventView {
                start: day_start + clock_of_text(record.field("start"@)->0)->0,
                end: day_start + clock_of_text(record.field("end"@)->0)->0,
                execute_start: record.field("execute_start"@)->0,
                execute_end: record.field("execute_end"@)->0,
                during: record.field("during"@),
                executed: (false, false),
                checksum: None,
            },
        )
    }
}

/// The view of what a function answers that makes an event or fails.
pub open spec fn outcome_view(outcome: Result<Event, PlanError>) -> Result<EventView, PlanFault> {
    match outcome {
        Ok(event) => Ok(event@),
        Err(error) => Err(error@),
    }
}

impl Event {
    /// Whether the digest, where there is one, can stand as a word in a ledger.
    pub open spec fn wf(&self) -> bool {
        self.checksum matches Some(digest) ==> is_word(digest@)
    }

    /// Reads an event from a record of the plan of `weekday`, for the day of `now`.
    pub fn new(record: &Node, weekday: &Cow<'static, str>, now: &Moment) -> (event: Result<
        Self,
        PlanError,
    >)
        ensures
            outcome_view(event) == event_of_record(*record, weekday@, now.day_start()),
            event matches Ok(e) ==> e.wf(),
    {
        let day = name_str(weekday);
        let start = match record.get_str("start") {
            None => {
                return Err(PlanError::missing("start", day));
            },
            Some(text) => match parse_time(text, day, now) {
                Err(error) => {
                    return Err(error);
                },
                Ok(instant) => instant,
            },
        };
        let end = match record.get_str("end") {
            None => {
                return Err(PlanError::missing("end", day));
            },
            Some(text) => match parse_time(text, day, now) {
                Err(error) => {
                    return Err(error);
                },
                Ok(instant) => instant,
            },
        };
        let execute_start = match record.get_str("execute_start") {
            None => {
                return Err(PlanError::missing("execute_start", day));
            },
            Some(text) => text.to_owned(),
        };
        let during = match record.get_str("during") {
            None => None,
            Some(text) => Some(text.to_owned()),
        };
        let execute_end = match record.get_str("execute_end") {
            None => {
                return Err(PlanError::missing("execute_end", day));
            },
            Some(text) => text.to_owned(),
        };
        Ok(
            Event {
                start,
                end,
                execute_start,
                execute_end,
                during,
                executed: (false, false),
                checksum: None,
            },
        )
    }

    /// The text whose digest names the event.
    pub fn to_string(&self) -> (text: String)
        ensures
            text@ == checksum_text(
                self@.start,
                self@.end,
                self@.execute_start,
                self@.execute_end,
            ),
    {
        let mut text = String::new();
        push_int(&mut text, self.start);
        push_int(&mut text, self.end);
        text.append(self.execute_start.as_str());
        text.append(self.execute_end.as_str());
        text
    }

    /// Computes the digest of both instants and both scripts and stores it in
    /// `checksum`, in lower-case hexadecimal. Nothing else changes.
    pub fn calculate_checksum(&mut self)
        ensures
            final(self)@ == (EventView {
                checksum: Some(
                    checksum_of(
                        old(self)@.start,
                        old(self)@.end,
                        old(self)@.execute_start,
                        old(self)@.execute_end,
                    ),
                ),
                ..old(self)@
            }),
            final(self).wf(),
            final(self)@.checksum->0.len() == 32,
    {
        let text = self.to_string();
        self.checksum = Some(md5_hex_of(text.as_str()));
    }

    /// What is due at the instant `time_now`, under `config`.
    pub fn should_execute(&self, time_now: &i64, config: &Config) -> (due: ExecutionType)
        ensures
            due == decide(self@, *time_now as int, *config),
    {
        let now: i128 = *time_now as i128;
        let start: i128 = self.start as i128;
        let end: i128 = self.end as i128;
        let start_minutes: i128 = match config.distance_start {
            Some(minutes) => minutes as i128,
            None => config.distance as i128,
        };
        let end_minutes: i128 = match config.distance_end {
            Some(minutes) => minutes as i128,
            None => config.distance as i128,
        };
        let start_limit: i128 = start + start_minutes * 60;
        let end_limit: i128 = end + end_minutes * 60;
        if !self.executed.0 && start <= now && now <= start_limit {
            ExecutionType::START
        } else if self.executed.0 && !self.executed.1 && end <= now && now <= end_limit {
            ExecutionType::END
        } else if self.executed.0 && !self.executed.1 && now < end && self.during.is_some() {
            ExecutionType::LOOP
        } else {
            ExecutionType::NONE
        }
    }

    /// Whether the window is open: the start script has been run and the end script has not.
    pub fn should_reschedule(&self) -> (open: bool)
        ensures
            open == (self@.executed.0 && !self@.executed.1),
    {
        self.executed.0 && !self.executed.1
    }
}

/// Reads a time of day written as hours, `:` and minutes, and gives the instant
/// at which the local clock shows it on the day of `now`.
pub fn parse_time(time: &str, weekday: &str, now: &Moment) -> (instant: Result<i64, PlanError>)
    ensures
        match instant {
            Ok(t) => clock_of_text(time@) == Some(t - now.day_start()),
            Err(error) => clock_of_text(time@) is None && error@ == (PlanFault::BadTimeFormat {
                weekday: weekday@,
            }),
        },
{
    let chars = chars_of(time);
    let parts = split_chars(&chars, ':');
    if parts.len() < 2 {
        return Err(PlanError::bad_time(weekday));
    }
    proof {
        assert(parts@[0]@.subrange(0, parts@[0]@.len() as int) =~= parts@[0]@);
        assert(parts@[1]@.subrange(0, parts@[1]@.len() as int) =~= parts@[1]@);
    }
    let hour = match parse_unsigned(&parts[0], 0, parts[0].len()) {
        None => {
            return Err(PlanError::bad_time(weekday));
        },
        Some(hour) => hour,
    };
    let minute = match parse_unsigned(&parts[1], 0, parts[1].len()) {
        None => {
            return Err(PlanError::bad_time(weekday));
        },
        Some(minute) => minute,
    };
    match seconds_of_clock(hour, minute) {
        None => Err(PlanError::bad_time(weekday)),
        Some(seconds) => Ok(now.local_midnight() + (seconds as i64)),
    }
}

/// The digest of an event is made of its two instants and its two scripts alone:
/// events that agree in these have the same digest, whatever else they hold.
pub proof fn lemma_checksum_of_content(a: EventView, b: EventView)
    requires
        a.start == b.start,
        a.end == b.end,
        a.execute_start == b.execute_start,
        a.execute_end == b.execute_end,
    ensures
        checksum_of(a.start, a.end, a.execute_start, a.execute_end) == checksum_of(
            b.start,
            b.end,
            b.execute_start,
            b.execute_end,
        ),
{
}

/// The start script of an event that has not run it is due at the start of the
/// window and when the tolerance has just passed, and is not due one second later.
/// With a tolerance of ninety minutes that is at the start, 5400 seconds after it,
/// and not 5401 seconds after it.
pub proof fn lemma_start_window(event: EventView, config: Config)
    requires
        !event.executed.0,
        config.start_tolerance() >= 0,
    ensures
        decide(event, event.start, config) == ExecutionType::START,
        decide(event, event.start + config.start_tolerance(), config) == ExecutionType::START,
        decide(event, event.start + config.start_tolerance() + 1, config) == ExecutionType::NONE,
        config.distance == 90 && config.distance_start is None ==> config.start_tolerance()
            == 5400,
{
}

/// What is due depends on the options through the two tolerances alone.
pub proof fn lemma_decide_by_tolerances(event: EventView, now: int, config: Config, other: Config)
    requires
        config.start_tolerance() == other.start_tolerance(),
        config.end_tolerance() == other.end_tolerance(),
    ensures
        decide(event, now, config) == decide(event, now, other),
{
}

/// The window of an event that is read from a record closes after it opens exactly
/// where the record's end is a later time of day than its start.
pub proof fn lemma_window_order(record: Node, weekday: Seq<char>, day_start: int)
    requires
        event_of_record(record, weekday, day_start) is Ok,
    ensures
        event_of_record(record, weekday, day_start)->Ok_0.start < event_of_record(
            record,
            weekday,
            day_start,
        )->Ok_0.end <==> clock_of_text(record.field("start"@)->0)->0 < clock_of_text(
            record.field("end"@)->0,
        )->0,
        day_start <= event_of_record(record, weekday, day_start)->Ok_0.start < day_start + 86400,
        day_start <= event_of_record(record, weekday, day_start)->Ok_0.end < day_start + 86400,
{
}

} // verus!
