//! One poll of the plan: which events are due, in which order, and whether the
//! ledger is written afterwards.
//!
//! The caller owns the clock, runs the scripts and sleeps between polls. A poll
//! is a `Sweep`: `next_due` walks on to the next event for which something is
//! due, `report` takes in how its script ended, and once the walk is over
//! `should_persist` says whether the ledger is written.

use crate::calendar::Moment;
use crate::config::Config;
use crate::errors::ExecutionError;
use crate::event::decide;
use crate::event::views;
use crate::event::Event;
use crate::event::ExecutionType;
use crate::event_processor::marked;
use crate::event_processor::process_event;
use crate::event_processor::script_of;
use crate::event_processor::settle_event;
use crate::event_processor::settled;
use crate::plan::Plan;
use crate::text::same_text;
use crate::weekday::chrono_to_string;
use crate::weekday::name_str;
use crate::weekday::weekday_name;
use vstd::prelude::*;

verus! {

/// The seconds that pass between two polls.
pub const POLL_INTERVAL: u64 = 60;

/// Whether the plan is of another day of the week than `now`, so that the plan of
/// the day of `now` has to be loaded in its place.
pub fn plan_is_stale(plan: &Plan, now: &Moment) -> (stale: bool)
    ensures
        stale == (plan@.weekday != weekday_name(now.weekday)),
{
    let today = chrono_to_string(&now.weekday);
    !same_text(name_str(&plan.weekday), name_str(&today))
}

/// A script that is to be run for an event.
#[derive(Debug)]
pub struct Dispatch {
    /// The position of the event in the plan.
    pub index: usize,
    /// What is due for it.
    pub due: ExecutionType,
    /// The script; `None` where the event has none for what is due.
    pub script: Option<String>,
}

/// Whether the end of a script counts as a failure of the poll: a start or end
/// script that failed does, a script that accompanies an open window does not.
pub open spec fn counts_as_failure(due: ExecutionType, failed: bool) -> bool {
    failed && (due == ExecutionType::START || due == ExecutionType::END)
}

/// The walk of one poll over the events of a plan.
#[derive(Debug, Clone, Copy, PartialEq, Eq, Structural)]
pub struct Sweep {
    /// The instant of the poll.
    pub now: i64,
    /// The position of the next event to look at.
    pub next: usize,
    /// Whether something was due for an event so far.
    pub changed: bool,
    /// Whether a script failed so far.
    pub failed: bool,
}

impl Sweep {
    /// Whether the ledger is to be written after this walk: something was due, and
    /// no failure holds the ledger back. A failure holds it back where `config`
    /// says so.
    pub open spec fn persists(&self, config: Config) -> bool {
        self.changed && !(self.failed && config.keeps_ledger_on_failure())
    }

    /// The walk of the poll at the instant `now`, before any event is looked at.
    pub fn new(now: i64) -> (sweep: Sweep)
        ensures
            sweep == (Sweep { now, next: 0, changed: false, failed: false }),
    {
        Sweep { now, next: 0, changed: false, failed: false }
    }

    /// Walks on to the next event for which something is due, marks it as run and
    /// names its script. Events for which nothing is due are passed over and stay
    /// as they are. `None` says that the walk is over.
    pub fn next_due(&mut self, events: &mut Vec<Event>, config: &Config) -> (dispatch: Option<
        Dispatch,
    >)
        requires
            old(self).next <= old(events).len(),
        ensures
            final(events).len() == old(events).len(),
            final(self).now == old(self).now,
            final(self).failed == old(self).failed,
            match dispatch {
                Some(d) => {
                    &&& old(self).next <= d.index < old(events).len()
                    &&& forall|k: int|
                        old(self).next <= k < d.index ==> decide(
                            (#[trigger] old(events)@[k])@,
                            old(self).now as int,
                            *config,
                        ) == ExecutionType::NONE
                    &&& d.due == decide(old(events)@[d.index as int]@, old(self).now as int, *config)
                    &&& d.due != ExecutionType::NONE
                    &&& views(final(events)@) == views(old(events)@).update(
                        d.index as int,
                        marked(old(events)@[d.index as int]@, d.due),
                    )
                    &&& match d.script {
                        Some(s) => script_of(old(events)@[d.index as int]@, d.due) == Some(s@),
                        None => script_of(old(events)@[d.index as int]@, d.due) is None,
                    }
                    &&& final(self).next == d.index + 1
                    &&& final(self).changed
                },
                None => {
                    &&& forall|k: int|
                        old(self).next <= k < old(events).len() ==> decide(
                            (#[trigger] old(events)@[k])@,
                            old(self).now as int,
                            *config,
                        ) == ExecutionType::NONE
                    &&& final(events)@ == old(events)@
                    &&& final(self).next == old(events).len()
                    &&& final(self).changed == old(self).changed
                },
            },
    {
        let mut at: usize = self.next;
        while at < events.len()
            invariant
                old(self).next <= at <= events.len(),
                events@ == old(events)@,
                *self == *old(self),
                forall|k: int|
                    old(self).next <= k < at ==> decide(
                        (#[trigger] old(events)@[k])@,
                        old(self).now as int,
                        *config,
                    ) == ExecutionType::NONE,
            decreases events.len() - at,
        {
            let due = events[at].should_execute(&self.now, config);
            match due {
                ExecutionType::NONE => {},
                _ => {
                    let script = process_event(&mut events[at], &due);
                    self.next = at + 1;
                    self.changed = true;
                    return Some(Dispatch { index: at, due, script });
                },
            }
            at += 1;
        }
        self.next = at;
        None
    }

    /// Takes in how the script of `dispatch` ended: the event is settled, and the
    /// failure of a start or end script is kept in mind for the end of the walk. The
    /// failure of a script that accompanies an open window is not.
    pub fn report(
        &mut self,
        events: &mut Vec<Event>,
        dispatch: &Dispatch,
        outcome: Result<(), ExecutionError>,
        config: &Config,
    )
        requires
            dispatch.index < old(events).len(),
        ensures
            final(events).len() == old(events).len(),
            views(final(events)@) == views(old(events)@).update(
                dispatch.index as int,
                settled(old(events)@[dispatch.index as int]@, dispatch.due, outcome is Err, *config),
            ),
            *final(self) == (Sweep {
                failed: old(self).failed || counts_as_failure(dispatch.due, outcome is Err),
                ..*old(self)
            }),
    {
        let failed = outcome.is_err();
        let _ = settle_event(&mut events[dispatch.index], &dispatch.due, outcome, config);
        if failed {
            match dispatch.due {
                ExecutionType::START => {
                    self.failed = true;
                },
                ExecutionType::END => {
                    self.failed = true;
                },
                _ => {},
            }
        }
    }

    /// Whether the ledger is to be written now that the walk is over.
    pub fn should_persist(&self, config: &Config) -> (write: bool)
        ensures
            write == self.persists(*config),
    {
        self.changed && !(self.failed && config.skip_write_on_failure())
    }
}

} // verus!
