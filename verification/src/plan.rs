//! The plan of one day: which file serves it, which events it holds, and its ledger.

use crate::calendar::Moment;
use crate::document::parse_documents;
use crate::document::yaml_documents;
use crate::document::Node;
use crate::errors::PlanError;
use crate::errors::PlanFault;
use crate::errors::PlanNotFoundError;
use crate::event::checksum_of;
use crate::event::event_of_record;
use crate::event::views;
use crate::event::Event;
use crate::event::EventView;
use crate::event_cache::cleaned;
use crate::event_cache::ledger_date;
use crate::event_cache::ledger_rows;
use crate::event_cache::lemma_merged_keeps;
use crate::event_cache::merged;
use crate::event_cache::Cache;
use crate::event_cache::CacheView;
use crate::text::chars_of;
use crate::text::contains_chars;
use crate::text::names;
use crate::text::occurs_in;
use crate::weekday::chrono_to_string;
use crate::weekday::name_str;
use crate::weekday::weekday_name;
use std::borrow::Cow;
use vstd::prelude::*;

verus! {

/// The plan of one day.
#[derive(Debug)]
pub struct Plan {
    /// The name of the day of the week that the plan is for.
    pub weekday: Cow<'static, str>,
    /// The events of the day: those that start earlier come first.
    pub events: Vec<Event>,
    /// The ledger of the day.
    pub cache: Cache,
}

/// A plan as plain values.
pub struct PlanView {
    pub weekday: Seq<char>,
    pub events: Seq<EventView>,
    pub cache: CacheView,
}

impl View for Plan {
    type V = PlanView;

    open spec fn view(&self) -> PlanView {
        PlanView { weekday: self.weekday@, events: views(self.events@), cache: self.cache@ }
    }
}

/// The file that serves a day.
#[derive(Debug, Clone, Copy, PartialEq, Eq, Structural)]
pub struct PlanFile {
    /// Its position among the candidates.
    pub index: usize,
    /// Whether it is the file for all days, which holds the days by name.
    pub is_main: bool,
}

// ---------------------------------------------------------------------------
// Choosing the file
// ---------------------------------------------------------------------------

/// The position of the first name in which `word` occurs, or the number of names
/// where it occurs in none.
pub open spec fn first_with(names: Seq<Seq<char>>, word: Seq<char>) -> int
    decreases names.len(),
{
    if names.len() == 0 || occurs_in(word, names[0]) {
        0
    } else {
        1 + first_with(names.drop_first(), word)
    }
}

/// `first_with` points at a name with the word, and no name before it has the word.
pub proof fn lemma_first_with(names: Seq<Seq<char>>, word: Seq<char>)
    ensures
        0 <= first_with(names, word) <= names.len(),
        first_with(names, word) < names.len() ==> occurs_in(word, names[first_with(names, word)]),
        forall|i: int| 0 <= i < first_with(names, word) ==> !occurs_in(word, #[trigger] names[i]),
    decreases names.len(),
{
    if names.len() > 0 && !occurs_in(word, names[0]) {
        lemma_first_with(names.drop_first(), word);
        assert forall|i: int| 0 <= i < first_with(names, word) implies !occurs_in(
            word,
            #[trigger] names[i],
        ) by {
            if i > 0 {
                assert(names[i] == names.drop_first()[i - 1]);
            }
        }
    }
}

/// A name with the word, before which no name has the word, is where `first_with` points.
pub proof fn lemma_first_with_is(names: Seq<Seq<char>>, word: Seq<char>, k: int)
    requires
        0 <= k <= names.len(),
        k < names.len() ==> occurs_in(word, names[k]),
        forall|i: int| 0 <= i < k ==> !occurs_in(word, #[trigger] names[i]),
    ensures
        first_with(names, word) == k,
{
    lemma_first_with(names, word);
}

/// The file that serves `weekday` among the candidates: the first whose name
/// holds the name of the day; where there is none, the first whose name holds
/// `main`; where there is none either, the day has no plan.
pub open spec fn chosen_file(names: Seq<Seq<char>>, weekday: Seq<char>) -> Result<
    PlanFile,
    PlanFault,
> {
    if first_with(names, weekday) < names.len() {
        Ok(PlanFile { index: first_with(names, weekday) as usize, is_main: false })
    } else if first_with(names, "main"@) < names.len() {
        Ok(PlanFile { index: first_with(names, "main"@) as usize, is_main: true })
    } else {
        Err(PlanFault::PlanNotFound { weekday })
    }
}

/// The position of the first file in whose name `word` occurs.
fn find_with(files: &Vec<String>, word: &str) -> (at: usize)
    ensures
        at == first_with(names(files@), word@),
        at <= files.len(),
{
    let needle = chars_of(word);
    let mut i: usize = 0;
    while i < files.len()
        invariant
            i <= files.len(),
            needle@ == word@,
            forall|j: int| 0 <= j < i ==> !occurs_in(word@, #[trigger] names(files@)[j]),
        decreases files.len() - i,
    {
        let hay = chars_of(files[i].as_str());
        if contains_chars(&hay, &needle) {
            proof {
                lemma_first_with_is(names(files@), word@, i as int);
            }
            return i;
        }
        i += 1;
    }
    proof {
        lemma_first_with_is(names(files@), word@, files@.len() as int);
    }
    i
}

/// Chooses the file that serves the day `weekday` among the candidates.
pub fn select_plan_file(conf_files: &Vec<String>, weekday: &Cow<'static, str>) -> (file: Result<
    PlanFile,
    PlanError,
>)
    ensures
        match file {
            Ok(f) => chosen_file(names(conf_files@), weekday@) == Ok::<PlanFile, PlanFault>(f)
                && f.index < conf_files.len(),
            Err(error) => chosen_file(names(conf_files@), weekday@) == Err::<PlanFile, PlanFault>(
                error@,
            ),
        },
{
    let by_day = find_with(conf_files, name_str(weekday));
    if by_day < conf_files.len() {
        return Ok(PlanFile { index: by_day, is_main: false });
    }
    let by_main = find_with(conf_files, "main");
    if by_main < conf_files.len() {
        return Ok(PlanFile { index: by_main, is_main: true });
    }
    Err(
        PlanError::PlanNotFound(
            PlanNotFoundError::new(Cow::Owned(name_str(weekday).to_owned())),
        ),
    )
}

// ---------------------------------------------------------------------------
// Reading the events
// ---------------------------------------------------------------------------

/// The records of the day in the documents of a plan file. The file for all days
/// holds them in its first document under the name of the day; any other file
/// holds them as its first document. They must be a sequence.
pub open spec fn records_of(documents: Seq<Node>, weekday: Seq<char>, is_main: bool) -> Result<
    Seq<Node>,
    PlanFault,
> {
    if is_main {
        if documents.len() > 0 && documents[0].entry(weekday) is Some && documents[0].entry(
            weekday,
        )->0.items() is Some {
            Ok(documents[0].entry(weekday)->0.items()->0)
        } else {
            Err(PlanFault::RequiredAttributeMissing { attribute: weekday, weekday: "main"@ })
        }
    } else {
        if documents.len() > 0 && documents[0].items() is Some {
            Ok(documents[0].items()->0)
        } else {
            Err(PlanFault::RequiredAttributeMissing { attribute: "array of events"@, weekday })
        }
    }
}

/// An event with its digest computed.
pub open spec fn with_checksum(event: EventView) -> EventView {
    EventView {
        checksum: Some(
            checksum_of(event.start, event.end, event.execute_start, event.execute_end),
        ),
        ..event
    }
}

/// The events that the records describe, each with its digest, in the order of the
/// records; or the error of the first record that describes none.
pub open spec fn events_of_records(records: Seq<Node>, weekday: Seq<char>, day_start: int) -> Result<
    Seq<EventView>,
    PlanFault,
>
    decreases records.len(),
{
    if records.len() == 0 {
        Ok(Seq::empty())
    } else {
        match events_of_records(records.drop_last(), weekday, day_start) {
            Err(fault) => Err(fault),
            Ok(before) => match event_of_record(records.last(), weekday, day_start) {
                Err(fault) => Err(fault),
                Ok(event) => Ok(before.push(with_checksum(event))),
            },
        }
    }
}

/// Whether every event has a digest that can stand as a word in a ledger.
pub open spec fn all_wf(events: Seq<Event>) -> bool {
    forall|i: int| 0 <= i < events.len() ==> (#[trigger] events[i]).wf()
}

/// Reads the events that the records describe and computes the digest of each.
pub fn read_events(records: &Vec<Node>, weekday: &Cow<'static, str>, now: &Moment) -> (events:
    Result<Vec<Event>, PlanError>)
    ensures
        match events {
            Ok(list) => events_of_records(records@, weekday@, now.day_start()) == Ok::<
                Seq<EventView>,
                PlanFault,
            >(views(list@)) && all_wf(list@),
            Err(error) => events_of_records(records@, weekday@, now.day_start()) == Err::<
                Seq<EventView>,
                PlanFault,
            >(error@),
        },
{
    let mut list: Vec<Event> = Vec::new();
    let mut i: usize = 0;
    proof {
        assert(views(list@) =~= Seq::<EventView>::empty());
    }
    while i < records.len()
        invariant
            i <= records.len(),
            events_of_records(records@.take(i as int), weekday@, now.day_start()) == Ok::<
                Seq<EventView>,
                PlanFault,
            >(views(list@)),
            all_wf(list@),
        decreases records.len() - i,
    {
        let ghost before = list@;
        proof {
            assert(records@.take(i + 1).drop_last() =~= records@.take(i as int));
        }
        match Event::new(&records[i], weekday, now) {
            Err(error) => {
                proof {
                    lemma_events_error_stays(records@, i + 1, weekday@, now.day_start());
                }
                return Err(error);
            },
            Ok(event) => {
                let mut event = event;
                event.calculate_checksum();
                list.push(event);
                proof {
                    assert(views(list@) =~= views(before).push(event@));
                }
            },
        }
        i += 1;
    }
    proof {
        assert(records@.take(records@.len() as int) =~= records@);
    }
    Ok(list)
}

/// An error among the first records is the error of all the records.
pub proof fn lemma_events_error_stays(
    records: Seq<Node>,
    k: int,
    weekday: Seq<char>,
    day_start: int,
)
    requires
        0 <= k <= records.len(),
        events_of_records(records.take(k), weekday, day_start) is Err,
    ensures
        events_of_records(records, weekday, day_start) == events_of_records(
            records.take(k),
            weekday,
            day_start,
        ),
    decreases records.len() - k,
{
    if k == records.len() {
        assert(records.take(k) =~= records);
    } else {
        assert(records.take(k + 1).drop_last() =~= records.take(k));
        lemma_events_error_stays(records, k + 1, weekday, day_start);
    }
}

// ---------------------------------------------------------------------------
// Ordering the events
// ---------------------------------------------------------------------------

/// The position of the first of the events that does not start before `start`,
/// or their number where all start before it.
pub open spec fn lower_bound(sorted: Seq<EventView>, start: int) -> int
    decreases sorted.len(),
{
    if sorted.len() == 0 || sorted[0].start >= start {
        0
    } else {
        1 + lower_bound(sorted.drop_first(), start)
    }
}

/// The events in the order of their starts. Events with the same start keep the
/// order in which they were given.
pub open spec fn sort_by_start(events: Seq<EventView>) -> Seq<EventView>
    decreases events.len(),
{
    if events.len() == 0 {
        events
    } else {
        let rest = sort_by_start(events.drop_first());
        rest.insert(lower_bound(rest, events[0].start), events[0])
    }
}

/// Whether no event starts before one that stands before it.
pub open spec fn ascending(events: Seq<EventView>) -> bool {
    forall|i: int, j: int| 0 <= i <= j < events.len() ==> events[i].start <= events[j].start
}

/// `lower_bound` is a position of the sequence; all before it start earlier, and
/// the event at it does not.
pub proof fn lemma_lower_bound(sorted: Seq<EventView>, start: int)
    ensures
        0 <= lower_bound(sorted, start) <= sorted.len(),
        forall|i: int| 0 <= i < lower_bound(sorted, start) ==> (#[trigger] sorted[i]).start < start,
        lower_bound(sorted, start) < sorted.len() ==> sorted[lower_bound(sorted, start)].start
            >= start,
    decreases sorted.len(),
{
    if sorted.len() > 0 && sorted[0].start < start {
        lemma_lower_bound(sorted.drop_first(), start);
        assert forall|i: int| 0 <= i < lower_bound(sorted, start) implies (#[trigger] sorted[i]).start
            < start by {
            if i > 0 {
                assert(sorted[i] == sorted.drop_first()[i - 1]);
            }
        }
    }
}

/// A position before which all start earlier, and at which the event does not, is the
/// lower bound.
pub proof fn lemma_lower_bound_is(sorted: Seq<EventView>, start: int, k: int)
    requires
        0 <= k <= sorted.len(),
        forall|i: int| 0 <= i < k ==> (#[trigger] sorted[i]).start < start,
        k < sorted.len() ==> sorted[k].start >= start,
    ensures
        lower_bound(sorted, start) == k,
{
    lemma_lower_bound(sorted, start);
}

/// The sorted events are the given events in another order, and none of them
/// starts before one that stands before it.
pub proof fn lemma_sort_by_start(events: Seq<EventView>)
    ensures
        sort_by_start(events).len() == events.len(),
        ascending(sort_by_start(events)),
        sort_by_start(events).to_multiset() == events.to_multiset(),
    decreases events.len(),
{
    if events.len() > 0 {
        let rest = sort_by_start(events.drop_first());
        let first = events[0];
        let at = lower_bound(rest, first.start);
        lemma_sort_by_start(events.drop_first());
        lemma_lower_bound(rest, first.start);
        let all = rest.insert(at, first);
        assert forall|i: int, j: int| 0 <= i <= j < all.len() implies all[i].start
            <= all[j].start by {}
        assert(all.remove(at) =~= rest);
        vstd::seq_lib::to_multiset_remove(all, at);
        vstd::seq_lib::to_multiset_remove(events, 0);
        all.to_multiset_ensures();
        events.to_multiset_ensures();
        assert(all.to_multiset() =~= all.to_multiset().remove(first).insert(first));
    }
}

/// Events that are in the order of their starts already are left as they are: the
/// order among events with the same start is kept.
pub proof fn lemma_sort_keeps_sorted(events: Seq<EventView>)
    requires
        ascending(events),
    ensures
        sort_by_start(events) == events,
    decreases events.len(),
{
    if events.len() > 0 {
        let rest = events.drop_first();
        assert forall|i: int, j: int| 0 <= i <= j < rest.len() implies rest[i].start
            <= rest[j].start by {}
        lemma_sort_keeps_sorted(rest);
    }
}

/// Whether an event starts at the instant `start`.
pub open spec fn starts_at(start: int) -> spec_fn(EventView) -> bool {
    |event: EventView| event.start == start
}

/// The events that start at one instant stand in the sorted sequence in the order in
/// which they were given.
pub proof fn lemma_sort_is_stable(events: Seq<EventView>, start: int)
    ensures
        sort_by_start(events).filter(starts_at(start)) == events.filter(starts_at(start)),
    decreases events.len(),
{
    let p = starts_at(start);
    if events.len() > 0 {
        let first = events[0];
        let tail = events.drop_first();
        let rest = sort_by_start(tail);
        let at = lower_bound(rest, first.start);
        lemma_sort_is_stable(tail, start);
        lemma_lower_bound(rest, first.start);
        let head = rest.take(at);
        let back = rest.skip(at);
        assert(rest =~= head + back);
        assert(rest.insert(at, first) =~= head + (seq![first] + back));
        assert(events =~= seq![first] + tail);
        Seq::filter_distributes_over_add(head, back, p);
        Seq::filter_distributes_over_add(head, seq![first] + back, p);
        back.lemma_filter_prepend(first, p);
        tail.lemma_filter_prepend(first, p);
        if p(first) {
            assert forall|i: int| 0 <= i < head.len() implies !p(#[trigger] head[i]) by {}
            head.lemma_all_neg_filter_empty(p);
        }
    }
}

/// Puts the events in the order of their starts; events with the same start keep
/// their order.
pub fn sort_events(events: Vec<Event>) -> (sorted: Vec<Event>)
    ensures
        views(sorted@) == sort_by_start(views(events@)),
        ascending(views(sorted@)),
        sorted.len() == events.len(),
        all_wf(events@) ==> all_wf(sorted@),
{
    let ghost given = events@;
    let mut rest = events;
    let mut sorted: Vec<Event> = Vec::new();
    loop
        invariant
            given == events@,
            rest.len() <= given.len(),
            rest@ == given.take(rest.len() as int),
            views(sorted@) == sort_by_start(views(given).skip(rest.len() as int)),
            sorted.len() == given.len() - rest.len(),
            all_wf(given) ==> all_wf(sorted@),
        decreases rest.len(),
    {
        let ghost prior = rest@;
        match rest.pop() {
            None => {
                proof {
                    assert(views(given).skip(0) =~= views(given));
                    lemma_sort_by_start(views(given));
                }
                return sorted;
            },
            Some(event) => {
                let ghost tail = views(given).skip(prior.len() as int);
                let ghost longer = views(given).skip(prior.len() - 1);
                proof {
                    assert(longer.drop_first() =~= tail);
                }
                let mut at: usize = 0;
                while at < sorted.len() && sorted[at].start < event.start
                    invariant
                        at <= sorted.len(),
                        forall|i: int| 0 <= i < at ==> (#[trigger] views(sorted@)[i]).start
                            < event@.start,
                    decreases sorted.len() - at,
                {
                    at += 1;
                }
                proof {
                    lemma_lower_bound_is(views(sorted@), event@.start, at as int);
                }
                sorted.insert(at, event);
                proof {
                    if all_wf(given) {
                        assert forall|i: int| 0 <= i < sorted@.len() implies (#[trigger] sorted@[i]).wf() by {}
                    }
                }
            },
        }
    }
}

// ---------------------------------------------------------------------------
// The plan
// ---------------------------------------------------------------------------

/// The plan that is made of the documents of a plan file and of the text of the
/// ledger, at the moment `now`.
///
/// The events are read from the records of the day, put in the order of their starts,
/// and given the flags that the ledger holds for them, once the ledger is brought to
/// the day of `now`.
pub open spec fn plan_of(
    now: Moment,
    documents: Seq<Node>,
    is_main: bool,
    ledger: Seq<char>,
) -> Result<PlanView, PlanFault> {
    let weekday = weekday_name(now.weekday);
    match records_of(documents, weekday, is_main) {
        Err(fault) => Err(fault),
        Ok(records) => match events_of_records(records, weekday, now.day_start()) {
            Err(fault) => Err(fault),
            Ok(events) => match ledger_date(ledger) {
                None => Err(PlanFault::CacheHeader),
                Some(date) => {
                    let cache = cleaned(CacheView { date, content: ledger }, now.date@);
                    match ledger_rows(cache.content) {
                        None => Err(PlanFault::CacheRow),
                        Some(rows) => Ok(
                            PlanView {
                                weekday,
                                events: merged(sort_by_start(events), rows),
                                cache,
                            },
                        ),
                    }
                },
            },
        },
    }
}

/// The view of what a function answers that makes a plan or fails.
pub open spec fn plan_view(plan: Result<Plan, PlanError>) -> Result<PlanView, PlanFault> {
    match plan {
        Ok(p) => Ok(p@),
        Err(error) => Err(error@),
    }
}

/// Finds the records of the day in the documents of a plan file.
pub fn find_records<'a>(
    documents: &'a Vec<Node>,
    weekday: &Cow<'static, str>,
    is_main: bool,
) -> (records: Result<&'a Vec<Node>, PlanError>)
    ensures
        match records {
            Ok(list) => records_of(documents@, weekday@, is_main) == Ok::<Seq<Node>, PlanFault>(
                list@,
            ),
            Err(error) => records_of(documents@, weekday@, is_main) == Err::<
                Seq<Node>,
                PlanFault,
            >(error@),
        },
{
    let day = name_str(weekday);
    if is_main {
        if documents.len() > 0 {
            match documents[0].get(day) {
                Some(node) => match node.as_vec() {
                    Some(list) => {
                        return Ok(list);
                    },
                    None => {},
                },
                None => {},
            }
        }
        Err(PlanError::missing(day, "main"))
    } else {
        if documents.len() > 0 {
            match documents[0].as_vec() {
                Some(list) => {
                    return Ok(list);
                },
                None => {},
            }
        }
        Err(PlanError::missing("array of events", day))
    }
}

/// Makes the plan of the day of `time_now` from the documents of the plan file
/// and the text of the ledger.
pub fn plan_of_documents(
    time_now: &Moment,
    documents: &Vec<Node>,
    is_main: bool,
    ledger: String,
) -> (plan: Result<Plan, PlanError>)
    ensures
        plan_view(plan) == plan_of(*time_now, documents@, is_main, ledger@),
        plan matches Ok(p) ==> ascending(p@.events) && all_wf(p.events@),
{
    let weekday = chrono_to_string(&time_now.weekday);
    let records = match find_records(documents, &weekday, is_main) {
        Err(error) => {
            return Err(error);
        },
        Ok(records) => records,
    };
    let events = match read_events(records, &weekday, time_now) {
        Err(error) => {
            return Err(error);
        },
        Ok(events) => events,
    };
    let mut events = sort_events(events);
    let ghost sorted = events@;
    let mut cache = match Cache::initial_read_cache(ledger) {
        Err(error) => {
            return Err(PlanError::Cache(error));
        },
        Ok(cache) => cache,
    };
    cache.cleanup(&time_now.date);
    match cache.full_read_cache(&mut events) {
        Err(error) => {
            return Err(PlanError::Cache(error));
        },
        Ok(_) => {},
    }
    proof {
        let rows = ledger_rows(cache@.content)->0;
        lemma_merged_keeps(views(sorted), rows);
        assert forall|i: int, j: int| 0 <= i <= j < events.len() implies views(events@)[i].start
            <= views(events@)[j].start by {}
        assert forall|i: int| 0 <= i < events@.len() implies (#[trigger] events@[i]).wf() by {
            assert(views(events@)[i].checksum == views(sorted)[i].checksum);
        }
    }
    Ok(Plan { weekday, events, cache })
}

/// Makes the plan of the day of `time_now` from the text of the plan file and the
/// text of the ledger.
pub fn get_plan(time_now: &Moment, plan_text: &str, is_main: bool, ledger: String) -> (plan: Result<
    Plan,
    PlanError,
>)
    ensures
        match yaml_documents(plan_text@) {
            Some(documents) => plan_view(plan) == plan_of(*time_now, documents, is_main, ledger@),
            None => plan_view(plan) == Err::<PlanView, PlanFault>(PlanFault::Syntax),
        },
        plan matches Ok(p) ==> ascending(p@.events) && all_wf(p.events@),
{
    match parse_documents(plan_text) {
        Err(error) => Err(PlanError::Syntax(error)),
        Ok(documents) => plan_of_documents(time_now, &documents, is_main, ledger),
    }
}

} // verus!
