//! The ledger of one day: which events have had their scripts run.
//!
//! The ledger is a text. Its first line is the day it is valid for; each line after
//! it holds the digest of an event and two flags, with one blank between them. A
//! `Cache` is that text in memory, together with the day read from its first line.
//! Reading and writing the file is left to the caller.

use crate::digest::is_word;
use crate::calendar::parsed_date;
use crate::calendar::unwritten;
use crate::calendar::Date;
use crate::calendar::DateView;
use crate::errors::CacheError;
use crate::event::views;
use crate::event::Event;
use crate::event::EventView;
use crate::text::chars_of;
use crate::text::copy_range;
use crate::text::find_from;
use crate::text::index_of;
use crate::text::lemma_index_of_is;
use crate::text::same_chars;
use crate::text::split;
use crate::text::split_chars;
use crate::text::string_of;
use crate::text::texts;
use vstd::prelude::*;

verus! {

/// One line of a ledger after the first, as plain values.
pub struct Row {
    pub checksum: Seq<char>,
    pub executed: (bool, bool),
}

/// One line of a ledger after the first.
#[derive(Debug)]
pub struct Entry {
    pub checksum: String,
    pub executed: (bool, bool),
}

impl View for Entry {
    type V = Row;

    open spec fn view(&self) -> Row {
        Row { checksum: self.checksum@, executed: self.executed }
    }
}

/// The rows that a sequence of entries holds.
pub open spec fn rows(entries: Seq<Entry>) -> Seq<Row> {
    Seq::new(entries.len(), |i: int| entries[i]@)
}

/// A ledger as plain values.
pub struct CacheView {
    pub date: DateView,
    pub content: Seq<char>,
}

/// A ledger in memory.
#[derive(Debug)]
pub struct Cache {
    date: Date,
    content: String,
}

impl View for Cache {
    type V = CacheView;

    closed spec fn view(&self) -> CacheView {
        CacheView { date: self.date@, content: self.content@ }
    }
}

// ---------------------------------------------------------------------------
// The text of a ledger
// ---------------------------------------------------------------------------

/// A line without the carriage return that may end it.
pub open spec fn strip_cr(line: Seq<char>) -> Seq<char> {
    if line.len() > 0 && line.last() == '\r' {
        line.drop_last()
    } else {
        line
    }
}

/// The lines of a text. A line ends at a line feed; a carriage return before the
/// line feed is not part of the line. What follows the last line feed is a line
/// of its own unless it is empty.
pub open spec fn lines(text: Seq<char>) -> Seq<Seq<char>>
    decreases text.len(),
{
    if text.len() == 0 {
        Seq::empty()
    } else {
        let k = index_of(text, '\n');
        if 0 <= k < text.len() {
            seq![strip_cr(text.take(k))] + lines(text.skip(k + 1))
        } else {
            seq![text]
        }
    }
}

/// The flag that a word stands for: `true` for the word `true`, `false` for any other.
pub open spec fn flag_of(word: Seq<char>) -> bool {
    word == "true"@
}

/// The word that stands for a flag.
pub open spec fn flag_text(flag: bool) -> Seq<char> {
    if flag {
        "true"@
    } else {
        "false"@
    }
}

/// The row that a line holds: its first three words, taken apart at single blanks.
/// `None` where the line has fewer than three words.
pub open spec fn row_of_line(line: Seq<char>) -> Option<Row> {
    let words = split(line, ' ');
    if words.len() >= 3 {
        Some(Row { checksum: words[0], executed: (flag_of(words[1]), flag_of(words[2])) })
    } else {
        None
    }
}

/// The rows that lines hold, up to the first empty line or the end. `None` where
/// one of these lines holds no row.
pub open spec fn rows_of_lines(lines: Seq<Seq<char>>) -> Option<Seq<Row>>
    decreases lines.len(),
{
    if lines.len() == 0 || lines[0].len() == 0 {
        Some(Seq::empty())
    } else {
        match (row_of_line(lines[0]), rows_of_lines(lines.drop_first())) {
            (Some(row), Some(rest)) => Some(seq![row] + rest),
            _ => None,
        }
    }
}

/// The rows of a ledger: those of the lines after the first.
pub open spec fn ledger_rows(content: Seq<char>) -> Option<Seq<Row>> {
    if lines(content).len() == 0 {
        Some(Seq::empty())
    } else {
        rows_of_lines(lines(content).drop_first())
    }
}

/// The day of a ledger: the one its first line names, or `unwritten()` where the
/// ledger is empty. `None` where the first line names no day.
pub open spec fn ledger_date(content: Seq<char>) -> Option<DateView> {
    if lines(content).len() == 0 {
        Some(unwritten())
    } else {
        parsed_date(lines(content)[0])
    }
}

/// The line that records an event, with the line feed that ends it; empty for an
/// event without a digest.
pub open spec fn row_line(event: EventView) -> Seq<char> {
    match event.checksum {
        Some(digest) => digest + seq![' '] + flag_text(event.executed.0) + seq![' '] + flag_text(
            event.executed.1,
        ) + seq!['\n'],
        None => Seq::empty(),
    }
}

/// The lines that record the events, in their order.
pub open spec fn rows_text(events: Seq<EventView>) -> Seq<char>
    decreases events.len(),
{
    if events.len() == 0 {
        Seq::empty()
    } else {
        rows_text(events.drop_last()) + row_line(events.last())
    }
}

/// The text of a ledger: the day on the first line, then the events.
pub open spec fn ledger_text(date: Seq<char>, events: Seq<EventView>) -> Seq<char> {
    date + seq!['\n'] + rows_text(events)
}

// ---------------------------------------------------------------------------
// Merging rows into events
// ---------------------------------------------------------------------------

/// The events after one row is merged: every event with the digest of the row
/// has the flags of the row.
pub open spec fn apply_row(events: Seq<EventView>, row: Row) -> Seq<EventView> {
    Seq::new(
        events.len(),
        |i: int|
            if events[i].checksum == Some(row.checksum) {
                EventView { executed: row.executed, ..events[i] }
            } else {
                events[i]
            },
    )
}

/// The events after the rows are merged, one after the other.
pub open spec fn merged(events: Seq<EventView>, rows: Seq<Row>) -> Seq<EventView>
    decreases rows.len(),
{
    if rows.len() == 0 {
        events
    } else {
        merged(apply_row(events, rows[0]), rows.drop_first())
    }
}

/// The ledger after it is brought to the day `today`: unchanged where it is of
/// that day, else emptied but for the day.
pub open spec fn cleaned(cache: CacheView, today: DateView) -> CacheView {
    if cache.date.year == today.year && cache.date.month == today.month && cache.date.day
        == today.day {
        cache
    } else {
        CacheView { date: today, content: today.text }
    }
}

// ---------------------------------------------------------------------------
// Reading
// ---------------------------------------------------------------------------

/// The lines of a text.
pub fn lines_of(v: &Vec<char>) -> (out: Vec<Vec<char>>)
    ensures
        texts(out@) == lines(v@),
{
    let mut out: Vec<Vec<char>> = Vec::new();
    let mut pos: usize = 0;
    proof {
        assert(v@.skip(0) =~= v@);
    }
    while pos < v.len()
        invariant
            pos <= v.len(),
            texts(out@) + lines(v@.skip(pos as int)) == lines(v@),
        decreases v.len() - pos,
    {
        let ghost rest = v@.skip(pos as int);
        let at = find_from(v, pos, '\n');
        if at == v.len() {
            let line = copy_range(v, pos, at);
            out.push(line);
            pos = at;
        } else {
            let end: usize = if at > pos && v[at - 1] == '\r' {
                at - 1
            } else {
                at
            };
            let line = copy_range(v, pos, end);
            out.push(line);
            proof {
                let raw = rest.take(at - pos);
                assert(strip_cr(raw) =~= v@.subrange(pos as int, end as int));
                assert(rest.skip(at - pos + 1) =~= v@.skip(at + 1));
            }
            pos = at + 1;
        }
    }
    out
}

/// The row that a line holds.
pub fn entry_of_line(line: &Vec<char>) -> (entry: Option<Entry>)
    ensures
        match entry {
            Some(e) => row_of_line(line@) == Some(e@),
            None => row_of_line(line@) is None,
        },
{
    let words = split_chars(line, ' ');
    if words.len() < 3 {
        return None;
    }
    let yes = chars_of("true");
    let checksum = string_of(&words[0]);
    let first = same_chars(&words[1], &yes);
    let second = same_chars(&words[2], &yes);
    Some(Entry { checksum, executed: (first, second) })
}

/// The rows that the lines from the second on hold.
fn entries_of_lines(all: &Vec<Vec<char>>) -> (entries: Option<Vec<Entry>>)
    requires
        all.len() > 0,
    ensures
        match entries {
            Some(list) => rows_of_lines(texts(all@).drop_first()) == Some(rows(list@)),
            None => rows_of_lines(texts(all@).drop_first()) is None,
        },
{
    let ghost goal = rows_of_lines(texts(all@).drop_first());
    let mut list: Vec<Entry> = Vec::new();
    let mut i: usize = 1;
    while i < all.len()
        invariant
            1 <= i <= all.len(),
            goal == rows_of_lines(texts(all@).drop_first()),
            goal == match rows_of_lines(texts(all@).skip(i as int)) {
                Some(rest) => Some(rows(list@) + rest),
                None => None,
            },
        decreases all.len() - i,
    {
        let ghost tail = texts(all@).skip(i as int);
        proof {
            assert(tail.drop_first() =~= texts(all@).skip(i + 1));
        }
        if all[i].len() == 0 {
            return Some(list);
        }
        match entry_of_line(&all[i]) {
            None => {
                return None;
            },
            Some(entry) => {
                list.push(entry);
            },
        }
        i += 1;
    }
    Some(list)
}

/// Gives every event that has the digest of `entry` the flags of `entry`.
fn apply_entry(events: &mut Vec<Event>, entry: &Entry)
    ensures
        views(final(events)@) == apply_row(views(old(events)@), entry@),
        final(events).len() == old(events).len(),
{
    let ghost start = views(events@);
    let mut i: usize = 0;
    while i < events.len()
        invariant
            i <= events.len(),
            events.len() == start.len(),
            forall|j: int| 0 <= j < i ==> events@[j]@ == apply_row(start, entry@)[j],
            forall|j: int| i <= j < events.len() ==> events@[j]@ == start[j],
        decreases events.len() - i,
    {
        let same = match &events[i].checksum {
            Some(digest) => *digest == entry.checksum,
            None => false,
        };
        if same {
            events[i].executed = (entry.executed.0, entry.executed.1);
        }
        i += 1;
    }
}

impl Cache {
    /// Takes up a ledger as it was read from its file. The day is read from the
    /// first line; an empty ledger has the day `unwritten()`.
    pub fn initial_read_cache(content: String) -> (cache: Result<Self, CacheError>)
        ensures
            match cache {
                Ok(c) => ledger_date(content@) == Some(c@.date) && c@.content == content@,
                Err(error) => ledger_date(content@) is None && error is Header,
            },
    {
        let chars = chars_of(content.as_str());
        let all = lines_of(&chars);
        if all.len() == 0 {
            return Ok(Cache { date: Date::unwritten(), content });
        }
        let first = string_of(&all[0]);
        match Date::parse(first.as_str()) {
            Ok(date) => Ok(Cache { date, content }),
            Err(error) => Err(CacheError::Header(error)),
        }
    }

    /// Brings the ledger to the day `time_now`. A ledger of that day is left as it
    /// is; any other is emptied and holds the new day alone. The answer says
    /// whether the ledger was emptied, so that its file is written anew.
    pub fn cleanup(&mut self, time_now: &Date) -> (emptied: bool)
        ensures
            final(self)@ == cleaned(old(self)@, time_now@),
            emptied == (final(self)@ != old(self)@),
    {
        if self.date.same_day(time_now) {
            return false;
        }
        self.date = time_now.clone();
        self.content = time_now.to_string();
        true
    }

    /// Merges the rows of the ledger into the events: every event whose digest
    /// stands in a row takes the flags of that row, later rows after earlier ones.
    /// Where a row cannot be read, the events are left as they were.
    pub fn full_read_cache(&self, event_list: &mut Vec<Event>) -> (done: Result<(), CacheError>)
        ensures
            match done {
                Ok(_) => ledger_rows(self@.content) matches Some(rows) && views(
                    final(event_list)@,
                ) == merged(views(old(event_list)@), rows),
                Err(error) => ledger_rows(self@.content) is None && error is Row
                    && final(event_list)@ == old(event_list)@,
            },
            final(event_list).len() == old(event_list).len(),
    {
        let chars = chars_of(self.content.as_str());
        let all = lines_of(&chars);
        if all.len() == 0 {
            return Ok(());
        }
        let entries = match entries_of_lines(&all) {
            None => {
                return Err(CacheError::Row);
            },
            Some(entries) => entries,
        };
        let ghost goal = merged(views(event_list@), rows(entries@));
        let mut r: usize = 0;
        proof {
            assert(rows(entries@).skip(0) =~= rows(entries@));
        }
        while r < entries.len()
            invariant
                r <= entries.len(),
                event_list.len() == old(event_list).len(),
                merged(views(event_list@), rows(entries@).skip(r as int)) == goal,
            decreases entries.len() - r,
        {
            proof {
                let rest = rows(entries@).skip(r as int);
                assert(rest.drop_first() =~= rows(entries@).skip(r + 1));
            }
            apply_entry(event_list, &entries[r]);
            r += 1;
        }
        Ok(())
    }

    /// Writes the ledger anew from the events: the day, then one line for every event
    /// that has a digest. The answer is the new text, for the ledger's file.
    pub fn write(&mut self, event_list: &Vec<Event>) -> (text: String)
        ensures
            final(self)@.date == old(self)@.date,
            final(self)@.content == ledger_text(old(self)@.date.text, views(event_list@)),
            text@ == final(self)@.content,
    {
        let mut text = self.date.to_string();
        text.push('\n');
        let ghost head = text@;
        let mut i: usize = 0;
        while i < event_list.len()
            invariant
                i <= event_list.len(),
                text@ == head + rows_text(views(event_list@).take(i as int)),
            decreases event_list.len() - i,
        {
            let ghost before = text@;
            let ghost longer = views(event_list@).take(i + 1);
            proof {
                assert(longer.drop_last() =~= views(event_list@).take(i as int));
                assert(longer.last() == event_list@[i as int]@);
            }
            let event = &event_list[i];
            match &event.checksum {
                Some(digest) => {
                    text.append(digest.as_str());
                    text.push(' ');
                    text.append(if event.executed.0 {
                        "true"
                    } else {
                        "false"
                    });
                    text.push(' ');
                    text.append(if event.executed.1 {
                        "true"
                    } else {
                        "false"
                    });
                    text.push('\n');
                    proof {
                        assert(text@ =~= before + row_line(event@));
                    }
                },
                None => {},
            }
            i += 1;
        }
        proof {
            assert(views(event_list@).take(event_list@.len() as int) =~= views(event_list@));
        }
        self.content = text.clone();
        text
    }

    /// The day the ledger is valid for.
    pub fn date(&self) -> (date: &Date)
        ensures
            date@ == self@.date,
    {
        &self.date
    }

    /// The text of the ledger.
    pub fn content(&self) -> (content: &str)
        ensures
            content@ == self@.content,
    {
        self.content.as_str()
    }
}

// ---------------------------------------------------------------------------
// What holds of ledgers
// ---------------------------------------------------------------------------

/// Bringing a ledger to a day a second time changes nothing.
pub proof fn lemma_cleanup_idempotent(cache: CacheView, today: DateView)
    ensures
        cleaned(cleaned(cache, today), today) == cleaned(cache, today),
{
}

/// The rows that the events are recorded as: one for every event with a digest.
pub open spec fn rows_of_events(events: Seq<EventView>) -> Seq<Row>
    decreases events.len(),
{
    if events.len() == 0 {
        Seq::empty()
    } else {
        match events[0].checksum {
            Some(digest) => seq![Row { checksum: digest, executed: events[0].executed }]
                + rows_of_events(events.drop_first()),
            None => rows_of_events(events.drop_first()),
        }
    }
}

/// The lines of the events begin with the line of the first event.
pub proof fn lemma_rows_text_front(events: Seq<EventView>)
    requires
        events.len() > 0,
    ensures
        rows_text(events) == row_line(events[0]) + rows_text(events.drop_first()),
    decreases events.len(),
{
    if events.len() == 1 {
        assert(events.drop_last() =~= Seq::<EventView>::empty());
        assert(events.drop_first() =~= Seq::<EventView>::empty());
    } else {
        let shorter = events.drop_last();
        lemma_rows_text_front(shorter);
        assert(shorter.drop_first() =~= events.drop_first().drop_last());
    }
}

/// A text that begins with a line and its line feed has that line first.
pub proof fn lemma_lines_front(line: Seq<char>, rest: Seq<char>)
    requires
        !line.contains('\n'),
    ensures
        lines(line + seq!['\n'] + rest) == seq![strip_cr(line)] + lines(rest),
{
    let text = line + seq!['\n'] + rest;
    let k = line.len() as int;
    assert forall|i: int| 0 <= i < k implies text[i] != '\n' by {}
    lemma_index_of_is(text, '\n', k);
    assert(text.take(k) =~= line);
    assert(text.skip(k + 1) =~= rest);
}

/// A text that begins with a word and a blank has that word first.
pub proof fn lemma_split_front(word: Seq<char>, rest: Seq<char>)
    requires
        !word.contains(' '),
    ensures
        split(word + seq![' '] + rest, ' ') == seq![word] + split(rest, ' '),
{
    let text = word + seq![' '] + rest;
    let k = word.len() as int;
    assert forall|i: int| 0 <= i < k implies text[i] != ' ' by {}
    lemma_index_of_is(text, ' ', k);
    assert(text.take(k) =~= word);
    assert(text.skip(k + 1) =~= rest);
}

/// A text without a blank is one word.
pub proof fn lemma_split_word(word: Seq<char>)
    requires
        !word.contains(' '),
    ensures
        split(word, ' ') == seq![word],
{
    assert forall|i: int| 0 <= i < word.len() implies word[i] != ' ' by {}
    lemma_index_of_is(word, ' ', word.len() as int);
}

/// The word of a flag holds no blank, no line break and no carriage return,
/// and stands for that flag.
pub proof fn lemma_flag_text(flag: bool)
    ensures
        !flag_text(flag).contains(' '),
        !flag_text(flag).contains('\n'),
        flag_text(flag).len() > 0,
        flag_text(flag).last() != '\r',
        flag_of(flag_text(flag)) == flag,
{
    reveal_strlit("true");
    reveal_strlit("false");
}

/// The line of an event with a digest that is a word reads back as the row of that event.
pub proof fn lemma_row_line_reads_back(event: EventView)
    requires
        event.checksum is Some,
        is_word(event.checksum->0),
    ensures
        row_line(event) == row_body(event) + seq!['\n'],
        !row_body(event).contains('\n'),
        row_body(event).len() > 0,
        strip_cr(row_body(event)) == row_body(event),
        row_of_line(row_body(event)) == Some(
            Row { checksum: event.checksum->0, executed: event.executed },
        ),
{
    let digest = event.checksum->0;
    let first = flag_text(event.executed.0);
    let second = flag_text(event.executed.1);
    let body = row_body(event);
    lemma_flag_text(event.executed.0);
    lemma_flag_text(event.executed.1);
    assert forall|i: int| 0 <= i < body.len() implies body[i] != '\n' by {}
    let tail = first + seq![' '] + second;
    assert(body =~= digest + seq![' '] + tail);
    lemma_split_front(digest, tail);
    lemma_split_front(first, second);
    lemma_split_word(second);
}

/// The line of an event with a digest, without the line feed that ends it.
pub open spec fn row_body(event: EventView) -> Seq<char> {
    event.checksum->0 + seq![' '] + flag_text(event.executed.0) + seq![' '] + flag_text(
        event.executed.1,
    )
}

/// The lines that record events whose digests are words read back as the rows of
/// those events.
pub proof fn lemma_rows_read_back(events: Seq<EventView>)
    requires
        forall|i: int|
            0 <= i < events.len() ==> ((#[trigger] events[i]).checksum matches Some(digest)
                ==> is_word(digest)),
    ensures
        rows_of_lines(lines(rows_text(events))) == Some(rows_of_events(events)),
    decreases events.len(),
{
    if events.len() > 0 {
        let rest = events.drop_first();
        assert forall|i: int| 0 <= i < rest.len() implies ((#[trigger] rest[i]).checksum matches Some(
            digest,
        ) ==> is_word(digest)) by {}
        lemma_rows_read_back(rest);
        lemma_rows_text_front(events);
        if events[0].checksum is Some {
            lemma_row_line_reads_back(events[0]);
            lemma_lines_front(row_body(events[0]), rows_text(rest));
            assert(lines(rows_text(events)).drop_first() =~= lines(rows_text(rest)));
        }
    }
}

/// Merging rows changes nothing of an event but its flags, and leaves an event
/// without a digest as it is.
pub proof fn lemma_merged_keeps(events: Seq<EventView>, rows: Seq<Row>)
    ensures
        merged(events, rows).len() == events.len(),
        forall|i: int|
            0 <= i < events.len() ==> (#[trigger] merged(events, rows)[i]) == (EventView {
                executed: merged(events, rows)[i].executed,
                ..events[i]
            }),
        forall|i: int|
            0 <= i < events.len() && events[i].checksum is None ==> (#[trigger] merged(
                events,
                rows,
            )[i]) == events[i],
    decreases rows.len(),
{
    if rows.len() > 0 {
        lemma_merged_keeps(apply_row(events, rows[0]), rows.drop_first());
    }
}

/// Where every row with the digest of an event holds the same flags, and there is
/// such a row or the event has those flags already, the event has them after the merge.
pub proof fn lemma_merged_flags(
    events: Seq<EventView>,
    rows: Seq<Row>,
    i: int,
    flags: (bool, bool),
)
    requires
        0 <= i < events.len(),
        events[i].checksum is Some,
        forall|k: int|
            0 <= k < rows.len() && (#[trigger] rows[k]).checksum == events[i].checksum->0
                ==> rows[k].executed == flags,
        events[i].executed == flags || exists|k: int|
            0 <= k < rows.len() && (#[trigger] rows[k]).checksum == events[i].checksum->0,
    ensures
        merged(events, rows).len() == events.len(),
        merged(events, rows)[i].executed == flags,
    decreases rows.len(),
{
    lemma_merged_keeps(events, rows);
    if rows.len() > 0 {
        let next = apply_row(events, rows[0]);
        let rest = rows.drop_first();
        assert forall|k: int|
            0 <= k < rest.len() && (#[trigger] rest[k]).checksum == next[i].checksum->0 implies rest[k].executed
            == flags by {}
        if next[i].executed != flags {
            let k = choose|k: int|
                0 <= k < rows.len() && (#[trigger] rows[k]).checksum == events[i].checksum->0;
            assert(rest[k - 1] == rows[k]);
        }
        lemma_merged_flags(next, rest, i, flags);
    }
}

/// Where every event with a digest has the same flags, so has every row with that digest.
pub proof fn lemma_rows_flags(events: Seq<EventView>, digest: Seq<char>, flags: (bool, bool))
    requires
        forall|j: int|
            0 <= j < events.len() && (#[trigger] events[j]).checksum == Some(digest)
                ==> events[j].executed == flags,
    ensures
        forall|k: int|
            0 <= k < rows_of_events(events).len() && (#[trigger] rows_of_events(
                events,
            )[k]).checksum == digest ==> rows_of_events(events)[k].executed == flags,
    decreases events.len(),
{
    if events.len() > 0 {
        let rest = events.drop_first();
        assert forall|j: int|
            0 <= j < rest.len() && (#[trigger] rest[j]).checksum == Some(digest) implies rest[j].executed
            == flags by {}
        lemma_rows_flags(rest, digest, flags);
        let all = rows_of_events(events);
        let less = rows_of_events(rest);
        assert forall|k: int|
            0 <= k < all.len() && (#[trigger] all[k]).checksum == digest implies all[k].executed
            == flags by {
            if events[0].checksum is Some && k > 0 {
                assert(all[k] == less[k - 1]);
            }
        }
    }
}

/// An event with a digest has a row with that digest: the answer is its position.
pub proof fn lemma_row_of_event(events: Seq<EventView>, j: int) -> (k: int)
    requires
        0 <= j < events.len(),
        events[j].checksum is Some,
    ensures
        0 <= k < rows_of_events(events).len(),
        rows_of_events(events)[k].checksum == events[j].checksum->0,
    decreases events.len(),
{
    if j == 0 {
        0
    } else {
        let rest = events.drop_first();
        let inner = lemma_row_of_event(rest, j - 1);
        if events[0].checksum is Some {
            inner + 1
        } else {
            inner
        }
    }
}

/// A ledger that is written from events and merged into the same events as they
/// are read anew gives each of them the flags it had.
///
/// This holds where the written day is on one line, as that of every `Date` is,
/// where the digests are words, as those that `calculate_checksum` gives are, and
/// where events with one digest have the same flags. An event without a digest has
/// no line and stays as it was read.
pub proof fn lemma_ledger_round_trip(
    date: Seq<char>,
    events: Seq<EventView>,
    fresh: Seq<EventView>,
)
    requires
        !date.contains('\n'),
        forall|i: int|
            0 <= i < events.len() ==> ((#[trigger] events[i]).checksum matches Some(digest)
                ==> is_word(digest)),
        forall|i: int, j: int|
            0 <= i < events.len() && 0 <= j < events.len() && (#[trigger] events[i]).checksum
                is Some && events[i].checksum == (#[trigger] events[j]).checksum
                ==> events[i].executed == events[j].executed,
        fresh.len() == events.len(),
        forall|i: int|
            0 <= i < events.len() ==> (#[trigger] fresh[i]).checksum == events[i].checksum,
    ensures
        ledger_rows(ledger_text(date, events)) == Some(rows_of_events(events)),
        merged(fresh, rows_of_events(events)).len() == events.len(),
        forall|i: int|
            0 <= i < events.len() && events[i].checksum is Some ==> (#[trigger] merged(
                fresh,
                rows_of_events(events),
            )[i]) == (EventView { executed: events[i].executed, ..fresh[i] }),
        forall|i: int|
            0 <= i < events.len() && events[i].checksum is None ==> (#[trigger] merged(
                fresh,
                rows_of_events(events),
            )[i]) == fresh[i],
{
    let text = ledger_text(date, events);
    let rows = rows_of_events(events);
    lemma_lines_front(date, rows_text(events));
    lemma_rows_read_back(events);
    assert(lines(text).drop_first() =~= lines(rows_text(events)));
    lemma_merged_keeps(fresh, rows);
    assert forall|i: int| 0 <= i < events.len() && events[i].checksum is Some implies (#[trigger] merged(
        fresh,
        rows,
    )[i]) == (EventView { executed: events[i].executed, ..fresh[i] }) by {
        let flags = events[i].executed;
        let digest = events[i].checksum->0;
        assert forall|j: int|
            0 <= j < events.len() && (#[trigger] events[j]).checksum == Some(digest) implies events[j].executed
            == flags by {}
        lemma_rows_flags(events, digest, flags);
        lemma_row_of_event(events, i);
        lemma_merged_flags(fresh, rows, i, flags);
    }
}

} // verus!
