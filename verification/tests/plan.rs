use ontime::calendar::Date;
use ontime::calendar::Moment;
use ontime::calendar::Weekday;
use ontime::config::Config;
use ontime::document::Node;
use ontime::errors::CacheError;
use ontime::errors::PlanError;
use ontime::event::Event;
use ontime::event::ExecutionType;
use ontime::event_cache::Cache;
use ontime::event_processor::process_event;
use ontime::plan::find_records;
use ontime::plan::get_plan;
use ontime::plan::plan_of_documents;
use ontime::plan::read_events;
use ontime::plan::select_plan_file;
use ontime::plan::sort_events;
use ontime::plan::PlanFile;
use std::borrow::Cow;

const MIDNIGHT: i64 = 1_705_276_800;

fn monday_at(seconds: i64) -> Moment {
    Moment {
        timestamp: MIDNIGHT + seconds,
        date: Date::new(2024, 1, 15).unwrap(),
        weekday: Weekday::Mon,
        utc_offset: 0,
    }
}

fn files(names: &[&str]) -> Vec<String> {
    names.iter().map(|n| String::from(*n)).collect()
}

fn text(s: &str) -> Node {
    Node::Text(String::from(s))
}

fn record(start: &str, end: &str, script: &str) -> Node {
    Node::Mapping(vec![
        (text("start"), text(start)),
        (text("end"), text(end)),
        (text("execute_start"), text(script)),
        (text("execute_end"), text("true")),
    ])
}

fn event(start: i64, script: &str) -> Event {
    Event {
        start,
        end: start + 1,
        execute_start: String::from(script),
        execute_end: String::new(),
        during: None,
        executed: (false, false),
        checksum: None,
    }
}

fn missing(error: PlanError) -> String {
    match error {
        PlanError::RequiredAttributeMissing(e) => e.to_string(),
        other => panic!("unexpected {:?}", other),
    }
}

const DAY_PLAN: &str = "- start: \"09:00\"\n  end: \"17:00\"\n  execute_start: \"true\"\n  execute_end: \"true\"\n";

#[test]
fn select_prefers_the_file_of_the_day() {
    let names = files(&["/etc/ontime/main.yml", "/etc/ontime/monday.yaml", "/x/monday2.yml"]);
    assert_eq!(
        select_plan_file(&names, &Cow::Borrowed("monday")).unwrap(),
        PlanFile { index: 1, is_main: false }
    );
}

#[test]
fn select_falls_back_to_main() {
    let names = files(&["/etc/ontime/tuesday.yml", "/etc/ontime/main.yml", "/etc/main2.yml"]);
    assert_eq!(
        select_plan_file(&names, &Cow::Borrowed("monday")).unwrap(),
        PlanFile { index: 1, is_main: true }
    );
}

#[test]
fn select_matches_anywhere_in_the_path() {
    let names = files(&["/home/monday/other.yml"]);
    assert_eq!(
        select_plan_file(&names, &Cow::Borrowed("monday")).unwrap(),
        PlanFile { index: 0, is_main: false }
    );
    let names = files(&["/home/remainder/other.yml"]);
    assert_eq!(
        select_plan_file(&names, &Cow::Borrowed("monday")).unwrap(),
        PlanFile { index: 0, is_main: true }
    );
}

#[test]
fn select_fails_without_a_candidate() {
    for names in [files(&[]), files(&["/etc/ontime/tuesday.yml", "/etc/ontime/Monday.yml"])] {
        match select_plan_file(&names, &Cow::Borrowed("monday")) {
            Err(PlanError::PlanNotFound(error)) => {
                assert_eq!(error.to_string(), "Plan for monday not found, not doing anything")
            }
            other => panic!("unexpected {:?}", other),
        }
    }
}

#[test]
fn records_of_a_day_file_are_its_first_document() {
    let docs = vec![Node::Sequence(vec![text("a"), text("b")]), Node::Sequence(vec![])];
    let records = find_records(&docs, &Cow::Borrowed("monday"), false).unwrap();
    assert_eq!(records.len(), 2);
}

#[test]
fn records_of_the_main_file_stand_under_the_day() {
    let docs = vec![Node::Mapping(vec![
        (text("tuesday"), Node::Sequence(vec![])),
        (text("monday"), Node::Sequence(vec![text("a")])),
    ])];
    assert_eq!(find_records(&docs, &Cow::Borrowed("monday"), true).unwrap().len(), 1);
    assert_eq!(find_records(&docs, &Cow::Borrowed("tuesday"), true).unwrap().len(), 0);
}

#[test]
fn records_missing_from_a_day_file() {
    for docs in [vec![], vec![Node::Mapping(vec![])], vec![text("x")], vec![Node::BadValue]] {
        assert_eq!(
            missing(find_records(&docs, &Cow::Borrowed("monday"), false).unwrap_err()),
            "Required attribute array of events missing for monday plan"
        );
    }
}

#[test]
fn records_missing_from_the_main_file() {
    let no_day = vec![Node::Mapping(vec![(text("tuesday"), Node::Sequence(vec![]))])];
    let no_list = vec![Node::Mapping(vec![(text("monday"), text("x"))])];
    let no_map = vec![Node::Sequence(vec![])];
    for docs in [vec![], no_day, no_list, no_map] {
        assert_eq!(
            missing(find_records(&docs, &Cow::Borrowed("monday"), true).unwrap_err()),
            "Required attribute monday missing for main plan"
        );
    }
}

#[test]
fn read_events_keeps_the_order_and_computes_digests() {
    let records = vec![record("17:00", "18:00", "late"), record("09:00", "10:00", "early")];
    let events = read_events(&records, &Cow::Borrowed("monday"), &monday_at(0)).unwrap();
    assert_eq!(events.len(), 2);
    assert_eq!(events[0].execute_start, "late");
    assert_eq!(events[1].execute_start, "early");
    assert_eq!(events[0].start, MIDNIGHT + 61_200);
    for e in &events {
        let mut again = e.clone();
        again.checksum = None;
        again.calculate_checksum();
        assert_eq!(e.checksum, again.checksum);
        assert_eq!(e.checksum.as_ref().unwrap().len(), 32);
    }
}

#[test]
fn read_events_fails_with_the_first_bad_record() {
    let mut no_end = record("09:00", "10:00", "a");
    if let Node::Mapping(pairs) = &mut no_end {
        pairs.remove(1);
    }
    let records = vec![record("08:00", "09:00", "ok"), no_end, record("xx", "10:00", "bad")];
    assert_eq!(
        missing(read_events(&records, &Cow::Borrowed("monday"), &monday_at(0)).unwrap_err()),
        "Required attribute end missing for monday plan"
    );
    let records = vec![record("xx", "10:00", "bad"), record("08:00", "09:00", "ok")];
    assert!(matches!(
        read_events(&records, &Cow::Borrowed("monday"), &monday_at(0)),
        Err(PlanError::BadTimeFormat(_))
    ));
}

#[test]
fn read_events_of_no_records_is_empty() {
    assert!(read_events(&vec![], &Cow::Borrowed("monday"), &monday_at(0)).unwrap().is_empty());
}

fn order(events: Vec<Event>) -> Vec<String> {
    sort_events(events).into_iter().map(|e| e.execute_start).collect()
}

#[test]
fn sort_orders_by_start() {
    assert_eq!(
        order(vec![event(30, "c"), event(10, "a"), event(20, "b"), event(-5, "z")]),
        vec!["z", "a", "b", "c"]
    );
    assert_eq!(order(vec![]), Vec::<String>::new());
    assert_eq!(order(vec![event(1, "x")]), vec!["x"]);
}

#[test]
fn sort_keeps_the_given_order_among_equal_starts() {
    assert_eq!(
        order(vec![event(20, "b1"), event(10, "a1"), event(20, "b2"), event(10, "a2"), event(20, "b3")]),
        vec!["a1", "a2", "b1", "b2", "b3"]
    );
}

#[test]
fn sort_keeps_every_event() {
    let sorted = sort_events(vec![event(3, "c"), event(1, "a"), event(3, "c"), event(2, "b")]);
    assert_eq!(sorted.len(), 4);
    let starts: Vec<i64> = sorted.iter().map(|e| e.start).collect();
    assert_eq!(starts, vec![1, 2, 3, 3]);
}

#[test]
fn plan_of_a_day_file() {
    let plan = get_plan(&monday_at(0), DAY_PLAN, false, String::new()).unwrap();
    assert_eq!(plan.weekday, "monday");
    assert_eq!(plan.events.len(), 1);
    assert_eq!(plan.events[0].start, MIDNIGHT + 32_400);
    assert_eq!(plan.events[0].end, MIDNIGHT + 61_200);
    assert_eq!(plan.events[0].executed, (false, false));
    assert_eq!(
        plan.events[0].checksum,
        Some(String::from("b58a1e9d5ec202b384961f60b83fa3d6"))
    );
    assert_eq!(plan.cache.content(), "2024-01-15");
    assert!(plan.cache.date().same_day(&Date::new(2024, 1, 15).unwrap()));
}

#[test]
fn plan_of_the_main_file() {
    let text = "tuesday:\n  - start: \"01:00\"\n    end: \"02:00\"\n    execute_start: a\n    execute_end: b\nmonday:\n  - start: \"10:00\"\n    end: \"11:00\"\n    execute_start: c\n    execute_end: d\n    during: e\n";
    let plan = get_plan(&monday_at(0), text, true, String::new()).unwrap();
    assert_eq!(plan.events.len(), 1);
    assert_eq!(plan.events[0].execute_start, "c");
    assert_eq!(plan.events[0].during, Some(String::from("e")));
    let tuesday = Moment {
        weekday: Weekday::Tue,
        date: Date::new(2024, 1, 16).unwrap(),
        ..monday_at(0)
    };
    let plan = get_plan(&tuesday, text, true, String::new()).unwrap();
    assert_eq!(plan.weekday, "tuesday");
    assert_eq!(plan.events[0].execute_start, "a");
    assert_eq!(plan.events[0].start, MIDNIGHT + 86_400 + 3600);
}

#[test]
fn plan_events_are_sorted_by_start() {
    let text = "- {start: \"17:00\", end: \"18:00\", execute_start: c, execute_end: x}\n- {start: \"09:00\", end: \"10:00\", execute_start: a, execute_end: x}\n- {start: \"12:30\", end: \"13:00\", execute_start: b, execute_end: x}\n- {start: \"09:00\", end: \"09:30\", execute_start: a2, execute_end: x}\n";
    let plan = get_plan(&monday_at(0), text, false, String::new()).unwrap();
    let scripts: Vec<&str> = plan.events.iter().map(|e| e.execute_start.as_str()).collect();
    assert_eq!(scripts, vec!["a", "a2", "b", "c"]);
    for pair in plan.events.windows(2) {
        assert!(pair[0].start <= pair[1].start);
    }
}

#[test]
fn plan_with_no_events_is_empty() {
    let plan = get_plan(&monday_at(0), "[]\n", false, String::new()).unwrap();
    assert!(plan.events.is_empty());
}

#[test]
fn missing_end_fails_the_load() {
    let text = "- start: \"08:00\"\n  end: \"09:00\"\n  execute_start: a\n  execute_end: b\n- start: \"09:00\"\n  execute_start: \"true\"\n  execute_end: \"true\"\n";
    assert_eq!(
        missing(get_plan(&monday_at(0), text, false, String::new()).unwrap_err()),
        "Required attribute end missing for monday plan"
    );
}

#[test]
fn plan_text_that_is_no_document_fails_the_load() {
    assert!(matches!(
        get_plan(&monday_at(0), "- [unclosed", false, String::new()),
        Err(PlanError::Syntax(_))
    ));
}

#[test]
fn plan_of_an_empty_file_lacks_its_events() {
    assert_eq!(
        missing(get_plan(&monday_at(0), "", false, String::new()).unwrap_err()),
        "Required attribute array of events missing for monday plan"
    );
    assert_eq!(
        missing(get_plan(&monday_at(0), "", true, String::new()).unwrap_err()),
        "Required attribute monday missing for main plan"
    );
}

#[test]
fn plan_with_an_unreadable_ledger_fails_the_load() {
    assert!(matches!(
        get_plan(&monday_at(0), DAY_PLAN, false, String::from("garbage\n")),
        Err(PlanError::Cache(CacheError::Header(_)))
    ));
    assert!(matches!(
        get_plan(&monday_at(0), DAY_PLAN, false, String::from("2024-01-15\nshort\n")),
        Err(PlanError::Cache(CacheError::Row))
    ));
}

#[test]
fn plan_ignores_the_rows_of_a_stale_ledger() {
    let stale = String::from("2024-01-14\nb58a1e9d5ec202b384961f60b83fa3d6 true true\nshort\n");
    let plan = get_plan(&monday_at(0), DAY_PLAN, false, stale).unwrap();
    assert_eq!(plan.events[0].executed, (false, false));
    assert_eq!(plan.cache.content(), "2024-01-15");
}

#[test]
fn plan_takes_the_flags_of_todays_ledger() {
    let ledger = String::from("2024-01-15\nb58a1e9d5ec202b384961f60b83fa3d6 true false\n");
    let plan = get_plan(&monday_at(0), DAY_PLAN, false, ledger.clone()).unwrap();
    assert_eq!(plan.events[0].executed, (true, false));
    assert_eq!(plan.cache.content(), ledger);
}

#[test]
fn plan_of_documents_agrees_with_the_text() {
    let docs = vec![Node::Sequence(vec![record("09:00", "17:00", "true")])];
    let plan = plan_of_documents(&monday_at(0), &docs, false, String::new()).unwrap();
    assert_eq!(
        plan.events[0].checksum,
        Some(String::from("b58a1e9d5ec202b384961f60b83fa3d6"))
    );
}

#[test]
fn restart_after_start_does_not_start_again() {
    let config = Config { distance: 90, ..Config::default() };
    let now = monday_at(9 * 3600 + 300);
    let mut plan = get_plan(&now, DAY_PLAN, false, String::new()).unwrap();
    let due = plan.events[0].should_execute(&now.timestamp, &config);
    assert_eq!(due, ExecutionType::START);
    assert_eq!(process_event(&mut plan.events[0], &due), Some(String::from("true")));
    assert_eq!(plan.events[0].executed, (true, false));
    let ledger = plan.cache.write(&plan.events);
    assert_eq!(ledger, "2024-01-15\nb58a1e9d5ec202b384961f60b83fa3d6 true false\n");

    let later = monday_at(9 * 3600 + 360);
    let reloaded = get_plan(&later, DAY_PLAN, false, ledger).unwrap();
    assert_eq!(reloaded.events[0].executed, (true, false));
    assert_eq!(
        reloaded.events[0].should_execute(&later.timestamp, &config),
        ExecutionType::NONE
    );
}

#[test]
fn plan_read_in_another_time_zone_has_other_digests() {
    let east = Moment { utc_offset: 3600, ..monday_at(0) };
    let plan = get_plan(&east, DAY_PLAN, false, String::new()).unwrap();
    assert_eq!(plan.events[0].start, MIDNIGHT + 32_400 - 3600);
    assert_eq!(
        plan.events[0].checksum,
        Some(String::from("9704c3cd05bb397386b432264c686541"))
    );
}

#[test]
fn cache_of_a_plan_can_be_cleaned_for_the_next_day() {
    let mut plan = get_plan(&monday_at(0), DAY_PLAN, false, String::new()).unwrap();
    let cache: &mut Cache = &mut plan.cache;
    assert!(cache.cleanup(&Date::new(2024, 1, 16).unwrap()));
    assert_eq!(cache.content(), "2024-01-16");
}
