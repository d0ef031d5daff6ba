use ontime::calendar::Date;
use ontime::calendar::Moment;
use ontime::calendar::Weekday;
use ontime::config::Config;
use ontime::config::FAIL_DO_NOT_WRITE;
use ontime::config::FAIL_RETRY;
use ontime::errors::ExecutionError;
use ontime::event::Event;
use ontime::event::ExecutionType;
use ontime::event_processor::judge_exit;
use ontime::event_processor::process_event;
use ontime::event_processor::settle_event;
use ontime::event_processor::split_command;
use ontime::plan::get_plan;
use ontime::scheduler::plan_is_stale;
use ontime::scheduler::Sweep;
use ontime::scheduler::POLL_INTERVAL;

fn event(start: i64, end: i64, name: &str) -> Event {
    Event {
        start,
        end,
        execute_start: format!("start {}", name),
        execute_end: format!("end {}", name),
        during: None,
        executed: (false, false),
        checksum: None,
    }
}

fn retrying() -> Config {
    Config { fail: FAIL_RETRY, ..Config::default() }
}

#[test]
fn process_start_marks_and_names_the_start_script() {
    let mut e = event(0, 10, "a");
    assert_eq!(process_event(&mut e, &ExecutionType::START), Some(String::from("start a")));
    assert_eq!(e.executed, (true, false));
}

#[test]
fn process_end_marks_and_names_the_end_script() {
    let mut e = event(0, 10, "a");
    e.executed = (true, false);
    assert_eq!(process_event(&mut e, &ExecutionType::END), Some(String::from("end a")));
    assert_eq!(e.executed, (true, true));
}

#[test]
fn loop_does_not_alter_the_flags() {
    let mut e = event(0, 10, "a");
    e.during = Some(String::from("notify"));
    e.executed = (true, false);
    assert_eq!(process_event(&mut e, &ExecutionType::LOOP), Some(String::from("notify")));
    assert_eq!(e.executed, (true, false));
    assert!(settle_event(&mut e, &ExecutionType::LOOP, Ok(()), &retrying()).is_ok());
    assert_eq!(e.executed, (true, false));
    assert!(settle_event(&mut e, &ExecutionType::LOOP, Err(ExecutionError), &retrying()).is_err());
    assert_eq!(e.executed, (true, false));
}

#[test]
fn process_loop_without_a_script_names_none() {
    let mut e = event(0, 10, "a");
    assert_eq!(process_event(&mut e, &ExecutionType::LOOP), None);
    assert_eq!(process_event(&mut e, &ExecutionType::NONE), None);
    assert_eq!(e.executed, (false, false));
}

#[test]
fn settle_keeps_the_mark_after_success() {
    let mut e = event(0, 10, "a");
    e.executed = (true, false);
    assert!(settle_event(&mut e, &ExecutionType::START, Ok(()), &retrying()).is_ok());
    assert_eq!(e.executed, (true, false));
}

#[test]
fn settle_keeps_the_mark_after_failure_without_retry() {
    let mut e = event(0, 10, "a");
    e.executed = (true, false);
    let result = settle_event(&mut e, &ExecutionType::START, Err(ExecutionError), &Config::default());
    assert!(result.is_err());
    assert_eq!(e.executed, (true, false));
    let only_write = Config { fail: FAIL_DO_NOT_WRITE, ..Config::default() };
    assert!(settle_event(&mut e, &ExecutionType::START, Err(ExecutionError), &only_write).is_err());
    assert_eq!(e.executed, (true, false));
}

#[test]
fn settle_lowers_the_flag_after_failure_with_retry() {
    let mut e = event(0, 10, "a");
    e.executed = (true, false);
    assert!(settle_event(&mut e, &ExecutionType::START, Err(ExecutionError), &retrying()).is_err());
    assert_eq!(e.executed, (false, false));
    e.executed = (true, true);
    assert!(settle_event(&mut e, &ExecutionType::END, Err(ExecutionError), &retrying()).is_err());
    assert_eq!(e.executed, (true, false));
}

#[test]
fn exit_code_at_the_threshold_is_a_failure_and_is_retried() {
    let config = Config { fail: FAIL_RETRY, fail_on_code: 3, ..Config::default() };
    let mut e = event(100, 200, "a");
    let due = e.should_execute(&100, &config);
    assert_eq!(due, ExecutionType::START);
    process_event(&mut e, &due);
    assert_eq!(e.executed, (true, false));
    let outcome = judge_exit(Some(3), &config);
    assert!(outcome.is_err());
    assert!(settle_event(&mut e, &due, outcome, &config).is_err());
    assert_eq!(e.executed, (false, false));
    assert_eq!(e.should_execute(&160, &config), ExecutionType::START);
}

#[test]
fn exit_codes_are_judged_against_the_threshold() {
    let config = Config::default();
    assert!(judge_exit(Some(0), &config).is_ok());
    assert!(judge_exit(Some(1), &config).is_err());
    assert!(judge_exit(Some(255), &config).is_err());
    assert!(judge_exit(Some(-1), &config).is_ok());
    assert!(judge_exit(None, &config).is_err());
    let lenient = Config { fail_on_code: 3, ..Config::default() };
    assert!(judge_exit(Some(2), &lenient).is_ok());
    assert!(judge_exit(Some(3), &lenient).is_err());
    let strict = Config { fail_on_code: 0, ..Config::default() };
    assert!(judge_exit(Some(0), &strict).is_err());
    let never = Config { fail_on_code: u32::MAX, ..Config::default() };
    assert!(judge_exit(Some(i32::MAX), &never).is_ok());
}

#[test]
fn commands_are_split_at_single_blanks() {
    assert_eq!(split_command("echo hello world"), vec!["echo", "hello", "world"]);
    assert_eq!(split_command("true"), vec!["true"]);
    assert_eq!(split_command("a  b"), vec!["a", "", "b"]);
    assert_eq!(split_command(""), vec![""]);
    assert_eq!(split_command("echo \"a b\""), vec!["echo", "\"a", "b\""]);
    assert_eq!(split_command("a\tb"), vec!["a\tb"]);
}

#[test]
fn sweep_visits_due_events_in_order() {
    let config = Config::default();
    let mut events = vec![
        event(100, 1000, "a"),
        event(5000, 9000, "b"),
        event(150, 1000, "c"),
    ];
    events[2].executed = (true, false);
    events[2].during = Some(String::from("tick c"));
    let mut sweep = Sweep::new(200);
    assert_eq!(sweep, Sweep { now: 200, next: 0, changed: false, failed: false });

    let first = sweep.next_due(&mut events, &config).unwrap();
    assert_eq!(first.index, 0);
    assert_eq!(first.due, ExecutionType::START);
    assert_eq!(first.script, Some(String::from("start a")));
    assert_eq!(events[0].executed, (true, false));
    sweep.report(&mut events, &first, Ok(()), &config);

    let second = sweep.next_due(&mut events, &config).unwrap();
    assert_eq!(second.index, 2);
    assert_eq!(second.due, ExecutionType::LOOP);
    assert_eq!(second.script, Some(String::from("tick c")));
    sweep.report(&mut events, &second, Ok(()), &config);

    assert!(sweep.next_due(&mut events, &config).is_none());
    assert_eq!(sweep.next, 3);
    assert!(sweep.next_due(&mut events, &config).is_none());
    assert_eq!(events[1].executed, (false, false));
    assert_eq!(events[2].executed, (true, false));
    assert!(sweep.changed);
    assert!(!sweep.failed);
    assert!(sweep.should_persist(&config));
}

#[test]
fn sweep_over_nothing_due_does_not_persist() {
    let config = Config::default();
    let mut events = vec![event(100, 1000, "a")];
    let mut sweep = Sweep::new(50);
    assert!(sweep.next_due(&mut events, &config).is_none());
    assert!(!sweep.changed);
    assert!(!sweep.should_persist(&config));
    assert_eq!(events[0].executed, (false, false));
    let mut none: Vec<Event> = Vec::new();
    let mut sweep = Sweep::new(50);
    assert!(sweep.next_due(&mut none, &config).is_none());
    assert!(!sweep.should_persist(&config));
}

#[test]
fn sweep_reports_failures_and_reverts_under_retry() {
    let config = retrying();
    let mut events = vec![event(100, 1000, "a"), event(100, 1000, "b")];
    let mut sweep = Sweep::new(100);
    let first = sweep.next_due(&mut events, &config).unwrap();
    sweep.report(&mut events, &first, Err(ExecutionError), &config);
    assert_eq!(events[0].executed, (false, false));
    let second = sweep.next_due(&mut events, &config).unwrap();
    assert_eq!(second.index, 1);
    sweep.report(&mut events, &second, Ok(()), &config);
    assert_eq!(events[1].executed, (true, false));
    assert!(sweep.failed);
    assert!(sweep.should_persist(&config));
}

#[test]
fn sweep_holds_the_ledger_back_after_a_failure_where_told_so() {
    let config = Config { fail: FAIL_DO_NOT_WRITE, ..Config::default() };
    let mut events = vec![event(100, 1000, "a")];
    let mut sweep = Sweep::new(100);
    let first = sweep.next_due(&mut events, &config).unwrap();
    sweep.report(&mut events, &first, Err(ExecutionError), &config);
    assert_eq!(events[0].executed, (true, false));
    assert!(!sweep.should_persist(&config));

    let mut events = vec![event(100, 1000, "a")];
    let mut sweep = Sweep::new(100);
    let first = sweep.next_due(&mut events, &config).unwrap();
    sweep.report(&mut events, &first, Ok(()), &config);
    assert!(sweep.should_persist(&config));
}

#[test]
fn sweep_does_not_hold_the_ledger_back_for_a_failed_loop_script() {
    let config = Config { fail: FAIL_DO_NOT_WRITE | FAIL_RETRY, ..Config::default() };
    let mut events = vec![event(100, 1000, "a")];
    events[0].executed = (true, false);
    events[0].during = Some(String::from("tick"));
    let mut sweep = Sweep::new(500);
    let first = sweep.next_due(&mut events, &config).unwrap();
    assert_eq!(first.due, ExecutionType::LOOP);
    sweep.report(&mut events, &first, Err(ExecutionError), &config);
    assert_eq!(events[0].executed, (true, false));
    assert!(!sweep.failed);
    assert!(sweep.should_persist(&config));
}

#[test]
fn plan_is_stale_on_another_weekday() {
    let monday = Moment {
        timestamp: 0,
        date: Date::new(2024, 1, 15).unwrap(),
        weekday: Weekday::Mon,
        utc_offset: 0,
    };
    let plan = get_plan(&monday, "[]", false, String::new()).unwrap();
    assert!(!plan_is_stale(&plan, &monday));
    let tuesday = Moment {
        date: Date::new(2024, 1, 16).unwrap(),
        weekday: Weekday::Tue,
        ..monday.clone()
    };
    assert!(plan_is_stale(&plan, &tuesday));
    let next_monday = Moment { date: Date::new(2024, 1, 22).unwrap(), ..monday };
    assert!(!plan_is_stale(&plan, &next_monday));
}

#[test]
fn polls_are_a_minute_apart() {
    assert_eq!(POLL_INTERVAL, 60);
}
