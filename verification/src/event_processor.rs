//! What running a script does to an event, and how the end of a script is judged.
//!
//! Running the script itself is left to the caller: `process_event` marks the
//! event and names the script, the caller runs it, and `settle_event` takes the
//! mark back where the script failed and is to be tried again.

use crate::config::Config;
use crate::errors::ExecutionError;
use crate::event::decide;
use crate::event::Event;
use crate::event::EventView;
use crate::event::ExecutionType;
use crate::text::chars_of;
use crate::text::names;
use crate::text::split;
use crate::text::split_chars;
use crate::text::string_of;
use crate::text::texts;
use vstd::prelude::*;

verus! {

/// The event once what is due has been marked as run: the start flag for a start
/// script, the end flag for an end script, nothing for anything else.
pub open spec fn marked(event: EventView, due: ExecutionType) -> EventView {
    match due {
        ExecutionType::START => EventView { executed: (true, event.executed.1), ..event },
        ExecutionType::END => EventView { executed: (event.executed.0, true), ..event },
        _ => event,
    }
}

/// The script that is due, if there is one.
pub open spec fn script_of(event: EventView, due: ExecutionType) -> Option<Seq<char>> {
    match due {
        ExecutionType::START => Some(event.execute_start),
        ExecutionType::END => Some(event.execute_end),
        ExecutionType::LOOP => event.during,
        ExecutionType::NONE => None,
    }
}

/// The event once its script has ended. Where a start or end script failed and
/// failures are tried again, the flag of that script is lowered; in every other
/// case the event stays as it is.
pub open spec fn settled(event: EventView, due: ExecutionType, failed: bool, config: Config)
    -> EventView {
    if failed && config.retries() {
        match due {
            ExecutionType::START => EventView { executed: (false, event.executed.1), ..event },
            ExecutionType::END => EventView { executed: (event.executed.0, false), ..event },
            _ => event,
        }
    } else {
        event
    }
}

/// Whether a script that ended with `code` failed: it did where the code is at
/// least the threshold of `config`, and where there is no code at all.
pub open spec fn exit_fails(code: Option<i32>, config: Config) -> bool {
    match code {
        Some(c) => c >= config.fail_on_code,
        None => true,
    }
}

/// Marks what is due as run, before the script is started, and names the script.
pub fn process_event(event: &mut Event, execution_type: &ExecutionType) -> (script: Option<String>)
    ensures
        final(event)@ == marked(old(event)@, *execution_type),
        match script {
            Some(s) => script_of(old(event)@, *execution_type) == Some(s@),
            None => script_of(old(event)@, *execution_type) is None,
        },
{
    match execution_type {
        ExecutionType::START => {
            event.executed = (true, event.executed.1);
            Some(event.execute_start.clone())
        },
        ExecutionType::END => {
            event.executed = (event.executed.0, true);
            Some(event.execute_end.clone())
        },
        ExecutionType::LOOP => match &event.during {
            Some(script) => Some(script.clone()),
            None => None,
        },
        ExecutionType::NONE => None,
    }
}

/// Takes in how the script ended: a failed start or end script that is to be tried
/// again has its flag lowered. The answer is the outcome as it was given.
pub fn settle_event(
    event: &mut Event,
    execution_type: &ExecutionType,
    outcome: Result<(), ExecutionError>,
    config: &Config,
) -> (result: Result<(), ExecutionError>)
    ensures
        final(event)@ == settled(old(event)@, *execution_type, outcome is Err, *config),
        result is Err == outcome is Err,
{
    if outcome.is_err() && config.retry_on_failure() {
        match execution_type {
            ExecutionType::START => {
                event.executed = (false, event.executed.1);
            },
            ExecutionType::END => {
                event.executed = (event.executed.0, false);
            },
            _ => {},
        }
    }
    outcome
}

/// Takes a command apart at every single blank: the first word is the program,
/// the words after it are its arguments. Nothing is quoted and nothing expanded.
pub fn split_command(what: &str) -> (words: Vec<String>)
    ensures
        words.len() >= 1,
        names(words@) == split(what@, ' '),
{
    let chars = chars_of(what);
    let pieces = split_chars(&chars, ' ');
    let mut words: Vec<String> = Vec::new();
    let mut i: usize = 0;
    while i < pieces.len()
        invariant
            i <= pieces.len(),
            words.len() == i,
            forall|j: int| 0 <= j < i ==> (#[trigger] words@[j])@ == pieces@[j]@,
        decreases pieces.len() - i,
    {
        words.push(string_of(&pieces[i]));
        i += 1;
    }
    words
}

/// Judges how a script ended by its exit code, if it has one.
pub fn judge_exit(code: Option<i32>, config: &Config) -> (result: Result<(), ExecutionError>)
    ensures
        result is Err == exit_fails(code, *config),
{
    match code {
        Some(c) => {
            if (c as i64) >= (config.fail_on_code as i64) {
                Err(ExecutionError {  })
            } else {
                Ok(())
            }
        },
        None => Err(ExecutionError {  }),
    }
}

/// The script that accompanies an open window leaves the event as it is, whether
/// it succeeds or fails.
pub proof fn lemma_loop_leaves_event(event: EventView, failed: bool, config: Config)
    ensures
        marked(event, ExecutionType::LOOP) == event,
        settled(event, ExecutionType::LOOP, failed, config) == event,
        marked(event, ExecutionType::NONE) == event,
        settled(event, ExecutionType::NONE, failed, config) == event,
{
}

/// Where failures are tried again, an event whose due script failed is as it was
/// before the script was marked as run, so that the same script is due again at
/// the same instant.
pub proof fn lemma_retry_restores(event: EventView, now: int, config: Config)
    requires
        config.retries(),
        decide(event, now, config) == ExecutionType::START || decide(event, now, config)
            == ExecutionType::END,
    ensures
        settled(marked(event, decide(event, now, config)), decide(event, now, config), true, config)
            == event,
{
}

/// Where failures are not tried again, or the script succeeded, the mark stays.
pub proof fn lemma_mark_stays(event: EventView, due: ExecutionType, failed: bool, config: Config)
    requires
        !failed || !config.retries(),
    ensures
        settled(marked(event, due), due, failed, config) == marked(event, due),
{
}

/// A start or end script that was marked as run is not due again, at whatever instant.
pub proof fn lemma_runs_once(event: EventView, now: int, later: int, config: Config)
    ensures
        decide(event, now, config) == ExecutionType::START ==> decide(
            marked(event, ExecutionType::START),
            later,
            config,
        ) != ExecutionType::START,
        decide(event, now, config) == ExecutionType::END ==> decide(
            marked(event, ExecutionType::END),
            later,
            config,
        ) == ExecutionType::NONE,
{
}

/// An exit code that equals the threshold is a failure, and so is every higher
/// one; every lower one is a success.
pub proof fn lemma_threshold(code: i32, config: Config)
    ensures
        exit_fails(Some(code), config) <==> code >= config.fail_on_code,
        code == config.fail_on_code ==> exit_fails(Some(code), config),
{
}

} // verus!
