//! The options that steer the scheduler and the runner of scripts.

use vstd::prelude::*;

verus! {

/// Bit of `Config::fail`: a failed start or end script is tried again at the next poll.
pub const FAIL_RETRY: u32 = 0x1;

/// Bit of `Config::fail`: the ledger is not written after a poll in which a script failed.
pub const FAIL_DO_NOT_WRITE: u32 = 0x2;

/// `Config::fail` with no bit set: a failure is reported and nothing else.
pub const FAIL_REGULAR: u32 = 0x0;

/// `Config::pipe` with no bit set: the scripts keep both of their streams.
pub const PIPE_FROM_NONE: u32 = 0x0;

/// Bit of `Config::pipe`: the standard output of the scripts is sent elsewhere.
pub const PIPE_FROM_STDOUT: u32 = 0x1;

/// Bit of `Config::pipe`: the standard error of the scripts is sent elsewhere.
pub const PIPE_FROM_STDERR: u32 = 0x2;

/// Where a stream of a script goes once it is sent elsewhere.
#[derive(Debug, Clone, Copy, PartialEq, Eq, Structural)]
pub enum PipeTo {
    STDOUT,
    STDERR,
    FILE,
    NONE,
}

/// The destination that a word names, if it names one.
pub open spec fn pipe_to_of(word: Seq<char>) -> Option<PipeTo> {
    if word == "file"@ {
        Some(PipeTo::FILE)
    } else if word == "stderr"@ {
        Some(PipeTo::STDERR)
    } else if word == "stdout"@ {
        Some(PipeTo::STDOUT)
    } else if word == "none"@ {
        Some(PipeTo::NONE)
    } else {
        None
    }
}

impl PipeTo {
    /// Reads a destination from its name: `file`, `stderr`, `stdout` or `none`.
    pub fn from_str(s: &str) -> (destination: Result<Self, String>)
        ensures
            match destination {
                Ok(d) => pipe_to_of(s@) == Some(d),
                Err(message) => pipe_to_of(s@) is None && message@ == "Value not allowed"@,
            },
    {
        if crate::text::same_text(s, "file") {
            Ok(PipeTo::FILE)
        } else if crate::text::same_text(s, "stderr") {
            Ok(PipeTo::STDERR)
        } else if crate::text::same_text(s, "stdout") {
            Ok(PipeTo::STDOUT)
        } else if crate::text::same_text(s, "none") {
            Ok(PipeTo::NONE)
        } else {
            Err(String::from_str("Value not allowed"))
        }
    }
}

/// The options of one run.
#[derive(Debug, Clone)]
pub struct Config {
    /// How late, in minutes, a start or end script may still be run.
    pub distance: i64,
    /// The same for start scripts alone, where it is set.
    pub distance_start: Option<i64>,
    /// The same for end scripts alone, where it is set.
    pub distance_end: Option<i64>,
    /// What to do when a script fails: the bits `FAIL_RETRY` and `FAIL_DO_NOT_WRITE`.
    pub fail: u32,
    /// Exit codes from this value on count as failures.
    pub fail_on_code: u32,
    /// Which streams of a script are sent elsewhere: the bits `PIPE_FROM_STDOUT` and
    /// `PIPE_FROM_STDERR`.
    pub pipe: u32,
    /// Where they are sent.
    pub pipe_to: PipeTo,
    /// The file they are appended to, where `pipe_to` is `FILE`.
    pub file: Option<String>,
}

impl Default for Config {
    /// The options that hold where none is given: ninety minutes of tolerance, no
    /// retry, failure from exit code 1 on, the standard output sent to the standard error.
    fn default() -> (config: Config)
        ensures
            config.distance == 90,
            config.distance_start is None,
            config.distance_end is None,
            config.fail == FAIL_REGULAR,
            config.fail_on_code == 1,
            config.pipe == PIPE_FROM_STDOUT,
            config.pipe_to == PipeTo::STDERR,
            config.file is None,
    {
        Config {
            distance: 90,
            distance_start: None,
            distance_end: None,
            fail: FAIL_REGULAR,
            fail_on_code: 1,
            pipe: PIPE_FROM_STDOUT,
            pipe_to: PipeTo::STDERR,
            file: None,
        }
    }
}

impl Config {
    /// How late a start script may still be run, in seconds.
    pub open spec fn start_tolerance(&self) -> int {
        match self.distance_start {
            Some(minutes) => minutes * 60,
            None => self.distance * 60,
        }
    }

    /// How late an end script may still be run, in seconds.
    pub open spec fn end_tolerance(&self) -> int {
        match self.distance_end {
            Some(minutes) => minutes * 60,
            None => self.distance * 60,
        }
    }

    /// Whether a failed start or end script is tried again at the next poll.
    pub open spec fn retries(&self) -> bool {
        self.fail & FAIL_RETRY > 0
    }

    /// Whether the ledger is left unwritten after a poll in which a script failed.
    pub open spec fn keeps_ledger_on_failure(&self) -> bool {
        self.fail & FAIL_DO_NOT_WRITE > 0
    }

    /// Whether the standard output of the scripts is sent elsewhere.
    pub open spec fn pipes_stdout(&self) -> bool {
        self.pipe & PIPE_FROM_STDOUT > 0
    }

    /// Whether the standard error of the scripts is sent elsewhere.
    pub open spec fn pipes_stderr(&self) -> bool {
        self.pipe & PIPE_FROM_STDERR > 0
    }

    /// Whether a failed start or end script is tried again at the next poll.
    pub fn retry_on_failure(&self) -> (yes: bool)
        ensures
            yes == self.retries(),
    {
        (self.fail & FAIL_RETRY) > 0
    }

    /// Whether the ledger is left unwritten after a poll in which a script failed.
    pub fn skip_write_on_failure(&self) -> (yes: bool)
        ensures
            yes == self.keeps_ledger_on_failure(),
    {
        (self.fail & FAIL_DO_NOT_WRITE) > 0
    }

    /// Which of the two streams of a script are sent elsewhere: output, then error.
    pub fn piped_streams(&self) -> (streams: (bool, bool))
        ensures
            streams.0 == self.pipes_stdout(),
            streams.1 == self.pipes_stderr(),
    {
        ((self.pipe & PIPE_FROM_STDOUT) > 0, (self.pipe & PIPE_FROM_STDERR) > 0)
    }
}

/// Where the tolerance for start scripts is set, it alone decides how late a start
/// script may be run; where the tolerance for end scripts is not set, the common
/// tolerance decides how late an end script may be run.
pub proof fn lemma_tolerance_override(config: Config)
    ensures
        config.distance_start matches Some(minutes) ==> config.start_tolerance() == minutes * 60,
        config.distance_start is None ==> config.start_tolerance() == config.distance * 60,
        config.distance_end matches Some(minutes) ==> config.end_tolerance() == minutes * 60,
        config.distance_end is None ==> config.end_tolerance() == config.distance * 60,
{
}

/// The tolerance for start scripts has no part in how late an end script may be run.
pub proof fn lemma_start_override_spares_end(config: Config, other: Config)
    requires
        config.distance == other.distance,
        config.distance_end == other.distance_end,
    ensures
        config.end_tolerance() == other.end_tolerance(),
{
}

} // verus!
