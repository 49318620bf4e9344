//! The process orchestrator: the decisions that drive one worker lifecycle.
//!
//! An orchestrator owns at most one worker at a time. The surrounding shell
//! performs the operating-system work (creating the process, waiting on it,
//! terminating it, delivering events) and reports each outcome back; every
//! decision — whether a spawn may proceed, whether a wait or kill has a
//! worker to act on, what an output line means, and what an exit status
//! means — is made here and verified.

use vstd::prelude::*;

use crate::progress::parse_progress;
use crate::progress::parse_progress_line;
use crate::progress::ProgressValue;
use crate::text::dec_chars_signed;
use crate::text::i32_to_string;

verus! {

/// Why a spawn request was refused before or while creating the process.
#[derive(PartialEq, Eq, Debug)]
pub enum SpawnError {
    /// A worker is already active: an orchestrator owns at most one.
    AlreadyActive,
    /// The operating system refused to create the process; the text is the
    /// OS error.
    OsRefused(String),
}

impl SpawnError {
    /// The error text the caller sees.
    pub open spec fn message_spec(&self) -> Seq<char> {
        match self {
            SpawnError::AlreadyActive => "A worker process is already running"@,
            SpawnError::OsRefused(e) => "Failed to spawn Python process: "@ + e@,
        }
    }

    /// Render the error as text.
    pub fn message(&self) -> (r: String)
        ensures
            r@ == self.message_spec(),
    {
        match self {
            SpawnError::AlreadyActive => String::from_str("A worker process is already running"),
            SpawnError::OsRefused(e) => String::from_str("Failed to spawn Python process: ").concat(
                e.as_str(),
            ),
        }
    }
}

/// Why a wait request could not return an exit status.
#[derive(PartialEq, Eq, Debug)]
pub enum WaitError {
    /// No worker is active: `wait` without a prior successful `spawn`, or
    /// after a `wait` or `kill` already consumed the worker.
    NoProcess,
    /// The operating system failed to report the exit status; the text is
    /// the OS error.
    OsFailure(String),
}

impl WaitError {
    /// The error text the caller sees.
    pub open spec fn message_spec(&self) -> Seq<char> {
        match self {
            WaitError::NoProcess => "No process running"@,
            WaitError::OsFailure(e) => "Failed to wait for process: "@ + e@,
        }
    }

    /// Render the error as text.
    pub fn message(&self) -> (r: String)
        ensures
            r@ == self.message_spec(),
    {
        match self {
            WaitError::NoProcess => String::from_str("No process running"),
            WaitError::OsFailure(e) => String::from_str("Failed to wait for process: ").concat(
                e.as_str(),
            ),
        }
    }
}

/// One event delivered to the event sink while a worker runs.
///
/// Delivery is best effort: a failed delivery is dropped by the shell and
/// never stalls the worker.
#[derive(PartialEq, Eq, Debug)]
pub enum WorkerEvent {
    /// A standard-output line that parses as progress: the value and the raw
    /// line it came from.
    Progress { value: ProgressValue, line: String },
    /// A standard-output line with no progress in it.
    Output { line: String },
    /// A standard-error line, delivered without parsing.
    ErrorLine { line: String },
}

/// Classify one standard-output line of the worker: progress when the line
/// parses as a progress value, plain output otherwise.
pub fn classify_stdout_line(line: String) -> (r: WorkerEvent)
    ensures
        match parse_progress(line@) {
            Some(v) => r == (WorkerEvent::Progress { value: v, line }),
            None => r == (WorkerEvent::Output { line }),
        },
{
    match parse_progress_line(line.as_str()) {
        Some(v) => WorkerEvent::Progress { value: v, line },
        None => WorkerEvent::Output { line },
    }
}

/// Classify one standard-error line of the worker: always an error line,
/// never parsed.
pub fn classify_stderr_line(line: String) -> (r: WorkerEvent)
    ensures
        r == (WorkerEvent::ErrorLine { line }),
{
    WorkerEvent::ErrorLine { line }
}

/// What a wait request is owed for a given ownership state: the worker when
/// one is active, `WaitError::NoProcess` when none is.
pub open spec fn wait_decision(active: bool) -> Result<(), WaitError> {
    if active {
        Ok(())
    } else {
        Err(WaitError::NoProcess)
    }
}

/// The lifecycle owner of one worker invocation.
///
/// Only the ownership state lives here; the operating-system handle lives in
/// the shell, which consults the orchestrator before every operation and
/// reports each outcome back.
pub struct Orchestrator {
    active: bool,
}

impl Orchestrator {
    /// Whether a worker is currently owned.
    pub closed spec fn active(&self) -> bool {
        self.active
    }

    /// A fresh orchestrator owns no worker.
    pub fn new() -> (r: Orchestrator)
        ensures
            !r.active(),
    {
        Orchestrator { active: false }
    }

    /// Decide whether a spawn may proceed: refused exactly when a worker is
    /// already active. Nothing is owned yet on success; the shell creates
    /// the process and reports through `record_spawn`.
    pub fn authorize_spawn(&self) -> (r: Result<(), SpawnError>)
        ensures
            r is Ok <==> !self.active(),
            r is Err ==> r == Err::<(), SpawnError>(SpawnError::AlreadyActive),
    {
        if self.active {
            Err(SpawnError::AlreadyActive)
        } else {
            Ok(())
        }
    }

    /// Record whether the operating system created the process: the worker
    /// is owned afterwards exactly when it did. A failed spawn retains
    /// nothing.
    pub fn record_spawn(&mut self, ok: bool)
        requires
            !old(self).active(),
        ensures
            final(self).active() == ok,
    {
        self.active = ok;
    }

    /// Consume the worker for a wait. Whatever is decided, no worker is
    /// owned afterwards: ownership is spent by the wait, successful or not.
    pub fn begin_wait(&mut self) -> (r: Result<(), WaitError>)
        ensures
            r == wait_decision(old(self).active()),
            !final(self).active(),
    {
        let was_active = self.active;
        self.active = false;
        if was_active {
            Ok(())
        } else {
            Err(WaitError::NoProcess)
        }
    }

    /// Consume the worker for a kill, telling the shell whether there is a
    /// process to terminate. With no active worker this is a no-op, never an
    /// error — killing before any spawn, or twice, is safe.
    pub fn begin_kill(&mut self) -> (r: bool)
        ensures
            r == old(self).active(),
            !final(self).active(),
    {
        let was_active = self.active;
        self.active = false;
        was_active
    }
}

/// A spawn that failed retains no worker: the state recorded for a failed
/// spawn refuses a following wait with `WaitError::NoProcess` rather than
/// serving it.
pub proof fn lemma_failed_spawn_then_wait_errors()
    ensures
        wait_decision(false) == Err::<(), WaitError>(WaitError::NoProcess),
{
}

/// The exit status the caller sees once the process has terminated: the
/// operating system's code, or `-1` when none exists (the process was ended
/// by a signal).
pub fn exit_status_code(code: Option<i32>) -> (r: i32)
    ensures
        match code {
            Some(c) => r == c,
            None => r == -1,
        },
{
    match code {
        Some(c) => c,
        None => -1,
    }
}

/// The caller-level policy over exit statuses: any non-zero status is a job
/// failure. The orchestrator itself reports the raw code without judgment.
pub fn is_worker_failure(code: i32) -> (r: bool)
    ensures
        r <==> code != 0,
{
    code != 0
}

/// The failure text the caller sees for a non-zero exit status.
pub open spec fn worker_failure_message_spec(code: int) -> Seq<char> {
    "Video generation failed with exit code "@ + dec_chars_signed(code)
}

/// Render the job-failure message for a non-zero exit status.
pub fn worker_failure_message(code: i32) -> (r: String)
    ensures
        r@ == worker_failure_message_spec(code as int),
{
    String::from_str("Video generation failed with exit code ").concat(
        i32_to_string(code).as_str(),
    )
}

} // verus!
