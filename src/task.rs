//! One task record and the status snapshot computed from it.

use vstd::prelude::*;
use vstd::string::*;
use crate::text::copy_strings;

verus! {

/// Smallest estimate used when projecting progress, in seconds.
pub const MIN_ESTIMATE_SECONDS: u64 = 5;

/// Upper bound of a running task's progress, in hundredths of a percent.
pub const MAX_RUNNING_PROGRESS: u64 = 9900;

/// Lower bound of a running task's progress, in hundredths of a percent.
pub const MIN_RUNNING_PROGRESS: u64 = 100;

/// Progress of a finished task, in hundredths of a percent.
pub const FULL_PROGRESS: u64 = 10000;

/// Exit code recorded when a process gave none or could not be started.
pub const FAILURE_EXIT_CODE: i32 = -1;

/// Lifecycle of a task: it starts `Running` and settles once.
#[derive(Clone, Copy, Debug, PartialEq, Eq, Structural)]
pub enum TaskLifecycleStatus {
    Running,
    Completed,
    Failed,
}

/// The state kept for one submitted command.
pub struct TaskRecord {
    pub task_id: String,
    /// Position in the submission order; ids are derived from it.
    pub sequence: u64,
    pub command: String,
    pub args: Vec<String>,
    pub status: TaskLifecycleStatus,
    /// Monotonic clock reading at insertion, in milliseconds.
    pub started_at_millis: u64,
    pub estimated_total_seconds: u64,
    pub stdout: String,
    pub stderr: String,
    pub exit_code: Option<i32>,
}

/// A computed, read-only view of a task at one instant.
pub struct CommandTaskStatus {
    pub task_id: String,
    pub status: String,
    pub command: String,
    pub args: Vec<String>,
    pub exit_code: Option<i32>,
    pub stdout: String,
    pub stderr: String,
    pub elapsed_seconds: u64,
    pub estimated_total_seconds: u64,
    pub remaining_seconds: u64,
    /// Progress in hundredths of a percent (10000 is complete).
    pub progress_hundredths: u64,
}

pub open spec fn is_terminal(s: TaskLifecycleStatus) -> bool {
    s != TaskLifecycleStatus::Running
}

/// The status a task has after its process reported `code`: a running task
/// completes on exactly 0 and fails otherwise; a settled task keeps its status.
pub open spec fn status_after_exit(s: TaskLifecycleStatus, code: i32) -> TaskLifecycleStatus {
    if s == TaskLifecycleStatus::Running {
        if code == 0 {
            TaskLifecycleStatus::Completed
        } else {
            TaskLifecycleStatus::Failed
        }
    } else {
        s
    }
}

pub open spec fn status_name(s: TaskLifecycleStatus) -> Seq<char> {
    match s {
        TaskLifecycleStatus::Running => "running"@,
        TaskLifecycleStatus::Completed => "completed"@,
        TaskLifecycleStatus::Failed => "failed"@,
    }
}

/// Whole seconds between two clock readings (zero if the clock went back).
pub open spec fn elapsed_seconds_between(started: u64, now: u64) -> u64 {
    if now >= started {
        ((now - started) / 1000) as u64
    } else {
        0
    }
}

/// Elapsed milliseconds reported to the estimator: at least one second.
pub open spec fn observed_millis_between(started: u64, now: u64) -> u64 {
    let e: int = if now >= started { now - started } else { 0 };
    if e < 1000 {
        1000
    } else {
        e as u64
    }
}

/// Progress of a running task in hundredths of a percent: elapsed over the
/// estimate (at least the minimum), clamped to [1%, 99%].
pub open spec fn running_progress(elapsed: u64, estimate: u64) -> u64 {
    let est: int = if estimate < MIN_ESTIMATE_SECONDS { MIN_ESTIMATE_SECONDS as int } else { estimate as int };
    let raw: int = (elapsed as int * FULL_PROGRESS as int) / est;
    if raw < MIN_RUNNING_PROGRESS {
        MIN_RUNNING_PROGRESS
    } else if raw > MAX_RUNNING_PROGRESS {
        MAX_RUNNING_PROGRESS
    } else {
        raw as u64
    }
}

pub open spec fn remaining_seconds_at(t: TaskRecord, now: u64) -> u64 {
    if t.status == TaskLifecycleStatus::Running {
        let e = elapsed_seconds_between(t.started_at_millis, now);
        if t.estimated_total_seconds >= e {
            (t.estimated_total_seconds - e) as u64
        } else {
            0
        }
    } else {
        0
    }
}

pub open spec fn progress_at(t: TaskRecord, now: u64) -> u64 {
    if t.status == TaskLifecycleStatus::Running {
        running_progress(elapsed_seconds_between(t.started_at_millis, now), t.estimated_total_seconds)
    } else {
        FULL_PROGRESS
    }
}

/// The snapshot `s` describes record `t` as seen at clock reading `now`.
pub open spec fn describes(s: CommandTaskStatus, t: TaskRecord, now: u64) -> bool {
    &&& s.task_id@ == t.task_id@
    &&& s.status@ == status_name(t.status)
    &&& s.command@ == t.command@
    &&& s.args@ == t.args@
    &&& s.exit_code == t.exit_code
    &&& s.stdout@ == t.stdout@
    &&& s.stderr@ == t.stderr@
    &&& s.elapsed_seconds == elapsed_seconds_between(t.started_at_millis, now)
    &&& s.estimated_total_seconds == t.estimated_total_seconds
    &&& s.remaining_seconds == remaining_seconds_at(t, now)
    &&& s.progress_hundredths == progress_at(t, now)
}


/// A task settles exactly once: from running, any exit code leads to a
/// finished status, and no later exit report changes it.
pub proof fn lemma_status_settles_once(first: i32, later: i32)
    ensures
        is_terminal(status_after_exit(TaskLifecycleStatus::Running, first)),
        status_after_exit(status_after_exit(TaskLifecycleStatus::Running, first), later)
            == status_after_exit(TaskLifecycleStatus::Running, first),
{
}

/// Exit code 0 and nothing else completes a task.
pub proof fn lemma_exit_code_decides(code: i32)
    ensures
        (status_after_exit(TaskLifecycleStatus::Running, code) == TaskLifecycleStatus::Completed) == (code
            == 0),
        (status_after_exit(TaskLifecycleStatus::Running, code) == TaskLifecycleStatus::Failed) == (code
            != 0),
{
}

/// A running task reports progress between 1% and 99%; a finished one 100%.
pub proof fn lemma_progress_bounds(t: TaskRecord, now: u64)
    ensures
        t.status == TaskLifecycleStatus::Running ==> MIN_RUNNING_PROGRESS <= progress_at(t, now)
            <= MAX_RUNNING_PROGRESS,
        is_terminal(t.status) ==> progress_at(t, now) == FULL_PROGRESS,
{
}

/// Remaining time is zero once a task is finished, and never grows while it
/// runs as the clock advances.
pub proof fn lemma_remaining_non_increasing(t: TaskRecord, earlier: u64, later: u64)
    requires
        earlier <= later,
    ensures
        is_terminal(t.status) ==> remaining_seconds_at(t, later) == 0,
        remaining_seconds_at(t, later) <= remaining_seconds_at(t, earlier),
{
    let s = t.started_at_millis;
    if later >= s && earlier >= s {
        assert((earlier - s) / 1000 <= (later - s) / 1000) by (nonlinear_arith)
            requires
                earlier - s <= later - s,
                earlier >= s,
        ;
    }
}

pub fn task_status_name(status: TaskLifecycleStatus) -> (r: &'static str)
    ensures
        r@ == status_name(status),
{
    match status {
        TaskLifecycleStatus::Running => "running",
        TaskLifecycleStatus::Completed => "completed",
        TaskLifecycleStatus::Failed => "failed",
    }
}

pub fn elapsed_seconds(started_at_millis: u64, now_millis: u64) -> (r: u64)
    ensures
        r == elapsed_seconds_between(started_at_millis, now_millis),
{
    if now_millis >= started_at_millis {
        (now_millis - started_at_millis) / 1000
    } else {
        0
    }
}

pub fn observed_millis(started_at_millis: u64, now_millis: u64) -> (r: u64)
    ensures
        r == observed_millis_between(started_at_millis, now_millis),
        r >= 1000,
{
    let e: u64 = if now_millis >= started_at_millis { now_millis - started_at_millis } else { 0 };
    if e < 1000 {
        1000
    } else {
        e
    }
}

/// Progress of a running task, in hundredths of a percent.
pub fn running_progress_percent(elapsed_seconds: u64, estimated_total_seconds: u64) -> (r: u64)
    ensures
        r == running_progress(elapsed_seconds, estimated_total_seconds),
        MIN_RUNNING_PROGRESS <= r <= MAX_RUNNING_PROGRESS,
{
    let estimate: u64 = if estimated_total_seconds < MIN_ESTIMATE_SECONDS {
        MIN_ESTIMATE_SECONDS
    } else {
        estimated_total_seconds
    };
    assert((elapsed_seconds as u128) * 10000 <= 0xffff_ffff_ffff_ffffu128 * 10000) by (nonlinear_arith);
    let raw: u128 = (elapsed_seconds as u128) * (FULL_PROGRESS as u128) / (estimate as u128);
    if raw < MIN_RUNNING_PROGRESS as u128 {
        MIN_RUNNING_PROGRESS
    } else if raw > MAX_RUNNING_PROGRESS as u128 {
        MAX_RUNNING_PROGRESS
    } else {
        raw as u64
    }
}

/// Computes the snapshot of a record at clock reading `now_millis`; the
/// record itself is left as it is.
pub fn task_to_status(task: &TaskRecord, now_millis: u64) -> (r: CommandTaskStatus)
    ensures
        describes(r, *task, now_millis),
{
    let elapsed = elapsed_seconds(task.started_at_millis, now_millis);
    let remaining_seconds: u64 = if task.status == TaskLifecycleStatus::Running {
        if task.estimated_total_seconds >= elapsed {
            task.estimated_total_seconds - elapsed
        } else {
            0
        }
    } else {
        0
    };
    let progress_hundredths: u64 = match task.status {
        TaskLifecycleStatus::Running => running_progress_percent(elapsed, task.estimated_total_seconds),
        TaskLifecycleStatus::Completed | TaskLifecycleStatus::Failed => FULL_PROGRESS,
    };
    CommandTaskStatus {
        task_id: task.task_id.clone(),
        status: String::from_str(task_status_name(task.status)),
        command: task.command.clone(),
        args: copy_strings(&task.args),
        exit_code: task.exit_code,
        stdout: task.stdout.clone(),
        stderr: task.stderr.clone(),
        elapsed_seconds: elapsed,
        estimated_total_seconds: task.estimated_total_seconds,
        remaining_seconds,
        progress_hundredths,
    }
}

} // verus!
