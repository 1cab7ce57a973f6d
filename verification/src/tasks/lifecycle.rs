//! The decisions of the task runtime around the durable record of an
//! invocation: what a settled body records, what awaiting a settled task
//! gives back, which automation rules an event triggers, and how a
//! scheduler tick advances a due schedule.

use vstd::prelude::*;

use super::error::{run_error_full_text, task_error_full_text, task_error_text, RunError, TaskError};
use crate::text::{push_signed, push_str, signed_digits, str_eq};

verus! {

/// The recorded status of an invocation.
#[derive(Debug, Clone, Copy, PartialEq, Eq, Structural)]
pub enum TaskStatus {
    Pending,
    Running,
    Succeeded,
    Failed,
    Cancelled,
    Interrupted,
}

/// The terminal record of an invocation: its status, its encoded output
/// on success, and its error message on failure.
pub struct FinishRecord {
    pub status: TaskStatus,
    pub output: Option<String>,
    pub error: Option<String>,
}

/// The texts of an optional string.
pub open spec fn opt_text(s: Option<String>) -> Option<Seq<char>> {
    match s {
        Some(s) => Some(s@),
        None => None,
    }
}

/// The record a body outcome settles into: success keeps the encoded
/// output, a cancelled body is recorded as cancelled, and any other error
/// as failed with its message and, for a failed body, the causes it
/// carries.
pub open spec fn finish_spec(outcome: Result<Seq<char>, TaskError>) -> (TaskStatus, Option<Seq<char>>, Option<Seq<char>>) {
    match outcome {
        Ok(output) => (TaskStatus::Succeeded, Some(output), None),
        Err(TaskError::Run(RunError::Cancelled)) => (TaskStatus::Cancelled, None, None),
        Err(err) => (TaskStatus::Failed, None, Some(task_error_full_text(err))),
    }
}

/// The texts of a body outcome.
pub open spec fn outcome_text(outcome: Result<String, TaskError>) -> Result<Seq<char>, TaskError> {
    match outcome {
        Ok(output) => Ok(output@),
        Err(err) => Err(err),
    }
}

/// The record of a body outcome (see [`finish_spec`]).
pub fn finish_record(outcome: Result<String, TaskError>) -> (r: FinishRecord)
    ensures
        (r.status, opt_text(r.output), opt_text(r.error)) == finish_spec(outcome_text(outcome)),
{
    match outcome {
        Ok(value) => FinishRecord { status: TaskStatus::Succeeded, output: Some(value), error: None },
        Err(TaskError::Run(RunError::Cancelled)) => FinishRecord {
            status: TaskStatus::Cancelled,
            output: None,
            error: None,
        },
        Err(err) => FinishRecord { status: TaskStatus::Failed, output: None, error: Some(err.full_message()) },
    }
}

/// The record of an invocation that a stop interrupted (a resumable task at
/// shutdown, or one left active by a previous process).
pub fn interrupted_record() -> (r: FinishRecord)
    ensures
        r.status == TaskStatus::Interrupted,
        r.output is None,
        opt_text(r.error) == Some("interrupted"@),
{
    let mut error = String::new();
    push_str(&mut error, "interrupted");
    FinishRecord { status: TaskStatus::Interrupted, output: None, error: Some(error) }
}

/// What a body's safe-point cancellation check gives: an error carrying
/// the cancellation once it has been requested, so the body can stop there.
pub fn check_cancelled(is_cancelled: bool) -> (r: Result<(), TaskError>)
    ensures
        r is Ok <==> !is_cancelled,
        is_cancelled ==> r == Err::<(), TaskError>(TaskError::Run(RunError::Cancelled)),
{
    if is_cancelled {
        Err(TaskError::Run(RunError::Cancelled))
    } else {
        Ok(())
    }
}

/// What awaiting a settled task gives back from its record: the encoded
/// output on success, or else whether the task was cancelled and the
/// message of the error: the recorded message for a failed or interrupted
/// task.
pub open spec fn wait_spec(
    id: i64,
    status: TaskStatus,
    output: Option<Seq<char>>,
    error: Option<Seq<char>>,
) -> Result<Seq<char>, (bool, Seq<char>)> {
    match status {
        TaskStatus::Succeeded => match output {
            Some(output) => Ok(output),
            None => Err((false, "task "@ + signed_digits(id as int) + " succeeded without output"@)),
        },
        TaskStatus::Cancelled => Err((true, "task was cancelled"@)),
        TaskStatus::Failed | TaskStatus::Interrupted => Err(
            (
                false,
                match error {
                    Some(error) => error,
                    None => "task failed"@,
                },
            ),
        ),
        TaskStatus::Pending | TaskStatus::Running => Err(
            (false, "task "@ + signed_digits(id as int) + " still active after settle"@),
        ),
    }
}

/// A wait's result as the output text, or whether the task was cancelled
/// and the error's message.
pub open spec fn wait_result_view(r: Result<String, TaskError>) -> Result<Seq<char>, (bool, Seq<char>)> {
    match r {
        Ok(output) => Ok(output@),
        Err(TaskError::Run(RunError::Cancelled)) => Err((true, "task was cancelled"@)),
        Err(TaskError::Run(run)) => Err((false, run_error_full_text(run))),
        Err(other) => Err((false, task_error_text(other))),
    }
}

/// What awaiting the settled task `id` gives back from its recorded status,
/// output and error (see [`wait_spec`]). The caller decodes the output.
pub fn wait_outcome(id: i64, status: TaskStatus, output: Option<String>, error: Option<String>) -> (r: Result<String, TaskError>)
    ensures
        r is Err ==> r->Err_0 matches TaskError::Run(_),
        wait_result_view(r) == wait_spec(id, status, opt_text(output), opt_text(error)),
        r matches Err(TaskError::Run(RunError::Failed { sources, .. })) ==> sources@.len() == 0,
{
    match status {
        TaskStatus::Succeeded => match output {
            Some(output) => Ok(output),
            None => {
                let mut m = String::new();
                push_str(&mut m, "task ");
                push_signed(&mut m, id);
                push_str(&mut m, " succeeded without output");
                Err(TaskError::Run(RunError::failed(m)))
            },
        },
        TaskStatus::Cancelled => {
            proof {
                reveal_strlit("task was cancelled");
            }
            Err(TaskError::Run(RunError::Cancelled))
        },
        TaskStatus::Failed | TaskStatus::Interrupted => {
            let m = match error {
                Some(error) => error,
                None => {
                    let mut m = String::new();
                    push_str(&mut m, "task failed");
                    m
                },
            };
            Err(TaskError::Run(RunError::failed(m)))
        },
        TaskStatus::Pending | TaskStatus::Running => {
            let mut m = String::new();
            push_str(&mut m, "task ");
            push_signed(&mut m, id);
            push_str(&mut m, " still active after settle");
            Err(TaskError::Run(RunError::failed(m)))
        },
    }
}

/// What a body's outcome reads back as, once recorded and awaited: the
/// output it produced, its cancellation, or its failure with the message it
/// failed with.
pub proof fn law_recorded_outcome_reads_back(id: i64, outcome: Result<Seq<char>, TaskError>)
    ensures
        ({
            let (status, output, error) = finish_spec(outcome);
            let read = wait_spec(id, status, output, error);
            match outcome {
                Ok(value) => read == Ok::<Seq<char>, (bool, Seq<char>)>(value),
                Err(TaskError::Run(RunError::Cancelled)) => read == Err::<Seq<char>, (bool, Seq<char>)>((true, "task was cancelled"@)),
                Err(err) => read == Err::<Seq<char>, (bool, Seq<char>)>((false, task_error_full_text(err))),
            }
        }),
{
}

/// `r` lists the indices of the rules whose event key is `event_key`, each
/// once, in registration order.
pub open spec fn is_matching(r: Seq<usize>, rule_keys: Seq<String>, event_key: Seq<char>) -> bool {
    &&& forall|k: int| 0 <= k < r.len() ==> (#[trigger] r[k] as int) < rule_keys.len() && rule_keys[r[k] as int]@ == event_key
    &&& forall|a: int, b: int| 0 <= a < b < r.len() ==> #[trigger] r[a] < #[trigger] r[b]
    &&& forall|i: int| 0 <= i < rule_keys.len() && #[trigger] rule_keys[i]@ == event_key ==> r.contains(i as usize)
}

/// A body's outcome settles as what it was: success as succeeded with its
/// output, a cancelled body as cancelled, and every other error as failed
/// with its full message; no outcome is ever recorded as interrupted or as
/// still active, since those statuses belong to stops and to running tasks.
pub proof fn law_errors_settle_as_failed(outcome: Result<Seq<char>, TaskError>)
    ensures
        finish_spec(outcome).0 != TaskStatus::Interrupted,
        finish_spec(outcome).0 != TaskStatus::Pending,
        finish_spec(outcome).0 != TaskStatus::Running,
        outcome is Ok <==> finish_spec(outcome).0 == TaskStatus::Succeeded,
        outcome is Ok ==> finish_spec(outcome).1 == Some(outcome->Ok_0),
        outcome == Err::<Seq<char>, TaskError>(TaskError::Run(RunError::Cancelled)) <==> finish_spec(outcome).0
            == TaskStatus::Cancelled,
        (outcome matches Err(err) && err != TaskError::Run(RunError::Cancelled)) ==> (finish_spec(outcome).0
            == TaskStatus::Failed && finish_spec(outcome).1 is None && finish_spec(outcome).2 == Some(
            task_error_full_text(outcome->Err_0),
        )),
{
}

/// The indices of the rules whose event key is `event_key`, in registration
/// order: an event spawns one task per matching rule.
pub fn matching_rules(rule_keys: &Vec<String>, event_key: &str) -> (r: Vec<usize>)
    ensures
        is_matching(r@, rule_keys@, event_key@),
{
    let mut r: Vec<usize> = Vec::new();
    let mut i: usize = 0;
    while i < rule_keys.len()
        invariant
            i <= rule_keys@.len(),
            forall|k: int| 0 <= k < r@.len() ==> (#[trigger] r@[k] as int) < i && rule_keys@[r@[k] as int]@ == event_key@,
            forall|a: int, b: int| 0 <= a < b < r@.len() ==> #[trigger] r@[a] < #[trigger] r@[b],
            forall|j: int| 0 <= j < i && #[trigger] rule_keys@[j]@ == event_key@ ==> r@.contains(j as usize),
        decreases rule_keys@.len() - i,
    {
        if str_eq(rule_keys[i].as_str(), event_key) {
            let ghost before = r@;
            r.push(i);
            proof {
                assert forall|j: int| 0 <= j < i + 1 && #[trigger] rule_keys@[j]@ == event_key@ implies r@.contains(j as usize) by {
                    if j < i {
                        let w = choose|w: int| 0 <= w < before.len() && before[w] == j as usize;
                        assert(r@[w] == j as usize);
                    } else {
                        assert(r@[before.len() as int] == i);
                    }
                }
            }
        } else {
            proof {
                assert forall|j: int| 0 <= j < i + 1 && #[trigger] rule_keys@[j]@ == event_key@ implies r@.contains(j as usize) by {
                    if j == i {
                        assert(rule_keys@[j]@ != event_key@);
                    }
                }
            }
        }
        i = i + 1;
    }
    r
}

/// Due schedules handled per scheduler tick.
pub const TICK_BATCH: usize = 32;

/// How a scheduler tick advances one due schedule after trying to create its
/// task: the schedule is always marked as run (so a permanently broken
/// schedule does not fire on every tick), with the created task's id when
/// creation succeeded, and only a created task counts as spawned.
pub struct ScheduleAdvance {
    /// The task id to record as the schedule's last run.
    pub last_task_id: Option<i64>,
    /// The tick's count of spawned tasks so far, this schedule included.
    pub spawned: usize,
}

/// The advance of a due schedule whose creation gave `created`, in a tick
/// that has spawned `spawned` tasks before it.
pub fn advance_schedule(spawned: usize, created: Option<i64>) -> (a: ScheduleAdvance)
    requires
        spawned < usize::MAX,
    ensures
        a.last_task_id == created,
        a.spawned == spawned + (if created is Some { 1int } else { 0int }),
{
    let spawned = if created.is_some() {
        spawned + 1
    } else {
        spawned
    };
    ScheduleAdvance { last_task_id: created, spawned }
}

/// The number of created tasks among a tick's creation results.
pub open spec fn spawned_count(created: Seq<Option<i64>>) -> nat
    decreases created.len(),
{
    if created.len() == 0 {
        0
    } else {
        spawned_count(created.drop_last()) + if created.last() is Some { 1nat } else { 0nat }
    }
}

/// The outcome of one scheduler tick over its due schedules (at most
/// [`TICK_BATCH`]), given what creating each schedule's task gave: every due
/// schedule is advanced, each with the id of its created task (or none when
/// creation failed), and the tick reports how many tasks it spawned.
pub fn tick_outcome(created: &Vec<Option<i64>>) -> (r: (Vec<Option<i64>>, usize))
    requires
        created@.len() <= TICK_BATCH,
    ensures
        r.0@ == created@,
        r.1 == spawned_count(created@),
{
    let mut marks: Vec<Option<i64>> = Vec::new();
    let mut spawned: usize = 0;
    let mut i: usize = 0;
    while i < created.len()
        invariant
            i <= created@.len(),
            created@.len() <= TICK_BATCH,
            marks@ == created@.take(i as int),
            spawned == spawned_count(created@.take(i as int)),
            spawned <= i,
        decreases created@.len() - i,
    {
        let advance = advance_schedule(spawned, created[i]);
        marks.push(advance.last_task_id);
        spawned = advance.spawned;
        proof {
            let next = created@.take(i + 1);
            assert(next.drop_last() =~= created@.take(i as int));
            assert(next.last() == created@[i as int]);
            assert(marks@ =~= next);
        }
        i = i + 1;
    }
    assert(created@.take(created@.len() as int) =~= created@);
    (marks, spawned)
}

/// The error for a cancellation request of a task that is not running: a
/// task that has a record finished already, otherwise there is no such
/// task.
pub fn not_running_error(id: i64, recorded: bool) -> (e: TaskError)
    ensures
        e == (if recorded { TaskError::NotRunning(id) } else { TaskError::NotFound(id) }),
{
    if recorded {
        TaskError::NotRunning(id)
    } else {
        TaskError::NotFound(id)
    }
}

/// Whether a task of `kind` can be started: its kind must be registered,
/// then its input must decode into the kind's input type (`validation`, the
/// decoder's outcome with its message).
pub fn start_check(kind: &str, registered: bool, validation: Result<(), String>) -> (r: Result<(), TaskError>)
    ensures
        r is Ok <==> registered && validation is Ok,
        !registered ==> (r matches Err(TaskError::NotRegistered(k)) && k@ == kind@),
        registered && validation is Err ==> (r matches Err(TaskError::DecodeInput(m))
            && m@ == validation->Err_0@),
{
    if !registered {
        return Err(TaskError::NotRegistered(kind.to_owned()));
    }
    match validation {
        Ok(()) => Ok(()),
        Err(m) => Err(TaskError::DecodeInput(m)),
    }
}

/// The durable record of an invocation.
pub struct InvocationRecord {
    pub id: i64,
    pub kind: String,
    pub parent_id: Option<i64>,
    pub status: TaskStatus,
    /// The input, encoded as JSON.
    pub input: String,
    pub output: Option<String>,
    pub error: Option<String>,
    /// Microseconds since the epoch.
    pub created_at: i64,
    pub started_at: Option<i64>,
    pub finished_at: Option<i64>,
}

/// The record of a task started at `created_at`: it is created already
/// running, started when it was created, with no output, error or finish
/// time yet.
pub fn running_record(id: i64, kind: &str, parent_id: Option<i64>, input: String, created_at: i64) -> (r: InvocationRecord)
    ensures
        r.id == id,
        r.kind@ == kind@,
        r.parent_id == parent_id,
        r.status == TaskStatus::Running,
        r.input@ == input@,
        r.output is None,
        r.error is None,
        r.created_at == created_at,
        r.started_at == Some(created_at),
        r.finished_at is None,
{
    InvocationRecord {
        id,
        kind: kind.to_owned(),
        parent_id,
        status: TaskStatus::Running,
        input,
        output: None,
        error: None,
        created_at,
        started_at: Some(created_at),
        finished_at: None,
    }
}

/// The invocations a previous process left active, recorded as
/// interrupted at startup, each with the interrupted record, and how many
/// there were.
pub fn reconcile_records(active: &Vec<i64>) -> (r: (Vec<(i64, FinishRecord)>, usize))
    ensures
        r.0@.len() == active@.len(),
        r.1 == active@.len(),
        forall|k: int|
            0 <= k < active@.len() ==> (#[trigger] r.0@[k]).0 == active@[k] && r.0@[k].1.status
                == TaskStatus::Interrupted && r.0@[k].1.output is None && opt_text(r.0@[k].1.error)
                == Some("interrupted"@),
{
    let mut records: Vec<(i64, FinishRecord)> = Vec::new();
    let mut i: usize = 0;
    while i < active.len()
        invariant
            i <= active@.len(),
            records@.len() == i,
            forall|k: int|
                0 <= k < i ==> (#[trigger] records@[k]).0 == active@[k] && records@[k].1.status
                    == TaskStatus::Interrupted && records@[k].1.output is None && opt_text(
                    records@[k].1.error,
                ) == Some("interrupted"@),
        decreases active@.len() - i,
    {
        records.push((active[i], interrupted_record()));
        i = i + 1;
    }
    let n = records.len();
    (records, n)
}

} // verus!
