//! Error types for the task system.
//!
//! Two concerns are kept apart. [`RunError`] is what a task body returns: the
//! body was cancelled or it failed. [`TaskError`] is the system error for
//! operating the task system: resolving kinds, encoding and decoding
//! payloads, and talking to storage. Underlying errors are carried as their
//! rendered message text.

use vstd::prelude::*;

use crate::text::{debug_quoted, push_signed, push_str, signed_digits, str_debug_text};

verus! {

/// The outcome of a task body that did not succeed.
#[derive(Debug, Clone, PartialEq, Eq)]
pub enum RunError {
    /// The task observed cancellation and stopped at a safe point.
    Cancelled,
    /// The task body failed: the failure's message, then the messages of
    /// the errors that caused it, outermost first.
    Failed { message: String, sources: Vec<String> },
}

/// Errors from operating the task system.
#[derive(Debug, Clone, PartialEq, Eq)]
pub enum TaskError {
    /// No definition is registered for the requested kind.
    NotRegistered(String),
    /// The task input could not be decoded into the kind's input type.
    DecodeInput(String),
    /// The task output could not be decoded into the kind's output type.
    DecodeOutput(String),
    /// The task input could not be encoded to JSON.
    EncodeInput(String),
    /// The task output could not be encoded to JSON.
    EncodeOutput(String),
    /// A storage operation failed.
    Storage(String),
    /// The referenced task is not currently running.
    NotRunning(i64),
    /// The referenced task does not exist.
    NotFound(i64),
    /// The task body did not succeed.
    Run(RunError),
}

/// Messages joined by `": "`, the way an error is shown with its causes.
pub open spec fn chain_text(parts: Seq<Seq<char>>) -> Seq<char>
    decreases parts.len(),
{
    if parts.len() == 0 {
        Seq::empty()
    } else if parts.len() == 1 {
        parts[0]
    } else {
        chain_text(parts.drop_last()) + ": "@ + parts.last()
    }
}

/// The texts of a list of messages.
pub open spec fn texts(v: Seq<String>) -> Seq<Seq<char>> {
    v.map_values(|s: String| s@)
}

/// The message of a body outcome.
pub open spec fn run_error_text(e: RunError) -> Seq<char> {
    match e {
        RunError::Cancelled => "task was cancelled"@,
        RunError::Failed { message, .. } => message@,
    }
}

/// The message of a body outcome followed by its causes.
pub open spec fn run_error_full_text(e: RunError) -> Seq<char> {
    match e {
        RunError::Cancelled => "task was cancelled"@,
        RunError::Failed { message, sources } => chain_text(seq![message@] + texts(sources@)),
    }
}

/// The message of a system error. Payload errors are reported by what
/// failed; transparent variants show the inner message.
pub open spec fn task_error_text(e: TaskError) -> Seq<char> {
    match e {
        TaskError::NotRegistered(kind) => "no task definition registered for kind "@
            + str_debug_text(kind@),
        TaskError::DecodeInput(_) => "failed to decode task input"@,
        TaskError::DecodeOutput(_) => "failed to decode task output"@,
        TaskError::EncodeInput(_) => "failed to encode task input"@,
        TaskError::EncodeOutput(_) => "failed to encode task output"@,
        TaskError::Storage(message) => message@,
        TaskError::NotRunning(id) => "task "@ + signed_digits(id as int) + " is not running"@,
        TaskError::NotFound(id) => "task "@ + signed_digits(id as int) + " not found"@,
        TaskError::Run(run) => run_error_text(run),
    }
}

/// The message of a system error as it is recorded, with causes shown: a
/// body outcome shows its causes; every other error shows its message.
pub open spec fn task_error_full_text(e: TaskError) -> Seq<char> {
    match e {
        TaskError::Run(run) => run_error_full_text(run),
        _ => task_error_text(e),
    }
}

/// The messages of the errors that caused a system error: the decoder's or
/// encoder's message for a payload error, none otherwise.
pub open spec fn task_error_sources(e: TaskError) -> Seq<Seq<char>> {
    match e {
        TaskError::DecodeInput(m) => seq![m@],
        TaskError::DecodeOutput(m) => seq![m@],
        TaskError::EncodeInput(m) => seq![m@],
        TaskError::EncodeOutput(m) => seq![m@],
        _ => Seq::empty(),
    }
}

/// Appends `parts` joined by `": "`.
fn push_chain(out: &mut String, first: &str, rest: &Vec<String>)
    ensures
        final(out)@ == old(out)@ + chain_text(seq![first@] + texts(rest@)),
{
    let ghost start = out@;
    push_str(out, first);
    let mut i: usize = 0;
    assert(seq![first@] + texts(rest@).take(0) =~= seq![first@]);
    while i < rest.len()
        invariant
            i <= rest@.len(),
            out@ == start + chain_text(seq![first@] + texts(rest@).take(i as int)),
        decreases rest@.len() - i,
    {
        push_str(out, ": ");
        push_str(out, rest[i].as_str());
        proof {
            let prev = seq![first@] + texts(rest@).take(i as int);
            let next = seq![first@] + texts(rest@).take(i + 1);
            assert(next.drop_last() =~= prev);
            assert(next.last() == rest@[i as int]@);
            assert(out@ =~= start + chain_text(next));
        }
        i = i + 1;
    }
    assert(texts(rest@).take(rest@.len() as int) =~= texts(rest@));
}

impl RunError {
    /// The message, as `Display` renders it.
    pub fn message(&self) -> (s: String)
        ensures
            s@ == run_error_text(*self),
    {
        match self {
            RunError::Cancelled => {
                let mut s = String::new();
                push_str(&mut s, "task was cancelled");
                s
            },
            RunError::Failed { message, .. } => message.clone(),
        }
    }

    /// The message followed by its causes, as `{:#}` shows it.
    pub fn full_message(&self) -> (s: String)
        ensures
            s@ == run_error_full_text(*self),
    {
        let mut s = String::new();
        match self {
            RunError::Cancelled => push_str(&mut s, "task was cancelled"),
            RunError::Failed { message, sources } => push_chain(&mut s, message.as_str(), sources),
        }
        assert(s@ =~= run_error_full_text(*self));
        s
    }

    /// A failure with `message` and no further cause.
    pub fn failed(message: String) -> (r: RunError)
        ensures
            r matches RunError::Failed { message: m, sources } && m@ == message@ && sources@.len() == 0,
    {
        RunError::Failed { message, sources: Vec::new() }
    }

    /// Lets a task body use task-system calls (spawning a child, awaiting
    /// its output): a nested body outcome is preserved, so a cancelled child
    /// surfaces as [`RunError::Cancelled`]; any other system error becomes a
    /// [`RunError::Failed`] with the error's message and its causes.
    pub fn from(err: TaskError) -> (r: RunError)
        ensures
            err matches TaskError::Run(run) ==> r == run,
            !(err matches TaskError::Run(_)) ==> (r matches RunError::Failed { message, sources }
                && message@ == task_error_text(err) && texts(sources@) == task_error_sources(err)),
    {
        match err {
            TaskError::Run(run) => run,
            other => {
                let message = other.message();
                let mut sources: Vec<String> = Vec::new();
                match other {
                    TaskError::DecodeInput(m) | TaskError::DecodeOutput(m) | TaskError::EncodeInput(m)
                    | TaskError::EncodeOutput(m) => sources.push(m),
                    _ => {},
                }
                assert(texts(sources@) =~= task_error_sources(other));
                RunError::Failed { message, sources }
            },
        }
    }
}

impl TaskError {
    /// The message, as `Display` renders it.
    pub fn message(&self) -> (s: String)
        ensures
            s@ == task_error_text(*self),
    {
        let mut s = String::new();
        match self {
            TaskError::NotRegistered(kind) => {
                push_str(&mut s, "no task definition registered for kind ");
                let quoted = debug_quoted(kind.as_str());
                push_str(&mut s, quoted.as_str());
            },
            TaskError::DecodeInput(_) => push_str(&mut s, "failed to decode task input"),
            TaskError::DecodeOutput(_) => push_str(&mut s, "failed to decode task output"),
            TaskError::EncodeInput(_) => push_str(&mut s, "failed to encode task input"),
            TaskError::EncodeOutput(_) => push_str(&mut s, "failed to encode task output"),
            TaskError::Storage(message) => push_str(&mut s, message.as_str()),
            TaskError::NotRunning(id) => {
                push_str(&mut s, "task ");
                push_signed(&mut s, *id);
                push_str(&mut s, " is not running");
            },
            TaskError::NotFound(id) => {
                push_str(&mut s, "task ");
                push_signed(&mut s, *id);
                push_str(&mut s, " not found");
            },
            TaskError::Run(run) => {
                let m = run.message();
                push_str(&mut s, m.as_str());
            },
        }
        assert(s@ =~= task_error_text(*self));
        s
    }

    /// The message as it is recorded, with causes shown (see
    /// [`task_error_full_text`]).
    pub fn full_message(&self) -> (s: String)
        ensures
            s@ == task_error_full_text(*self),
    {
        match self {
            TaskError::Run(run) => run.full_message(),
            _ => self.message(),
        }
    }
}

} // verus!
