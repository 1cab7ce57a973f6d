use aperture::tasks::definition::Capabilities;
use aperture::tasks::error::{RunError, TaskError};
use aperture::tasks::keys::{APPLY_HOSTNAME, DOWNLOAD, REGENERATE_CERTIFICATE, ROTATE_CERTIFICATE};
use aperture::tasks::automation::{automation_step, AutomationAction, AutomationWake};
use aperture::tasks::lifecycle::{
    advance_schedule, check_cancelled, finish_record, not_running_error, reconcile_records,
    running_record, start_check, tick_outcome, interrupted_record, matching_rules, wait_outcome, TaskStatus,
    TICK_BATCH,
};
use aperture::tasks::progress::Progress;
use aperture::tasks::live::{CancelDecision, LiveEntry, LiveTasks};
use aperture::tasks::progress::{ProgressHandle, ProgressMessage};

fn entry(kind: &str, cancellable: bool, resumable: bool) -> LiveEntry<u32> {
    LiveEntry {
        kind: kind.to_string(),
        parent_id: None,
        capabilities: Capabilities { cancellable, resumable },
        handle: 0,
    }
}

#[test]
fn capabilities_none_allows_nothing() {
    let c = Capabilities::none();
    assert!(!c.cancellable);
    assert!(!c.resumable);
}

#[test]
fn task_error_messages() {
    assert_eq!(TaskError::NotFound(7).message(), "task 7 not found");
    assert_eq!(TaskError::NotFound(-3).message(), "task -3 not found");
    assert_eq!(TaskError::NotRunning(42).message(), "task 42 is not running");
    assert_eq!(
        TaskError::NotRegistered("ping".to_string()).message(),
        "no task definition registered for kind \"ping\""
    );
    assert_eq!(
        TaskError::NotRegistered("a\"b".to_string()).message(),
        "no task definition registered for kind \"a\\\"b\""
    );
    assert_eq!(
        TaskError::DecodeInput("eof".to_string()).message(),
        "failed to decode task input"
    );
    assert_eq!(
        TaskError::DecodeOutput("eof".to_string()).message(),
        "failed to decode task output"
    );
    assert_eq!(
        TaskError::EncodeInput("x".to_string()).message(),
        "failed to encode task input"
    );
    assert_eq!(
        TaskError::EncodeOutput("x".to_string()).message(),
        "failed to encode task output"
    );
    assert_eq!(TaskError::Storage("disk full".to_string()).message(), "disk full");
    assert_eq!(
        TaskError::Run(RunError::Cancelled).message(),
        "task was cancelled"
    );
    assert_eq!(
        TaskError::Run(RunError::failed("boom".to_string())).message(),
        "boom"
    );
}

#[test]
fn run_error_from_task_error_keeps_nested_outcomes() {
    assert_eq!(RunError::from(TaskError::Run(RunError::Cancelled)), RunError::Cancelled);
    assert_eq!(
        RunError::from(TaskError::Run(RunError::failed("inner".to_string()))),
        RunError::failed("inner".to_string())
    );
    assert_eq!(
        RunError::from(TaskError::NotFound(9)),
        RunError::failed("task 9 not found".to_string())
    );
    assert_eq!(RunError::Cancelled.message(), "task was cancelled");
}

#[test]
fn finish_record_of_each_outcome() {
    let ok = finish_record(Ok("{\"result\":42}".to_string()));
    assert_eq!(ok.status, TaskStatus::Succeeded);
    assert_eq!(ok.output.as_deref(), Some("{\"result\":42}"));
    assert_eq!(ok.error, None);

    let cancelled = finish_record(Err(TaskError::Run(RunError::Cancelled)));
    assert_eq!(cancelled.status, TaskStatus::Cancelled);
    assert_eq!(cancelled.output, None);
    assert_eq!(cancelled.error, None);

    let failed = finish_record(Err(TaskError::Run(RunError::failed("boom".to_string()))));
    assert_eq!(failed.status, TaskStatus::Failed);
    assert_eq!(failed.error.as_deref(), Some("boom"));

    let missing = finish_record(Err(TaskError::NotRegistered("nope".to_string())));
    assert_eq!(missing.status, TaskStatus::Failed);
    assert_eq!(
        missing.error.as_deref(),
        Some("no task definition registered for kind \"nope\"")
    );

    let interrupted = interrupted_record();
    assert_eq!(interrupted.status, TaskStatus::Interrupted);
    assert_eq!(interrupted.output, None);
    assert_eq!(interrupted.error.as_deref(), Some("interrupted"));
}

#[test]
fn wait_outcome_reads_each_status() {
    assert_eq!(
        wait_outcome(1, TaskStatus::Succeeded, Some("42".to_string()), None),
        Ok("42".to_string())
    );
    assert_eq!(
        wait_outcome(5, TaskStatus::Succeeded, None, None),
        Err(TaskError::Run(RunError::failed(
            "task 5 succeeded without output".to_string()
        )))
    );
    assert_eq!(
        wait_outcome(1, TaskStatus::Cancelled, None, None),
        Err(TaskError::Run(RunError::Cancelled))
    );
    assert_eq!(
        wait_outcome(1, TaskStatus::Failed, None, Some("boom".to_string())),
        Err(TaskError::Run(RunError::failed("boom".to_string())))
    );
    assert_eq!(
        wait_outcome(1, TaskStatus::Failed, None, None),
        Err(TaskError::Run(RunError::failed("task failed".to_string())))
    );
    assert_eq!(
        wait_outcome(1, TaskStatus::Interrupted, None, Some("interrupted".to_string())),
        Err(TaskError::Run(RunError::failed("interrupted".to_string())))
    );
    assert_eq!(
        wait_outcome(12, TaskStatus::Running, None, None),
        Err(TaskError::Run(RunError::failed(
            "task 12 still active after settle".to_string()
        )))
    );
    assert_eq!(
        wait_outcome(3, TaskStatus::Pending, None, None),
        Err(TaskError::Run(RunError::failed(
            "task 3 still active after settle".to_string()
        )))
    );
}

#[test]
fn recorded_outcome_reads_back() {
    let outcomes = vec![
        Ok("{\"result\":42}".to_string()),
        Err(TaskError::Run(RunError::Cancelled)),
        Err(TaskError::Run(RunError::failed("boom".to_string()))),
        Err(TaskError::NotFound(4)),
    ];
    for outcome in outcomes {
        let expected = match &outcome {
            Ok(v) => Ok(v.clone()),
            Err(TaskError::Run(RunError::Cancelled)) => Err(TaskError::Run(RunError::Cancelled)),
            Err(e) => Err(TaskError::Run(RunError::failed(e.full_message()))),
        };
        let record = finish_record(outcome);
        assert_eq!(wait_outcome(8, record.status, record.output, record.error), expected);
    }
}

#[test]
fn matching_rules_in_registration_order() {
    let rules = vec![
        "network.hostname".to_string(),
        "storage.blob".to_string(),
        "network.hostname".to_string(),
    ];
    assert_eq!(matching_rules(&rules, "network.hostname"), vec![0, 2]);
    assert_eq!(matching_rules(&rules, "storage.blob"), vec![1]);
    assert_eq!(matching_rules(&rules, "other"), Vec::<usize>::new());
    assert_eq!(matching_rules(&Vec::new(), "other"), Vec::<usize>::new());
}

#[test]
fn schedule_advances_whether_or_not_a_task_was_created() {
    let created = advance_schedule(0, Some(17));
    assert_eq!(created.last_task_id, Some(17));
    assert_eq!(created.spawned, 1);
    let failed = advance_schedule(created.spawned, None);
    assert_eq!(failed.last_task_id, None);
    assert_eq!(failed.spawned, 1);
    let again = advance_schedule(failed.spawned, Some(18));
    assert_eq!(again.spawned, 2);
    assert_eq!(TICK_BATCH, 32);
}

#[test]
fn task_kind_keys() {
    assert_eq!(DOWNLOAD, "download");
    assert_eq!(ROTATE_CERTIFICATE, "rotate-certificate");
    assert_eq!(REGENERATE_CERTIFICATE, "regenerate-certificate");
    assert_eq!(APPLY_HOSTNAME, "apply-hostname");
}

#[test]
fn live_tasks_track_start_and_settle() {
    let mut live: LiveTasks<u32> = LiveTasks::new();
    assert!(!live.is_running(1));
    live.start(1, entry("download", true, false));
    assert!(live.is_running(1));
    assert_eq!(live.get(1).map(|e| e.kind.as_str()), Some("download"));
    let settled = live.settle(1);
    assert_eq!(settled.map(|e| e.kind), Some("download".to_string()));
    assert!(!live.is_running(1));
    assert!(live.settle(1).is_none());
    assert!(live.get(1).is_none());
}

#[test]
fn cancel_is_refused_for_non_cancellable_running_task() {
    let mut live: LiveTasks<u32> = LiveTasks::new();
    live.start(1, entry("download", true, false));
    live.start(2, entry("rotate-certificate", false, true));
    assert_eq!(live.cancel(1), CancelDecision::Requested);
    assert_eq!(live.cancel(2), CancelDecision::NotCancellable);
    assert_eq!(live.cancel(3), CancelDecision::NotRunning);
}

#[test]
fn shutdown_plan_splits_by_resumability() {
    let mut live: LiveTasks<u32> = LiveTasks::new();
    live.start(1, entry("a", true, true));
    live.start(2, entry("b", false, false));
    live.start(3, entry("c", false, true));
    let (mut interrupt, drain) = live.shutdown_plan();
    interrupt.sort();
    assert_eq!(interrupt, vec![1, 3]);
    assert_eq!(drain, vec![2]);
    let mut ids = live.ids();
    ids.sort();
    assert_eq!(ids, vec![1, 2, 3]);
}

#[test]
fn fresh_progress_is_indeterminate() {
    let handle = ProgressHandle::new();
    let p = handle.state().snapshot();
    assert_eq!(p.done, None);
    assert_eq!(p.total, None);
    assert!(p.message.is_none());
}

#[test]
fn progress_reports_counts_and_message() {
    let mut handle = ProgressHandle::new();
    handle.set_total(10);
    handle.add(3);
    handle.add(4);
    handle.set_message(ProgressMessage::new("task.download.fetching").with("file", "a.bin"));
    let p = handle.state().snapshot();
    assert_eq!(p.done, Some(7));
    assert_eq!(p.total, Some(10));
    let m = p.message.expect("message set");
    assert_eq!(m.key(), "task.download.fetching");
    assert_eq!(m.args(), &[("file".to_string(), "a.bin".to_string())][..]);
    handle.set_done(2);
    assert_eq!(handle.state().snapshot().done, Some(2));
    handle.set_done(0);
    assert_eq!(handle.state().snapshot().done, Some(0));
}

#[test]
fn progress_add_wraps() {
    let mut handle = ProgressHandle::new();
    handle.set_done(u64::MAX);
    handle.add(2);
    assert_eq!(handle.state().snapshot().done, Some(1));
}

#[test]
fn progress_message_arguments_are_sorted_and_replaced() {
    let m = ProgressMessage::new("k")
        .with("zeta", "1")
        .with("alpha", "2")
        .with("mid", "3")
        .with("alpha", "4");
    assert_eq!(m.key(), "k");
    assert_eq!(
        m.args(),
        &[
            ("alpha".to_string(), "4".to_string()),
            ("mid".to_string(), "3".to_string()),
            ("zeta".to_string(), "1".to_string()),
        ][..]
    );
    let c = m.clone();
    assert_eq!(c, m);
}

#[test]
fn automation_step_decides_each_wake() {
    let rules = vec![
        "network.hostname".to_string(),
        "storage.blob".to_string(),
        "network.hostname".to_string(),
    ];
    assert_eq!(automation_step(&rules, &AutomationWake::Stop), AutomationAction::Shutdown);
    assert_eq!(automation_step(&rules, &AutomationWake::Closed), AutomationAction::Shutdown);
    assert_eq!(automation_step(&rules, &AutomationWake::Tick), AutomationAction::RunTick);
    assert_eq!(
        automation_step(&rules, &AutomationWake::Lagged(5)),
        AutomationAction::ReportLag(5)
    );
    assert_eq!(
        automation_step(&rules, &AutomationWake::Event("network.hostname".to_string())),
        AutomationAction::Spawn(vec![0, 2])
    );
    assert_eq!(
        automation_step(&rules, &AutomationWake::Event("other.event".to_string())),
        AutomationAction::Spawn(vec![])
    );
}

#[test]
fn child_inherits_running_parent() {
    let mut live: LiveTasks<u32> = LiveTasks::new();
    live.start(1, entry("parent", true, false));
    assert_eq!(live.parent_entry(Some(1)).map(|e| e.kind.as_str()), Some("parent"));
    assert!(live.parent_entry(Some(2)).is_none());
    assert!(live.parent_entry(None).is_none());
    live.settle(1);
    assert!(live.parent_entry(Some(1)).is_none());
}

#[test]
fn default_progress_values() {
    let m = ProgressMessage::default();
    assert_eq!(m.key(), "");
    assert!(m.args().is_empty());
    let p = Progress::default();
    assert_eq!(p.done, None);
    assert_eq!(p.total, None);
    assert!(p.message.is_none());
}

#[test]
fn cancellation_check_stops_at_safe_points() {
    assert_eq!(check_cancelled(false), Ok(()));
    assert_eq!(check_cancelled(true), Err(TaskError::Run(RunError::Cancelled)));
    assert_eq!(
        RunError::from(check_cancelled(true).unwrap_err()),
        RunError::Cancelled
    );
}

#[test]
fn tick_advances_every_due_schedule_and_counts_spawns() {
    let (marks, spawned) = tick_outcome(&vec![Some(4), None, Some(9)]);
    assert_eq!(marks, vec![Some(4), None, Some(9)]);
    assert_eq!(spawned, 2);
    let (marks, spawned) = tick_outcome(&vec![]);
    assert!(marks.is_empty());
    assert_eq!(spawned, 0);
}

#[test]
fn cancel_results_for_each_case() {
    let mut live: LiveTasks<u32> = LiveTasks::new();
    live.start(1, entry("download", true, false));
    live.start(2, entry("rotate-certificate", false, true));
    assert_eq!(live.cancel_result(1, false), Ok(true));
    assert_eq!(live.cancel_result(2, true), Ok(false));
    assert_eq!(live.cancel_result(3, true), Err(TaskError::NotRunning(3)));
    assert_eq!(live.cancel_result(3, false), Err(TaskError::NotFound(3)));
    assert_eq!(not_running_error(5, true), TaskError::NotRunning(5));
    assert_eq!(not_running_error(5, false), TaskError::NotFound(5));
}

#[test]
fn start_checks_kind_then_input() {
    assert_eq!(start_check("ping", true, Ok(())), Ok(()));
    assert_eq!(
        start_check("nope", false, Err("bad".to_string())),
        Err(TaskError::NotRegistered("nope".to_string()))
    );
    assert_eq!(
        start_check("ping", true, Err("missing field".to_string())),
        Err(TaskError::DecodeInput("missing field".to_string()))
    );
}

#[test]
fn started_task_is_recorded_running() {
    let r = running_record(7, "ping", Some(3), "{}".to_string(), 1_000);
    assert_eq!(r.id, 7);
    assert_eq!(r.kind, "ping");
    assert_eq!(r.parent_id, Some(3));
    assert_eq!(r.status, TaskStatus::Running);
    assert_eq!(r.input, "{}");
    assert_eq!(r.output, None);
    assert_eq!(r.error, None);
    assert_eq!(r.created_at, 1_000);
    assert_eq!(r.started_at, Some(1_000));
    assert_eq!(r.finished_at, None);
}

#[test]
fn reconcile_records_interrupt_each_active_task() {
    let (records, count) = reconcile_records(&vec![4, 8]);
    assert_eq!(count, 2);
    assert_eq!(records.len(), 2);
    assert_eq!(records[0].0, 4);
    assert_eq!(records[1].0, 8);
    for (_, r) in &records {
        assert_eq!(r.status, TaskStatus::Interrupted);
        assert_eq!(r.output, None);
        assert_eq!(r.error.as_deref(), Some("interrupted"));
    }
}

#[test]
fn failures_keep_their_causes() {
    let decode = TaskError::DecodeInput("missing field `x`".to_string());
    assert_eq!(decode.message(), "failed to decode task input");
    assert_eq!(decode.full_message(), "failed to decode task input");
    let run = RunError::from(decode.clone());
    assert_eq!(
        run,
        RunError::Failed {
            message: "failed to decode task input".to_string(),
            sources: vec!["missing field `x`".to_string()],
        }
    );
    assert_eq!(run.message(), "failed to decode task input");
    assert_eq!(run.full_message(), "failed to decode task input: missing field `x`");
    let nested = RunError::Failed {
        message: "outer".to_string(),
        sources: vec!["middle".to_string(), "inner".to_string()],
    };
    assert_eq!(nested.full_message(), "outer: middle: inner");
    assert_eq!(TaskError::Run(nested.clone()).message(), "outer");
    // A failed body is recorded with its causes; a system error directly
    // with its own message.
    let record = finish_record(Err(TaskError::Run(run)));
    assert_eq!(record.error.as_deref(), Some("failed to decode task input: missing field `x`"));
    let direct = finish_record(Err(decode));
    assert_eq!(direct.error.as_deref(), Some("failed to decode task input"));
    assert_eq!(
        RunError::from(TaskError::NotFound(2)),
        RunError::failed("task 2 not found".to_string())
    );
    assert_eq!(RunError::Cancelled.full_message(), "task was cancelled");
}
