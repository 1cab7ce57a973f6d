//! The decisions of the database log layer: which spans and events are
//! kept out of the log (those produced while the log itself is being
//! written), where an event's origin comes from, and when the background
//! writer flushes its batch.

use vstd::prelude::*;

use crate::text::str_eq;

verus! {

/// Name of the span wrapping every database flush. Records produced inside
/// it come from writing the log itself and are not recorded, which would
/// otherwise feed back into the next flush.
pub const FLUSH_SPAN_NAME: &'static str = "log_flush";

/// Records batched before the writer flushes without waiting for its tick.
pub const FLUSH_BATCH: usize = 128;

/// Capacity of the channel between the layer and the writer; records sent
/// while it is full are dropped and counted.
pub const CHANNEL_CAPACITY: usize = 4096;

/// Whether a span scope (a span and its ancestors, by name) lies within the
/// flush span.
pub open spec fn scope_in_flush(scope: Seq<Seq<char>>) -> bool {
    exists|i: int| 0 <= i < scope.len() && scope[i] == FLUSH_SPAN_NAME@
}

/// The names of a span scope as texts.
pub open spec fn scope_view(scope: Seq<&str>) -> Seq<Seq<char>> {
    scope.map_values(|n: &str| n@)
}

/// Whether any span of `scope` (a span and its ancestors, by name) is the
/// flush span.
pub fn within_flush(scope: &Vec<&str>) -> (b: bool)
    ensures
        b == scope_in_flush(scope_view(scope@)),
{
    let mut i: usize = 0;
    while i < scope.len()
        invariant
            i <= scope@.len(),
            forall|k: int| 0 <= k < i ==> scope@[k]@ != FLUSH_SPAN_NAME@,
        decreases scope@.len() - i,
    {
        if str_eq(scope[i], FLUSH_SPAN_NAME) {
            assert(scope_view(scope@)[i as int] == FLUSH_SPAN_NAME@);
            return true;
        }
        i = i + 1;
    }
    proof {
        if scope_in_flush(scope_view(scope@)) {
            let i = choose|i: int| 0 <= i < scope_view(scope@).len() && scope_view(scope@)[i]
                == FLUSH_SPAN_NAME@;
            assert(scope@[i]@ == FLUSH_SPAN_NAME@);
        }
    }
    false
}

/// Whether a new span named `name` is left out of the log: the flush span
/// itself, or a span created within it. Where the span is created is the
/// scope of its explicit parent when it names one that still exists, and
/// otherwise the scope of the current span, if any.
pub open spec fn new_span_skipped_spec(
    name: Seq<char>,
    parent_scope: Option<Seq<Seq<char>>>,
    current_scope: Option<Seq<Seq<char>>>,
) -> bool {
    name == FLUSH_SPAN_NAME@ || match parent_scope {
        Some(scope) => scope_in_flush(scope),
        None => match current_scope {
            Some(scope) => scope_in_flush(scope),
            None => false,
        },
    }
}

/// The texts of an optional scope.
pub open spec fn opt_scope_view(scope: Option<&Vec<&str>>) -> Option<Seq<Seq<char>>> {
    match scope {
        Some(s) => Some(scope_view(s@)),
        None => None,
    }
}

/// Whether a new span is left out of the log (see
/// [`new_span_skipped_spec`]); `parent_scope` is the scope of the span's
/// explicit parent, when it has one that still exists.
pub fn new_span_skipped(name: &str, parent_scope: Option<&Vec<&str>>, current_scope: Option<&Vec<&str>>) -> (b: bool)
    ensures
        b == new_span_skipped_spec(name@, opt_scope_view(parent_scope), opt_scope_view(current_scope)),
{
    if str_eq(name, FLUSH_SPAN_NAME) {
        return true;
    }
    match parent_scope {
        Some(scope) => within_flush(scope),
        None => match current_scope {
            Some(scope) => within_flush(scope),
            None => false,
        },
    }
}

/// Where a logged event comes from: its target, source file and line.
pub struct EventOrigin {
    pub target: String,
    pub file: Option<String>,
    pub line: Option<u32>,
}

/// The origin of an event: events bridged from the `log` crate carry their
/// real target, file and line as `log.*` fields, which take precedence over
/// the event's own metadata, field by field.
pub fn event_origin(
    log_target: Option<String>,
    log_file: Option<String>,
    log_line: Option<u32>,
    meta_target: &str,
    meta_file: Option<&str>,
    meta_line: Option<u32>,
) -> (o: EventOrigin)
    ensures
        o.target@ == (match log_target {
            Some(t) => t@,
            None => meta_target@,
        }),
        match log_file {
            Some(f) => o.file matches Some(of) && of@ == f@,
            None => match meta_file {
                Some(f) => o.file matches Some(of) && of@ == f@,
                None => o.file is None,
            },
        },
        o.line == (match log_line {
            Some(l) => Some(l),
            None => meta_line,
        }),
{
    let target = match log_target {
        Some(t) => t,
        None => meta_target.to_owned(),
    };
    let file = match log_file {
        Some(f) => Some(f),
        None => match meta_file {
            Some(f) => Some(f.to_owned()),
            None => None,
        },
    };
    let line = match log_line {
        Some(l) => Some(l),
        None => meta_line,
    };
    EventOrigin { target, file, line }
}

/// What woke the background log writer.
#[derive(Debug, Clone, Copy, PartialEq, Eq, Structural)]
pub enum WriterEvent {
    /// The writer was asked to stop; the records still queued have been
    /// moved into the batch.
    Stop,
    /// A record arrived and was added to the batch.
    Record,
    /// Every sender is gone.
    Closed,
    /// The flush interval elapsed.
    Tick,
}

/// What the background log writer does next.
#[derive(Debug, Clone, Copy, PartialEq, Eq, Structural)]
pub struct WriterAction {
    /// Write the batch (and the dropped-record count) in one transaction.
    pub flush: bool,
    /// Close the spans still open in the database.
    pub close_spans: bool,
    /// Stop the writer.
    pub exit: bool,
}

/// The writer's next action for `event`, with the batch holding `batch_len`
/// records after the event: on a stop or a closed channel it writes what it
/// has, closes the open spans and exits; a record flushes once the batch is
/// full; a tick flushes a nonempty batch.
pub open spec fn writer_step_spec(batch_len: nat, event: WriterEvent) -> WriterAction {
    match event {
        WriterEvent::Stop | WriterEvent::Closed => WriterAction { flush: true, close_spans: true, exit: true },
        WriterEvent::Record => WriterAction {
            flush: batch_len >= FLUSH_BATCH,
            close_spans: false,
            exit: false,
        },
        WriterEvent::Tick => WriterAction { flush: batch_len > 0, close_spans: false, exit: false },
    }
}

/// The writer's next action (see [`writer_step_spec`]).
pub fn writer_step(batch_len: usize, event: WriterEvent) -> (a: WriterAction)
    ensures
        a == writer_step_spec(batch_len as nat, event),
{
    match event {
        WriterEvent::Stop | WriterEvent::Closed => WriterAction { flush: true, close_spans: true, exit: true },
        WriterEvent::Record => WriterAction {
            flush: batch_len >= FLUSH_BATCH,
            close_spans: false,
            exit: false,
        },
        WriterEvent::Tick => WriterAction { flush: batch_len > 0, close_spans: false, exit: false },
    }
}

/// The batch length after an action: a flush empties the batch.
pub open spec fn batch_after(batch_len: nat, a: WriterAction) -> nat {
    if a.flush { 0 } else { batch_len }
}

/// A record never leaves the batch full (a batch that reaches the limit is
/// written at once), a tick leaves nothing pending, and the writer never
/// exits without writing its batch.
pub proof fn law_writer_never_holds_a_full_batch(batch_len: nat, event: WriterEvent)
    ensures
        event == WriterEvent::Record && batch_len <= FLUSH_BATCH ==> batch_after(
            batch_len,
            writer_step_spec(batch_len, event),
        ) < FLUSH_BATCH,
        event == WriterEvent::Tick ==> batch_after(batch_len, writer_step_spec(batch_len, event))
            == 0,
        writer_step_spec(batch_len, event).exit ==> writer_step_spec(batch_len, event).flush,
{
}

/// A span within the flush span, or any span below one, is in the flush.
pub proof fn law_descendants_of_flush_are_skipped(scope: Seq<Seq<char>>, ancestors: Seq<Seq<char>>)
    requires
        scope_in_flush(ancestors),
    ensures
        scope_in_flush(scope + ancestors),
{
    let i = choose|i: int| 0 <= i < ancestors.len() && ancestors[i] == FLUSH_SPAN_NAME@;
    assert((scope + ancestors)[scope.len() + i] == FLUSH_SPAN_NAME@);
}

/// What one flush writes: the batched records, in batch order, in one
/// transaction, followed by the count of dropped records when any were
/// dropped.
pub struct FlushPlan<R> {
    pub writes: Vec<R>,
    pub report_dropped: Option<u64>,
}

/// Plans a flush of `batch` with `dropped` records dropped so far, once
/// opening the log transaction gave `opened`. When it could not be opened
/// nothing is written: the batch and the dropped count stay as they are for
/// the next flush. Otherwise the batch is drained into the writes, in
/// order, and the dropped count is reported only when it is above 0.
pub fn flush_plan<R>(batch: &mut Vec<R>, dropped: u64, opened: bool) -> (p: Option<FlushPlan<R>>)
    ensures
        !opened ==> p is None && final(batch)@ == old(batch)@,
        opened ==> (p matches Some(plan) && plan.writes@ == old(batch)@ && plan.report_dropped == (
        if dropped > 0 {
            Some(dropped)
        } else {
            None::<u64>
        })),
        opened ==> final(batch)@.len() == 0,
{
    if !opened {
        return None;
    }
    let mut writes: Vec<R> = Vec::new();
    std::mem::swap(&mut writes, batch);
    Some(FlushPlan { writes, report_dropped: if dropped > 0 { Some(dropped) } else { None } })
}

/// The dropped count left after a flush that reported `reported` while the
/// counter reads `now`.
pub open spec fn dropped_after_flush_spec(committed: bool, reported: Option<u64>, now: int) -> int {
    match reported {
        Some(count) => if committed { now - count } else { now },
        None => now,
    }
}

/// The dropped count after a flush that reported `reported` (if anything)
/// while the counter now reads `now`: a committed flush takes away exactly
/// the count it wrote, so drops counted meanwhile stay; a flush that failed
/// to commit, or could not open its transaction (and so reported nothing),
/// keeps the whole count for the next one.
pub fn dropped_after_flush(committed: bool, reported: Option<u64>, now: u64) -> (r: u64)
    requires
        committed && reported is Some ==> reported->Some_0 <= now,
    ensures
        r == dropped_after_flush_spec(committed, reported, now as int),
{
    match reported {
        Some(count) => if committed {
            now - count
        } else {
            now
        },
        None => now,
    }
}

/// The dropped count after trying to queue one record: unchanged when it
/// was queued, one more (wrapping, as an atomic add does) when the queue
/// was full.
pub fn dropped_after_send(sent: bool, dropped: u64) -> (r: u64)
    ensures
        r == (if sent { dropped } else { dropped.wrapping_add(1) }),
{
    if sent {
        dropped
    } else {
        dropped.wrapping_add(1)
    }
}

/// No dropped record goes unreported: after a committed flush reported
/// `reported` drops and `later` more were counted meanwhile, exactly those
/// `later` drops remain for the next flush; after a failed flush all of
/// them remain.
pub proof fn law_dropped_records_are_reported_once(reported: u64, later: u64, committed: bool)
    ensures
        dropped_after_flush_spec(committed, Some(reported), reported + later) == (if committed {
            later as int
        } else {
            reported + later
        }),
        dropped_after_flush_spec(committed, None, later as int) == later,
{
}

} // verus!
