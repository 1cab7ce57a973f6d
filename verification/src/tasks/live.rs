//! The live registry of running tasks.
//!
//! The durable record of every invocation lives in storage. This registry
//! tracks only the tasks running right now: an entry is inserted when a task
//! starts and removed when it settles. The per-task runtime state (its
//! cancellation signal, progress and abort handle) is carried as the entry's
//! `handle`.

use std::collections::HashMap;

use vstd::prelude::*;

use super::definition::Capabilities;
use super::error::TaskError;
use super::lifecycle::not_running_error;
use vstd::std_specs::iter::IteratorSpec;

verus! {

broadcast use vstd::std_specs::hash::group_hash_axioms;

/// A task currently tracked as running.
pub struct LiveEntry<T> {
    /// The kind of task.
    pub kind: String,
    /// The parent invocation, if any.
    pub parent_id: Option<i64>,
    /// What the kind supports.
    pub capabilities: Capabilities,
    /// The runtime state of the running body.
    pub handle: T,
}

/// What a cancellation request for a task id resolves to.
#[derive(Debug, Clone, Copy, PartialEq, Eq, Structural)]
pub enum CancelDecision {
    /// The task is running and cancellable: its cancellation is requested.
    Requested,
    /// The task is running but its kind is not cancellable.
    NotCancellable,
    /// The task is not running; storage tells an unknown id apart from one
    /// that already finished.
    NotRunning,
}

/// The running tasks, by invocation id.
pub struct LiveTasks<T> {
    running: HashMap<i64, LiveEntry<T>>,
}

impl<T> View for LiveTasks<T> {
    type V = Map<i64, LiveEntry<T>>;

    closed spec fn view(&self) -> Map<i64, LiveEntry<T>> {
        self.running@
    }
}

/// The decision for a cancellation request of `id` against `running`.
pub open spec fn cancel_spec<T>(running: Map<i64, LiveEntry<T>>, id: i64) -> CancelDecision {
    if !running.contains_key(id) {
        CancelDecision::NotRunning
    } else if running[id].capabilities.cancellable {
        CancelDecision::Requested
    } else {
        CancelDecision::NotCancellable
    }
}

impl<T> LiveTasks<T> {
    /// An empty registry.
    pub fn new() -> (l: Self)
        ensures
            l@ == Map::<i64, LiveEntry<T>>::empty(),
    {
        LiveTasks { running: HashMap::new() }
    }

    /// Tracks the started task `id`.
    pub fn start(&mut self, id: i64, entry: LiveEntry<T>)
        ensures
            final(self)@ == old(self)@.insert(id, entry),
    {
        self.running.insert(id, entry);
    }

    /// Stops tracking `id`, returning its entry if it was running. Settling
    /// an id that is not running changes nothing.
    pub fn settle(&mut self, id: i64) -> (r: Option<LiveEntry<T>>)
        ensures
            final(self)@ == old(self)@.remove(id),
            old(self)@.contains_key(id) ==> r == Some(old(self)@[id]),
            !old(self)@.contains_key(id) ==> r is None,
    {
        self.running.remove(&id)
    }

    /// The entry of the running task `id`, if it is running.
    pub fn get(&self, id: i64) -> (r: Option<&LiveEntry<T>>)
        ensures
            self@.contains_key(id) ==> r == Some(&self@[id]),
            !self@.contains_key(id) ==> r is None,
    {
        self.running.get(&id)
    }

    /// The entry of the running parent of a task started under `parent_id`:
    /// a child inherits the cancellation of a parent that is still running,
    /// and starts with its own cancellation otherwise.
    pub fn parent_entry(&self, parent_id: Option<i64>) -> (r: Option<&LiveEntry<T>>)
        ensures
            match parent_id {
                Some(p) => if self@.contains_key(p) {
                    r == Some(&self@[p])
                } else {
                    r is None
                },
                None => r is None,
            },
    {
        match parent_id {
            Some(p) => self.running.get(&p),
            None => None,
        }
    }

    /// Whether `id` is running.
    pub fn is_running(&self, id: i64) -> (b: bool)
        ensures
            b == self@.contains_key(id),
    {
        self.running.contains_key(&id)
    }

    /// Resolves a cancellation request for `id`: requested when the task is
    /// running and cancellable, refused when its kind is not cancellable.
    pub fn cancel(&self, id: i64) -> (d: CancelDecision)
        ensures
            d == cancel_spec(self@, id),
    {
        match self.running.get(&id) {
            Some(entry) => if entry.capabilities.cancellable {
                CancelDecision::Requested
            } else {
                CancelDecision::NotCancellable
            },
            None => CancelDecision::NotRunning,
        }
    }

    /// The answer to a cancellation request for `id`: `true` when
    /// cancellation was requested, `false` when the kind is not cancellable,
    /// and for a task that is not running, [`TaskError::NotRunning`] when
    /// storage holds its record (`recorded`) and [`TaskError::NotFound`]
    /// otherwise.
    pub fn cancel_result(&self, id: i64, recorded: bool) -> (r: Result<bool, TaskError>)
        ensures
            match cancel_spec(self@, id) {
                CancelDecision::Requested => r == Ok::<bool, TaskError>(true),
                CancelDecision::NotCancellable => r == Ok::<bool, TaskError>(false),
                CancelDecision::NotRunning => r == Err::<bool, TaskError>(
                    if recorded { TaskError::NotRunning(id) } else { TaskError::NotFound(id) },
                ),
            },
    {
        match self.cancel(id) {
            CancelDecision::Requested => Ok(true),
            CancelDecision::NotCancellable => Ok(false),
            CancelDecision::NotRunning => Err(not_running_error(id, recorded)),
        }
    }

    /// The ids of the running tasks, each once.
    pub fn ids(&self) -> (ids: Vec<i64>)
        ensures
            ids@.no_duplicates(),
            forall|id: i64| #[trigger] ids@.contains(id) <==> self@.contains_key(id),
    {
        let (interrupt, drain) = self.shutdown_plan();
        let mut ids = interrupt;
        let ghost a = ids@;
        let mut i: usize = 0;
        while i < drain.len()
            invariant
                i <= drain@.len(),
                ids@ == a + drain@.take(i as int),
                a.no_duplicates(),
                drain@.no_duplicates(),
                forall|id: i64| #[trigger] a.contains(id) ==> !drain@.contains(id),
            decreases drain@.len() - i,
        {
            ids.push(drain[i]);
            assert(drain@.take(i + 1) =~= drain@.take(i as int).push(drain@[i as int]));
            i = i + 1;
        }
        assert(drain@.take(drain@.len() as int) =~= drain@);
        proof {
            assert forall|x: int, y: int| 0 <= x < y < ids@.len() implies ids@[x] != ids@[y] by {
                if y < a.len() {
                } else if x >= a.len() {
                    assert(drain@[x - a.len()] != drain@[y - a.len()]);
                } else {
                    assert(a.contains(ids@[x]));
                    assert(drain@.contains(ids@[y]));
                }
            }
            assert forall|id: i64| #[trigger] ids@.contains(id) <==> self@.contains_key(id) by {
                if ids@.contains(id) {
                    let k = choose|k: int| 0 <= k < ids@.len() && ids@[k] == id;
                    if k < a.len() {
                        assert(a.contains(id));
                    } else {
                        assert(drain@[k - a.len()] == id);
                        assert(drain@.contains(id));
                    }
                }
                if self@.contains_key(id) {
                    if self@[id].capabilities.resumable {
                        assert(a.contains(id));
                        let k = choose|k: int| 0 <= k < a.len() && a[k] == id;
                        assert(ids@[k] == id);
                    } else {
                        assert(drain@.contains(id));
                        let k = choose|k: int| 0 <= k < drain@.len() && drain@[k] == id;
                        assert(ids@[a.len() + k] == id);
                    }
                }
            }
        }
        ids
    }

    /// The shutdown plan: resumable tasks are interrupted (aborted and
    /// recorded as interrupted), unresumable tasks are drained (awaited so
    /// they finish cleanly). Every running task is in exactly one list, once.
    pub fn shutdown_plan(&self) -> (plan: (Vec<i64>, Vec<i64>))
        ensures
            plan.0@.no_duplicates(),
            plan.1@.no_duplicates(),
            forall|id: i64| #[trigger] plan.0@.contains(id) <==> self@.contains_key(id)
                && self@[id].capabilities.resumable,
            forall|id: i64| #[trigger] plan.1@.contains(id) <==> self@.contains_key(id)
                && !self@[id].capabilities.resumable,
    {
        let mut interrupt: Vec<i64> = Vec::new();
        let mut drain: Vec<i64> = Vec::new();
        let ghost m = self@;
        let ghost full = vstd::std_specs::hash::spec_hash_map_iter(&self.running).remaining();
        let ghost mut seen: int = 0;
        proof {
            vstd::std_specs::hash::axiom_spec_hash_map_iter(&self.running);
        }
        for (id, entry) in it: self.running.iter()
            invariant
                m == self@,
                it.seq() == full,
                seen == it.index(),
                full.no_duplicates(),
                full.len() == m.dom().len(),
                forall|k: int| 0 <= k < full.len() ==> m.contains_key(*(#[trigger] full[k]).0) && m[*full[k].0] == *full[k].1,
                forall|key: i64| #[trigger] m.contains_key(key) ==> full.contains((&key, &m[key])),
                interrupt@.no_duplicates(),
                drain@.no_duplicates(),
                forall|x: i64| #[trigger] interrupt@.contains(x) <==> exists|k: int| 0 <= k < seen && *(#[trigger] full[k]).0 == x && full[k].1.capabilities.resumable,
                forall|x: i64| #[trigger] drain@.contains(x) <==> exists|k: int| 0 <= k < seen && *(#[trigger] full[k]).0 == x && !full[k].1.capabilities.resumable,
        {
            let ghost k0 = seen;
            assert(full[k0] == (id, entry));
            proof {
                assert forall|k: int| 0 <= k < k0 implies *(#[trigger] full[k]).0 != *id by {
                    if *full[k].0 == *id {
                        assert(*full[k].1 == m[*id]);
                        assert(*full[k0].1 == m[*id]);
                        assert(full[k] == full[k0]);
                    }
                }
            }
            let ghost before_i = interrupt@;
            let ghost before_d = drain@;
            if entry.capabilities.resumable {
                assert(!before_i.contains(*id));
                interrupt.push(*id);
            } else {
                assert(!before_d.contains(*id));
                drain.push(*id);
            }
            proof {
                assert forall|x: i64| #[trigger] interrupt@.contains(x) <==> exists|k: int| 0 <= k < k0 + 1 && *(#[trigger] full[k]).0 == x && full[k].1.capabilities.resumable by {
                    if interrupt@.contains(x) {
                        if x == *id && entry.capabilities.resumable {
                            assert(*full[k0].0 == x);
                        } else {
                            assert(before_i.contains(x));
                        }
                    }
                    if exists|k: int| 0 <= k < k0 + 1 && *(#[trigger] full[k]).0 == x && full[k].1.capabilities.resumable {
                        let k = choose|k: int| 0 <= k < k0 + 1 && *(#[trigger] full[k]).0 == x && full[k].1.capabilities.resumable;
                        if k < k0 {
                            assert(before_i.contains(x));
                            let w = choose|w: int| 0 <= w < before_i.len() && before_i[w] == x;
                            assert(interrupt@[w] == x);
                        } else {
                            assert(interrupt@[before_i.len() as int] == x);
                        }
                    }
                }
                assert forall|x: i64| #[trigger] drain@.contains(x) <==> exists|k: int| 0 <= k < k0 + 1 && *(#[trigger] full[k]).0 == x && !full[k].1.capabilities.resumable by {
                    if drain@.contains(x) {
                        if x == *id && !entry.capabilities.resumable {
                            assert(*full[k0].0 == x);
                        } else {
                            assert(before_d.contains(x));
                        }
                    }
                    if exists|k: int| 0 <= k < k0 + 1 && *(#[trigger] full[k]).0 == x && !full[k].1.capabilities.resumable {
                        let k = choose|k: int| 0 <= k < k0 + 1 && *(#[trigger] full[k]).0 == x && !full[k].1.capabilities.resumable;
                        if k < k0 {
                            assert(before_d.contains(x));
                            let w = choose|w: int| 0 <= w < before_d.len() && before_d[w] == x;
                            assert(drain@[w] == x);
                        } else {
                            assert(drain@[before_d.len() as int] == x);
                        }
                    }
                }
                seen = seen + 1;
            }
        }
        proof {
            assert(seen == full.len());
            assert forall|id: i64| #[trigger] interrupt@.contains(id) <==> m.contains_key(id)
                && m[id].capabilities.resumable by {
                if m.contains_key(id) {
                    assert(full.contains((&id, &m[id])));
                    let k = choose|k: int| 0 <= k < full.len() && full[k] == (&id, &m[id]);
                    assert(*full[k].0 == id);
                }
            }
            assert forall|id: i64| #[trigger] drain@.contains(id) <==> m.contains_key(id)
                && !m[id].capabilities.resumable by {
                if m.contains_key(id) {
                    assert(full.contains((&id, &m[id])));
                    let k = choose|k: int| 0 <= k < full.len() && full[k] == (&id, &m[id]);
                    assert(*full[k].0 == id);
                }
            }
        }
        (interrupt, drain)
    }
}


/// Settling is idempotent: settling an already settled task changes
/// nothing, and a settled task is no longer running.
pub proof fn law_settle_is_idempotent<T>(running: Map<i64, LiveEntry<T>>, id: i64)
    ensures
        running.remove(id).remove(id) == running.remove(id),
        !running.remove(id).contains_key(id),
{
    assert(running.remove(id).remove(id) =~= running.remove(id));
}

/// A started task is running until it settles, and settling it restores
/// the registry as it was before the start when the id was new.
pub proof fn law_start_then_settle<T>(running: Map<i64, LiveEntry<T>>, id: i64, entry: LiveEntry<T>)
    requires
        !running.contains_key(id),
    ensures
        running.insert(id, entry).contains_key(id),
        running.insert(id, entry).remove(id) == running,
{
    assert(running.insert(id, entry).remove(id) =~= running);
}

/// Cancellation is requested exactly for running cancellable tasks.
pub proof fn law_cancel_only_cancellable<T>(running: Map<i64, LiveEntry<T>>, id: i64)
    ensures
        cancel_spec(running, id) == CancelDecision::Requested <==> running.contains_key(id)
            && running[id].capabilities.cancellable,
{
}

/// A running task is never reported as not running: the request is
/// refused as not cancellable for every running task whose kind is not
/// cancellable, whatever its resumability, and `NotRunning` is given
/// exactly for an id that is not running.
pub proof fn law_running_task_is_refused_not_missing<T>(running: Map<i64, LiveEntry<T>>, id: i64)
    ensures
        cancel_spec(running, id) == CancelDecision::NotRunning <==> !running.contains_key(id),
        running.contains_key(id) && !running[id].capabilities.cancellable ==> cancel_spec(
            running,
            id,
        ) == CancelDecision::NotCancellable,
{
}

} // verus!
