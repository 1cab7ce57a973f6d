//! Live progress reporting for running tasks.
//!
//! Progress is kept in memory only. A running task updates its counters
//! through a [`ProgressHandle`], and the task system reads a [`Progress`]
//! snapshot for display. Finished tasks have no live progress.

use vstd::prelude::*;

use crate::text::{lemma_text_lt_asymmetric, lemma_text_lt_total, lemma_text_lt_transitive, str_eq, str_lt, text_lt};

verus! {

/// The keys of `entries` are strictly increasing.
pub open spec fn keys_sorted(entries: Seq<(Seq<char>, Seq<char>)>) -> bool {
    forall|i: int, j: int| 0 <= i < j < entries.len() ==> text_lt(#[trigger] entries[i].0, #[trigger] entries[j].0)
}

/// A position of `entries` holding the key `k`, if any does.
pub open spec fn key_position(entries: Seq<(Seq<char>, Seq<char>)>, k: Seq<char>) -> int {
    choose|i: int| 0 <= i < entries.len() && #[trigger] entries[i].0 == k
}

/// The map an entry list denotes.
pub open spec fn entries_map(entries: Seq<(Seq<char>, Seq<char>)>) -> Map<Seq<char>, Seq<char>> {
    Map::new(
        |k: Seq<char>| exists|i: int| 0 <= i < entries.len() && #[trigger] entries[i].0 == k,
        |k: Seq<char>| entries[key_position(entries, k)].1,
    )
}

/// A localizable progress message: a translation key plus the arguments to
/// interpolate into it. The frontend resolves the key for the active locale,
/// so no human-readable text crosses this boundary.
#[derive(Debug, PartialEq, Eq)]
pub struct ProgressMessage {
    key: String,
    /// Named arguments, sorted by name, names distinct.
    args: Vec<(String, String)>,
}

impl ProgressMessage {
    /// The arguments as `(name, value)` texts, sorted by name.
    pub closed spec fn entries(self) -> Seq<(Seq<char>, Seq<char>)> {
        self.args@.map_values(|a: (String, String)| (a.0@, a.1@))
    }

    /// The translation key.
    pub closed spec fn key_text(self) -> Seq<char> {
        self.key@
    }

    /// Argument names are kept sorted and distinct.
    #[verifier::type_invariant]
    spec fn wf(self) -> bool {
        keys_sorted(self.entries())
    }

    /// The arguments by name.
    pub open spec fn arg_map(self) -> Map<Seq<char>, Seq<char>> {
        entries_map(self.entries())
    }

    /// A message with the given key and no arguments.
    pub fn new(key: &str) -> (m: Self)
        ensures
            m.key_text() == key@,
            m.entries() == Seq::<(Seq<char>, Seq<char>)>::empty(),
            keys_sorted(m.entries()),
    {
        let args: Vec<(String, String)> = Vec::new();
        assert(args@.map_values(|a: (String, String)| (a.0@, a.1@)) =~= Seq::<(Seq<char>, Seq<char>)>::empty());
        let m = ProgressMessage { key: key.to_owned(), args };
        assert(m.entries() =~= Seq::<(Seq<char>, Seq<char>)>::empty());
        m
    }

    /// The translation key, for example `task.download.fetching`.
    pub fn key(&self) -> (k: &str)
        ensures
            k@ == self.key_text(),
    {
        self.key.as_str()
    }

    /// The arguments as `(name, value)` pairs, sorted by name.
    pub fn args(&self) -> (a: &[(String, String)])
        ensures
            a@.map_values(|p: (String, String)| (p.0@, p.1@)) == self.entries(),
    {
        self.args.as_slice()
    }

    /// Adds an interpolation argument, replacing any earlier value for
    /// `name`, and returns the message, for chaining.
    pub fn with(self, name: &str, value: &str) -> (m: Self)
        ensures
            m.key_text() == self.key_text(),
            keys_sorted(m.entries()),
            m.arg_map() == self.arg_map().insert(name@, value@),
    {
        proof {
            use_type_invariant(&self);
        }
        let ProgressMessage { key, args } = self;
        let ghost old_entries = args@.map_values(|a: (String, String)| (a.0@, a.1@));
        let mut args = args;
        let n = args.len();
        let mut i: usize = 0;
        while i < n && str_lt(args[i].0.as_str(), name)
            invariant
                i <= n,
                n == args@.len(),
                old_entries == args@.map_values(|a: (String, String)| (a.0@, a.1@)),
                forall|a: int| 0 <= a < i ==> text_lt(#[trigger] old_entries[a].0, name@),
            decreases n - i,
        {
            i = i + 1;
        }
        let ghost k = name@;
        let ghost v = value@;
        if i < n && str_eq(args[i].0.as_str(), name) {
            args.set(i, (name.to_owned(), value.to_owned()));
            let ghost new_entries = args@.map_values(|a: (String, String)| (a.0@, a.1@));
            assert(new_entries =~= old_entries.update(i as int, (k, v)));
            proof {
                lemma_map_replace(old_entries, i as int, k, v);
            }
            let m = ProgressMessage { key, args };
            assert(m.entries() == new_entries);
            m
        } else {
            proof {
                if i < n {
                    lemma_text_lt_total(old_entries[i as int].0, k);
                }
            }
            args.insert(i, (name.to_owned(), value.to_owned()));
            let ghost new_entries = args@.map_values(|a: (String, String)| (a.0@, a.1@));
            assert(new_entries =~= old_entries.insert(i as int, (k, v)));
            proof {
                lemma_sorted_insert(old_entries, i as int, k, v);
            }
            let m = ProgressMessage { key, args };
            assert(m.entries() == new_entries);
            m
        }
    }
}

impl Default for ProgressMessage {
    /// A message with an empty key and no arguments.
    fn default() -> (m: Self)
        ensures
            m.key_text() == Seq::<char>::empty(),
            m.entries() == Seq::<(Seq<char>, Seq<char>)>::empty(),
    {
        let args: Vec<(String, String)> = Vec::new();
        assert(args@.map_values(|a: (String, String)| (a.0@, a.1@)) =~= Seq::<(Seq<char>, Seq<char>)>::empty());
        ProgressMessage { key: String::new(), args }
    }
}

impl Clone for ProgressMessage {
    /// A copy of the message with the same key and arguments.
    fn clone(&self) -> (m: Self)
        ensures
            m.key_text() == self.key_text(),
            m.entries() == self.entries(),
    {
        proof {
            use_type_invariant(self);
        }
        let mut args: Vec<(String, String)> = Vec::new();
        let mut i: usize = 0;
        while i < self.args.len()
            invariant
                i <= self.args@.len(),
                args@.len() == i,
                forall|k: int|
                    0 <= k < i ==> (#[trigger] args@[k]).0@ == self.args@[k].0@ && args@[k].1@
                        == self.args@[k].1@,
            decreases self.args@.len() - i,
        {
            let (name, value) = &self.args[i];
            args.push((name.clone(), value.clone()));
            i = i + 1;
        }
        assert(args@.map_values(|a: (String, String)| (a.0@, a.1@)) =~= self.entries());
        let m = ProgressMessage { key: self.key.clone(), args };
        m
    }
}

/// Both messages are absent, or both are present with the same key and
/// arguments.
pub open spec fn same_message(a: Option<ProgressMessage>, b: Option<ProgressMessage>) -> bool {
    match (a, b) {
        (None, None) => true,
        (Some(x), Some(y)) => x.key_text() == y.key_text() && x.entries() == y.entries(),
        _ => false,
    }
}

/// A snapshot of a task's progress. A missing `total` means the size is not
/// known, so the work is indeterminate.
#[derive(Debug, Clone, PartialEq, Eq, Default)]
pub struct Progress {
    /// A localizable description of the current step.
    pub message: Option<ProgressMessage>,
    /// Units of work completed so far, once the task starts reporting.
    pub done: Option<u64>,
    /// Total units of work expected, if known.
    pub total: Option<u64>,
}

/// The mutable progress counters behind a running task.
#[derive(Debug)]
pub struct ProgressState {
    message: Option<ProgressMessage>,
    done: u64,
    total: u64,
    counting: bool,
}

impl ProgressState {
    /// The current step's message.
    pub closed spec fn message_view(self) -> Option<ProgressMessage> {
        self.message
    }

    /// Units completed so far.
    pub closed spec fn done_count(self) -> u64 {
        self.done
    }

    /// Units expected, 0 when unknown.
    pub closed spec fn total_count(self) -> u64 {
        self.total
    }

    /// Whether the task has started reporting completed units.
    pub closed spec fn counting(self) -> bool {
        self.counting
    }

    /// A snapshot of the counters: `done` only once the task reports
    /// completed units, `total` only when it is known (nonzero).
    pub fn snapshot(&self) -> (p: Progress)
        ensures
            same_message(p.message, self.message_view()),
            p.done == (if self.counting() { Some(self.done_count()) } else { None }),
            p.total == (if self.total_count() == 0 { None } else { Some(self.total_count()) }),
    {
        let message = match &self.message {
            Some(m) => Some(m.clone()),
            None => None,
        };
        Progress {
            message,
            done: if self.counting {
                Some(self.done)
            } else {
                None
            },
            total: if self.total == 0 {
                None
            } else {
                Some(self.total)
            },
        }
    }
}

impl Default for ProgressState {
    /// No message, nothing counted, total unknown.
    fn default() -> (s: Self)
        ensures
            s.message_view() is None,
            s.done_count() == 0,
            s.total_count() == 0,
            !s.counting(),
    {
        ProgressState { message: None, done: 0, total: 0, counting: false }
    }
}

/// A handle a running task uses to report its progress.
#[derive(Debug)]
pub struct ProgressHandle {
    state: ProgressState,
}

impl ProgressHandle {
    /// The counters behind the handle.
    pub closed spec fn state_view(self) -> ProgressState {
        self.state
    }

    /// A handle over fresh counters: no message, nothing counted, total
    /// unknown.
    pub fn new() -> (h: Self)
        ensures
            h.state_view().message_view() is None,
            h.state_view().done_count() == 0,
            h.state_view().total_count() == 0,
            !h.state_view().counting(),
    {
        ProgressHandle { state: ProgressState::default() }
    }

    /// The counters, for taking a snapshot.
    pub fn state(&self) -> (s: &ProgressState)
        ensures
            *s == self.state_view(),
    {
        &self.state
    }

    /// Sets the total units of work expected.
    pub fn set_total(&mut self, total: u64)
        ensures
            final(self).state_view().total_count() == total,
            final(self).state_view().done_count() == old(self).state_view().done_count(),
            final(self).state_view().counting() == old(self).state_view().counting(),
            final(self).state_view().message_view() == old(self).state_view().message_view(),
    {
        self.state.total = total;
    }

    /// Sets the units of work completed so far.
    pub fn set_done(&mut self, done: u64)
        ensures
            final(self).state_view().done_count() == done,
            final(self).state_view().counting(),
            final(self).state_view().total_count() == old(self).state_view().total_count(),
            final(self).state_view().message_view() == old(self).state_view().message_view(),
    {
        self.state.done = done;
        self.state.counting = true;
    }

    /// Adds `n` units to the completed count (wrapping at `u64::MAX`, as an
    /// atomic add does).
    pub fn add(&mut self, n: u64)
        ensures
            final(self).state_view().done_count() == old(self).state_view().done_count().wrapping_add(n),
            final(self).state_view().counting(),
            final(self).state_view().total_count() == old(self).state_view().total_count(),
            final(self).state_view().message_view() == old(self).state_view().message_view(),
    {
        self.state.done = self.state.done.wrapping_add(n);
        self.state.counting = true;
    }

    /// Sets the current step as a localizable [`ProgressMessage`].
    pub fn set_message(&mut self, message: ProgressMessage)
        ensures
            final(self).state_view().message_view() == Some(message),
            final(self).state_view().done_count() == old(self).state_view().done_count(),
            final(self).state_view().counting() == old(self).state_view().counting(),
            final(self).state_view().total_count() == old(self).state_view().total_count(),
    {
        self.state.message = Some(message);
    }
}

/// Distinct positions of a sorted entry list hold distinct keys.
proof fn lemma_sorted_distinct(e: Seq<(Seq<char>, Seq<char>)>, i: int, j: int)
    requires
        keys_sorted(e),
        0 <= i < e.len(),
        0 <= j < e.len(),
        i != j,
    ensures
        e[i].0 != e[j].0,
{
    if i < j {
        assert(text_lt(e[i].0, e[j].0));
        lemma_text_lt_asymmetric(e[i].0, e[j].0);
    } else {
        assert(text_lt(e[j].0, e[i].0));
        lemma_text_lt_asymmetric(e[j].0, e[i].0);
    }
}

/// The map of a sorted list maps each key of the list to its entry's value.
proof fn lemma_map_at(e: Seq<(Seq<char>, Seq<char>)>, i: int)
    requires
        keys_sorted(e),
        0 <= i < e.len(),
    ensures
        entries_map(e).contains_key(e[i].0),
        entries_map(e)[e[i].0] == e[i].1,
{
    let k = e[i].0;
    assert(exists|a: int| 0 <= a < e.len() && #[trigger] e[a].0 == k);
    let c = key_position(e, k);
    if c != i {
        lemma_sorted_distinct(e, c, i);
    }
}

/// Replacing the value at a key's position updates the map at that key.
proof fn lemma_map_replace(e: Seq<(Seq<char>, Seq<char>)>, i: int, k: Seq<char>, v: Seq<char>)
    requires
        keys_sorted(e),
        0 <= i < e.len(),
        e[i].0 == k,
    ensures
        keys_sorted(e.update(i, (k, v))),
        entries_map(e.update(i, (k, v))) == entries_map(e).insert(k, v),
{
    let f = e.update(i, (k, v));
    assert(keys_sorted(f)) by {
        assert forall|a: int, b: int| 0 <= a < b < f.len() implies text_lt(#[trigger] f[a].0, #[trigger] f[b].0) by {
            assert(text_lt(e[a].0, e[b].0));
        }
    }
    assert forall|key: Seq<char>| #[trigger] entries_map(f).contains_key(key) == entries_map(e).insert(k, v).contains_key(key) by {
        if exists|a: int| 0 <= a < f.len() && #[trigger] f[a].0 == key {
            let a = choose|a: int| 0 <= a < f.len() && #[trigger] f[a].0 == key;
            assert(e[a].0 == key);
        }
        if exists|a: int| 0 <= a < e.len() && #[trigger] e[a].0 == key {
            let a = choose|a: int| 0 <= a < e.len() && #[trigger] e[a].0 == key;
            assert(f[a].0 == key);
        }
    }
    assert forall|key: Seq<char>| #[trigger] entries_map(f).contains_key(key) implies entries_map(f)[key] == entries_map(e).insert(k, v)[key] by {
        let a = key_position(f, key);
        lemma_map_at(f, a);
        if a != i {
            lemma_map_at(e, a);
            lemma_sorted_distinct(e, a, i);
        }
    }
    assert(entries_map(f) =~= entries_map(e).insert(k, v));
}

/// Inserting a new key at its sorted position keeps the list sorted and adds
/// the key to the map.
proof fn lemma_sorted_insert(e: Seq<(Seq<char>, Seq<char>)>, i: int, k: Seq<char>, v: Seq<char>)
    requires
        keys_sorted(e),
        0 <= i <= e.len(),
        forall|a: int| 0 <= a < i ==> text_lt(#[trigger] e[a].0, k),
        i < e.len() ==> text_lt(k, e[i].0),
    ensures
        keys_sorted(e.insert(i, (k, v))),
        entries_map(e.insert(i, (k, v))) == entries_map(e).insert(k, v),
{
    let f = e.insert(i, (k, v));
    assert forall|a: int, b: int| 0 <= a < b < f.len() implies text_lt(#[trigger] f[a].0, #[trigger] f[b].0) by {
        if b < i {
            assert(text_lt(e[a].0, e[b].0));
        } else if b == i {
        } else if a < i {
            assert(text_lt(e[a].0, k));
            if b - 1 > i {
                assert(text_lt(e[i].0, e[b - 1].0));
                lemma_text_lt_transitive(k, e[i].0, e[b - 1].0);
            }
            lemma_text_lt_transitive(e[a].0, k, e[b - 1].0);
        } else if a == i {
            if b - 1 > i {
                assert(text_lt(e[i].0, e[b - 1].0));
                lemma_text_lt_transitive(k, e[i].0, e[b - 1].0);
            }
        } else {
            assert(text_lt(e[a - 1].0, e[b - 1].0));
        }
    }
    assert(f[i] == (k, v));
    assert forall|key: Seq<char>| #[trigger] entries_map(f).contains_key(key) == entries_map(e).insert(k, v).contains_key(key) by {
        if key == k {
            assert(f[i].0 == key);
        }
        if exists|a: int| 0 <= a < f.len() && #[trigger] f[a].0 == key {
            let a = choose|a: int| 0 <= a < f.len() && #[trigger] f[a].0 == key;
            if a < i {
                assert(e[a].0 == key);
            } else if a > i {
                assert(e[a - 1].0 == key);
            }
        }
        if exists|a: int| 0 <= a < e.len() && #[trigger] e[a].0 == key {
            let a = choose|a: int| 0 <= a < e.len() && #[trigger] e[a].0 == key;
            if a < i {
                assert(f[a].0 == key);
            } else {
                assert(f[a + 1].0 == key);
            }
        }
    }
    assert forall|key: Seq<char>| #[trigger] entries_map(f).contains_key(key) implies entries_map(f)[key] == entries_map(e).insert(k, v)[key] by {
        let a = key_position(f, key);
        lemma_map_at(f, a);
        if a < i {
            lemma_map_at(e, a);
            lemma_sorted_distinct(f, a, i);
        } else if a > i {
            lemma_map_at(e, a - 1);
            lemma_sorted_distinct(f, a, i);
        }
    }
    assert(entries_map(f) =~= entries_map(e).insert(k, v));
}


/// A task that has reported nothing shows indeterminate progress: no
/// message, no completed count, no total.
pub proof fn law_fresh_progress_is_indeterminate(state: ProgressState, p: Progress)
    requires
        state.message_view() is None,
        !state.counting(),
        state.total_count() == 0,
        same_message(p.message, state.message_view()),
        p.done == (if state.counting() { Some(state.done_count()) } else { None }),
        p.total == (if state.total_count() == 0 { None } else { Some(state.total_count()) }),
    ensures
        p.message is None,
        p.done is None,
        p.total is None,
{
}

/// Once a task reports completed units, the snapshot shows the count; a
/// total of zero reads as unknown.
pub proof fn law_reported_counts_show(state: ProgressState, p: Progress)
    requires
        p.done == (if state.counting() { Some(state.done_count()) } else { None }),
        p.total == (if state.total_count() == 0 { None } else { Some(state.total_count()) }),
    ensures
        state.counting() ==> p.done == Some(state.done_count()),
        state.total_count() == 0 <==> p.total is None,
{
}

/// Adding an argument makes it readable under its name, replacing any
/// earlier value, and leaves every other argument as it was.
pub proof fn law_argument_reads_back(
    before: Map<Seq<char>, Seq<char>>,
    after: Map<Seq<char>, Seq<char>>,
    name: Seq<char>,
    value: Seq<char>,
    other: Seq<char>,
)
    requires
        after == before.insert(name, value),
        other != name,
    ensures
        after.contains_key(name),
        after[name] == value,
        after.contains_key(other) == before.contains_key(other),
        before.contains_key(other) ==> after[other] == before[other],
{
}

} // verus!
