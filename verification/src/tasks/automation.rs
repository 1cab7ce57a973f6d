//! The decisions of the automation engine's loop: it ticks the periodic
//! scheduler, reacts to events by spawning one task per matching rule, and
//! drains the running tasks when it stops.

use vstd::prelude::*;

use super::lifecycle::{is_matching, matching_rules};

verus! {

/// What woke the automation loop.
#[derive(Debug, Clone, PartialEq, Eq)]
pub enum AutomationWake {
    /// The gateway is stopping.
    Stop,
    /// The scheduler interval elapsed.
    Tick,
    /// An event with this key was delivered.
    Event(String),
    /// The event stream lagged and dropped this many events.
    Lagged(u64),
    /// The event stream ended.
    Closed,
}

/// What the automation loop does next.
#[derive(Debug, Clone, PartialEq, Eq)]
pub enum AutomationAction {
    /// Leave the loop and drain the running tasks.
    Shutdown,
    /// Run one scheduler tick.
    RunTick,
    /// Spawn one task for each of these rules, in this order.
    Spawn(Vec<usize>),
    /// Report that this many events were dropped, and carry on.
    ReportLag(u64),
}

/// The automation loop's next action on `wake`, given the event keys of the
/// registered rules in registration order.
pub fn automation_step(rule_keys: &Vec<String>, wake: &AutomationWake) -> (a: AutomationAction)
    ensures
        (*wake is Stop || *wake is Closed) <==> a is Shutdown,
        *wake is Tick <==> a is RunTick,
        *wake matches AutomationWake::Lagged(n) ==> a == AutomationAction::ReportLag(n),
        *wake matches AutomationWake::Event(key) ==> (a matches AutomationAction::Spawn(rules)
            && is_matching(rules@, rule_keys@, key@)),
{
    match wake {
        AutomationWake::Stop | AutomationWake::Closed => AutomationAction::Shutdown,
        AutomationWake::Tick => AutomationAction::RunTick,
        AutomationWake::Event(key) => AutomationAction::Spawn(matching_rules(rule_keys, key.as_str())),
        AutomationWake::Lagged(n) => AutomationAction::ReportLag(*n),
    }
}

} // verus!
