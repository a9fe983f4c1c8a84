//! The audit log: a bounded, insertion-ordered record of lifecycle events.
use vstd::prelude::*;
use crate::bounded::{push_bounded, push_bounded_vec};

verus! {

/// How many events the log retains; older ones are evicted first.
pub const EVENT_LOG_SIZE: usize = 100;

/// The kind of lifecycle transition an event records.
#[derive(Clone, Copy, Debug, PartialEq, Eq, Structural)]
pub enum EventType {
    Created,
    Purchased,
    Expired,
    Settled,
    RiskScoreUpdated,
}

/// One entry of the audit log. Entries are never changed once logged.
#[derive(Debug)]
pub struct ContractEvent {
    pub event_type: EventType,
    pub contract_id: u64,
    pub timestamp: u64,
    pub details: Option<String>,
}

impl Clone for ContractEvent {
    fn clone(&self) -> (r: Self)
        ensures
            r == *self,
    {
        let details = match &self.details {
            Some(d) => Some(d.clone()),
            None => None,
        };
        ContractEvent {
            event_type: self.event_type,
            contract_id: self.contract_id,
            timestamp: self.timestamp,
            details,
        }
    }
}

/// The log after `e` is appended to `log`.
pub open spec fn log_append(log: Seq<ContractEvent>, e: ContractEvent) -> Seq<ContractEvent> {
    push_bounded(log, e, EVENT_LOG_SIZE as nat)
}

/// Appends `event` to the log, evicting the oldest entry when the log is full.
pub fn emit_event(events: &mut Vec<ContractEvent>, event: ContractEvent)
    requires
        old(events)@.len() <= EVENT_LOG_SIZE,
    ensures
        final(events)@ == log_append(old(events)@, event),
        final(events)@.len() <= EVENT_LOG_SIZE,
{
    push_bounded_vec(events, event, EVENT_LOG_SIZE);
}

/// A copy of every event in `events`, oldest first.
pub fn snapshot_events(events: &Vec<ContractEvent>) -> (r: Vec<ContractEvent>)
    ensures
        r@ == events@,
{
    let mut r: Vec<ContractEvent> = Vec::new();
    let mut i: usize = 0;
    while i < events.len()
        invariant
            i <= events@.len(),
            r@ == events@.subrange(0, i as int),
        decreases events@.len() - i,
    {
        r.push(events[i].clone());
        i = i + 1;
    }
    assert(r@ =~= events@);
    r
}

} // verus!
