//! The governance audit trail: a sink for audit events and an emitter
//! that numbers and timestamps them.

use vstd::prelude::*;
use vstd::string::*;

use crate::domain::json::{Json, JsonValue};
use crate::domain::values::ActorRef;
use crate::governance::types::{AuditEvent, AuditEventKind};
use crate::text::{concat2, spec_decimal, u64_to_decimal};
use crate::trusted::now_micros;

verus! {

/// The model of an audit event.
pub struct AuditEntry {
    pub id: Seq<char>,
    pub timestamp: i64,
    pub actor: Seq<char>,
    pub kind: AuditEventKind,
    pub detail: Json,
}

impl View for AuditEvent {
    type V = AuditEntry;

    open spec fn view(&self) -> AuditEntry {
        AuditEntry {
            id: self.id@,
            timestamp: self.timestamp,
            actor: self.actor@,
            kind: self.kind,
            detail: self.detail@,
        }
    }
}

impl AuditEvent {
    /// A second event with the same contents.
    pub fn duplicate(&self) -> (r: AuditEvent)
        ensures
            r@ == self@,
    {
        AuditEvent {
            id: self.id.clone(),
            timestamp: self.timestamp,
            actor: self.actor.duplicate(),
            kind: self.kind,
            detail: self.detail.duplicate(),
        }
    }
}

/// The entries of `events` whose time is at or after `since`, in order.
pub open spec fn entries_since(events: Seq<AuditEntry>, since: i64) -> Seq<AuditEntry>
    decreases events.len(),
{
    if events.len() == 0 {
        events
    } else {
        let earlier = entries_since(events.drop_last(), since);
        if events.last().timestamp >= since {
            earlier.push(events.last())
        } else {
            earlier
        }
    }
}

/// A sink for audit events.
pub trait AuditLog {
    /// The events emitted so far, in order.
    spec fn entries(&self) -> Seq<AuditEntry>;

    fn emit(&mut self, event: AuditEvent)
        ensures
            final(self).entries() == old(self).entries().push(event@),
    ;

    /// The events at or after `since` (microseconds since the epoch).
    fn events_since(&self, since: i64) -> (r: Vec<AuditEvent>)
        ensures
            r@.map_values(|e: AuditEvent| e@) == entries_since(self.entries(), since),
    ;

    fn count(&self) -> (r: usize)
        ensures
            r == self.entries().len(),
    ;
}

/// An audit log held in memory.
pub struct InMemoryAuditLog {
    events: Vec<AuditEvent>,
}

impl InMemoryAuditLog {
    pub fn new() -> (r: Self)
        ensures
            r.entries() == Seq::<AuditEntry>::empty(),
    {
        InMemoryAuditLog { events: Vec::new() }
    }

    /// Every event, in order.
    pub fn all_events(&self) -> (r: Vec<AuditEvent>)
        ensures
            r@.map_values(|e: AuditEvent| e@) == self.entries(),
    {
        let mut out: Vec<AuditEvent> = Vec::new();
        let mut i: usize = 0;
        while i < self.events.len()
            invariant
                i <= self.events@.len(),
                out@.len() == i,
                forall|k: int| 0 <= k < i ==> #[trigger] out@[k]@ == self.events@[k]@,
            decreases self.events@.len() - i,
        {
            let e = self.events[i].duplicate();
            out.push(e);
            i = i + 1;
        }
        assert(out@.map_values(|e: AuditEvent| e@) =~= self.entries());
        out
    }
}

impl AuditLog for InMemoryAuditLog {
    closed spec fn entries(&self) -> Seq<AuditEntry> {
        self.events@.map_values(|e: AuditEvent| e@)
    }

    fn emit(&mut self, event: AuditEvent) {
        self.events.push(event);
        assert(self.events@.map_values(|e: AuditEvent| e@) =~= old(self).events@.map_values(
            |e: AuditEvent| e@,
        ).push(event@));
    }

    fn events_since(&self, since: i64) -> (r: Vec<AuditEvent>) {
        let ghost all = self.entries();
        let mut out: Vec<AuditEvent> = Vec::new();
        let mut i: usize = 0;
        while i < self.events.len()
            invariant
                i <= self.events@.len(),
                all == self.events@.map_values(|e: AuditEvent| e@),
                out@.map_values(|e: AuditEvent| e@) == entries_since(all.take(i as int), since),
            decreases self.events@.len() - i,
        {
            assert(all.take(i + 1).drop_last() =~= all.take(i as int));
            assert(all.take(i + 1).last() == self.events@[i as int]@);
            if self.events[i].timestamp >= since {
                let e = self.events[i].duplicate();
                out.push(e);
                assert(out@.map_values(|e: AuditEvent| e@) =~= entries_since(
                    all.take(i as int),
                    since,
                ).push(self.events@[i as int]@));
            }
            i = i + 1;
        }
        assert(all.take(self.events@.len() as int) =~= all);
        out
    }

    fn count(&self) -> (r: usize) {
        self.events.len()
    }
}

/// Numbers and timestamps audit events and hands them to a log.
pub struct AuditEmitter<L: AuditLog> {
    log: L,
    next_id: u64,
}

/// The id of the `n`-th audit event.
pub open spec fn audit_id(n: nat) -> Seq<char> {
    "audit:"@ + spec_decimal(n)
}

impl<L: AuditLog> AuditEmitter<L> {
    pub fn new(log: L) -> (r: Self)
        ensures
            r.log() == log,
            r.next_id() == 1,
    {
        AuditEmitter { log, next_id: 1 }
    }

    pub closed spec fn log(self) -> L {
        self.log
    }

    /// The number the next event will carry.
    pub closed spec fn next_id(self) -> nat {
        self.next_id as nat
    }

    /// Emits an event `audit:{n}` for the actor, stamped with the current
    /// time; `n` counts up from 1.
    pub fn emit(&mut self, actor: &ActorRef, kind: AuditEventKind, detail: JsonValue)
        requires
            old(self).next_id() < u64::MAX,
        ensures
            final(self).next_id() == old(self).next_id() + 1,
            final(self).log().entries().len() == old(self).log().entries().len() + 1,
            final(self).log().entries().drop_last() == old(self).log().entries(),
            final(self).log().entries().last().id == audit_id(old(self).next_id()),
            final(self).log().entries().last().actor == actor@,
            final(self).log().entries().last().kind == kind,
            final(self).log().entries().last().detail == detail@,
    {
        let number = u64_to_decimal(self.next_id);
        let id = concat2("audit:", number.as_str());
        self.next_id = self.next_id + 1;
        let event = AuditEvent {
            id,
            timestamp: now_micros(),
            actor: actor.duplicate(),
            kind,
            detail,
        };
        self.log.emit(event);
    }

    /// The underlying log.
    pub fn get_log(&self) -> (r: &L)
        ensures
            *r == self.log(),
    {
        &self.log
    }
}

} // verus!
