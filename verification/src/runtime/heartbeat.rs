//! Observer heartbeats and gap detection. Instants are microseconds since
//! the Unix epoch (UTC); thresholds are whole seconds.

use vstd::prelude::*;

use crate::domain::values::ObserverRef;
use crate::runtime::config::HealthConfig;
use crate::table::{
    keys_distinct, lemma_table_map_len, table_get, table_insert, table_map,
};
use crate::trusted::now_micros;

verus! {

/// What an observer reports with each heartbeat.
#[derive(Debug, Clone)]
pub struct HeartbeatPayload {
    pub status: ObserverStatus,
    pub last_successful_capture_at: Option<i64>,
    pub pending_count: u32,
}

impl HeartbeatPayload {
    pub fn duplicate(&self) -> (r: Self)
        ensures
            r == *self,
    {
        HeartbeatPayload {
            status: self.status,
            last_successful_capture_at: self.last_successful_capture_at,
            pending_count: self.pending_count,
        }
    }
}

#[derive(Debug, Clone, Copy, PartialEq, Eq, Structural)]
pub enum ObserverStatus {
    Alive,
    Degraded,
    ShuttingDown,
}

/// A silence longer than the observer's threshold. `gap_duration` is in
/// microseconds, `threshold` in seconds.
#[derive(Debug, Clone)]
pub struct GapAlert {
    pub observer: ObserverRef,
    pub last_heartbeat_at: Option<i64>,
    pub gap_duration: u64,
    pub threshold: u64,
}

/// The last heartbeat of one observer and when it arrived.
#[derive(Debug, Clone)]
pub struct HeartbeatRecord {
    pub received_at: i64,
    pub payload: HeartbeatPayload,
}

/// Tracks the last heartbeat of each observer.
pub struct HeartbeatMonitor {
    pub config: HealthConfig,
    /// Records keyed by observer reference, in order of first arrival.
    pub last_heartbeats: Vec<(String, HeartbeatRecord)>,
}

/// The time from `at` to `now` in microseconds; none when `now` is not
/// later.
pub open spec fn elapsed_micros(at: i64, now: i64) -> int {
    if now - at > 0 {
        now - at
    } else {
        0
    }
}

/// The largest silence allowed for an observer, in seconds: its override,
/// else the default.
pub open spec fn max_gap_of(config: HealthConfig, observer: Seq<char>) -> u64 {
    if config.override_map().contains_key(observer) {
        config.override_map()[observer].max_gap
    } else {
        config.default_max_gap
    }
}

/// The alert, if any, for one tracked observer at `now`.
pub open spec fn alert_for(
    config: HealthConfig,
    entry: (String, HeartbeatRecord),
    now: i64,
) -> Option<GapAlert> {
    let threshold = max_gap_of(config, entry.0@);
    let elapsed = elapsed_micros(entry.1.received_at, now);
    if elapsed > threshold * 1_000_000 {
        Some(
            GapAlert {
                observer: ObserverRef(entry.0),
                last_heartbeat_at: Some(entry.1.received_at),
                gap_duration: elapsed as u64,
                threshold,
            },
        )
    } else {
        None
    }
}

/// The alerts of the tracked observers at `now`, in tracking order.
pub open spec fn gap_alerts(
    config: HealthConfig,
    entries: Seq<(String, HeartbeatRecord)>,
    now: i64,
) -> Seq<GapAlert>
    decreases entries.len(),
{
    if entries.len() == 0 {
        Seq::empty()
    } else {
        let rest = gap_alerts(config, entries.drop_last(), now);
        match alert_for(config, entries.last(), now) {
            Some(a) => rest.push(a),
            None => rest,
        }
    }
}

impl HeartbeatMonitor {
    /// No observer is tracked twice and the overrides are distinct.
    pub open spec fn wf(&self) -> bool {
        &&& self.config.wf()
        &&& keys_distinct(self.last_heartbeats@)
    }

    /// The last record of each tracked observer.
    pub open spec fn records(&self) -> Map<Seq<char>, HeartbeatRecord> {
        table_map(self.last_heartbeats@)
    }

    pub fn new(config: HealthConfig) -> (r: Self)
        requires
            config.wf(),
        ensures
            r.wf(),
            r.config == config,
            r.records() == Map::<Seq<char>, HeartbeatRecord>::empty(),
    {
        HeartbeatMonitor { config, last_heartbeats: Vec::new() }
    }

    /// Records a heartbeat received now.
    pub fn receive_heartbeat(&mut self, observer: ObserverRef, payload: HeartbeatPayload)
        requires
            old(self).wf(),
        ensures
            final(self).wf(),
            final(self).config == old(self).config,
            exists|at: i64|
                final(self).records() == old(self).records().insert(
                    observer@,
                    HeartbeatRecord { received_at: at, payload },
                ),
    {
        let at = now_micros();
        self.receive_heartbeat_at(observer, payload, at);
    }

    /// Records a heartbeat received at `at`.
    pub fn receive_heartbeat_at(&mut self, observer: ObserverRef, payload: HeartbeatPayload, at: i64)
        requires
            old(self).wf(),
        ensures
            final(self).wf(),
            final(self).config == old(self).config,
            final(self).records() == old(self).records().insert(
                observer@,
                HeartbeatRecord { received_at: at, payload },
            ),
    {
        table_insert(
            &mut self.last_heartbeats,
            observer.0,
            HeartbeatRecord { received_at: at, payload },
        );
    }

    /// The alerts at `now`: one per tracked observer whose last heartbeat
    /// is older than its threshold.
    pub fn detect_gaps_at(&self, now: i64) -> (r: Vec<GapAlert>)
        requires
            self.wf(),
        ensures
            r@ == gap_alerts(self.config, self.last_heartbeats@, now),
    {
        let mut alerts: Vec<GapAlert> = Vec::new();
        let mut i: usize = 0;
        while i < self.last_heartbeats.len()
            invariant
                i <= self.last_heartbeats@.len(),
                self.wf(),
                alerts@ == gap_alerts(self.config, self.last_heartbeats@.take(i as int), now),
            decreases self.last_heartbeats@.len() - i,
        {
            let entry = &self.last_heartbeats[i];
            assert(self.last_heartbeats@.take(i + 1).drop_last() =~= self.last_heartbeats@.take(
                i as int,
            ));
            assert(self.last_heartbeats@.take(i + 1).last() == self.last_heartbeats@[i as int]);
            let threshold = self.max_gap_for(entry.0.as_str());
            let diff: i128 = now as i128 - entry.1.received_at as i128;
            let elapsed: u64 = if diff > 0 {
                diff as u64
            } else {
                0
            };
            if (elapsed as u128) > (threshold as u128) * 1_000_000 {
                alerts.push(
                    GapAlert {
                        observer: ObserverRef(entry.0.clone()),
                        last_heartbeat_at: Some(entry.1.received_at),
                        gap_duration: elapsed,
                        threshold,
                    },
                );
            }
            i = i + 1;
        }
        assert(self.last_heartbeats@.take(self.last_heartbeats@.len() as int)
            =~= self.last_heartbeats@);
        alerts
    }

    /// The alerts at the current time.
    pub fn detect_gaps(&self) -> (r: Vec<GapAlert>)
        requires
            self.wf(),
        ensures
            exists|now: i64| r@ == gap_alerts(self.config, self.last_heartbeats@, now),
    {
        let now = now_micros();
        self.detect_gaps_at(now)
    }

    /// The last payload received from an observer.
    pub fn last_heartbeat(&self, observer: &ObserverRef) -> (r: Option<&HeartbeatPayload>)
        requires
            self.wf(),
        ensures
            match r {
                Some(p) => self.records().contains_key(observer@) && self.records()[observer@].payload
                    == *p,
                None => !self.records().contains_key(observer@),
            },
    {
        match table_get(&self.last_heartbeats, observer.as_str()) {
            Some(rec) => Some(&rec.payload),
            None => None,
        }
    }

    /// The number of tracked observers.
    pub fn tracked_count(&self) -> (r: usize)
        requires
            self.wf(),
        ensures
            r == self.records().dom().len(),
    {
        proof {
            lemma_table_map_len(self.last_heartbeats@);
        }
        self.last_heartbeats.len()
    }

    fn max_gap_for(&self, observer: &str) -> (r: u64)
        requires
            self.wf(),
        ensures
            r == max_gap_of(self.config, observer@),
    {
        match self.config.override_for(observer) {
            Some(t) => t.max_gap,
            None => self.config.default_max_gap,
        }
    }
}

/// A heartbeat recorded for an observer is the one its next lookup finds,
/// and the records of the other observers are unchanged.
pub proof fn lemma_last_heartbeat_after_receive(
    records: Map<Seq<char>, HeartbeatRecord>,
    observer: Seq<char>,
    record: HeartbeatRecord,
    other: Seq<char>,
)
    requires
        other != observer,
    ensures
        records.insert(observer, record)[observer] == record,
        records.insert(observer, record).contains_key(other) == records.contains_key(other),
        records.contains_key(other) ==> records.insert(observer, record)[other] == records[other],
{
}

/// An observer whose last heartbeat is no older than its threshold raises
/// no alert; one silent for longer raises exactly one, carrying its gap.
pub proof fn lemma_alert_iff_silent_too_long(
    config: HealthConfig,
    entry: (String, HeartbeatRecord),
    now: i64,
)
    ensures
        alert_for(config, entry, now) is Some <==> elapsed_micros(entry.1.received_at, now)
            > max_gap_of(config, entry.0@) * 1_000_000,
{
}

} // verus!
