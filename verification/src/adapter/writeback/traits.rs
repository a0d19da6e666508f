//! The write-back protocol: pushing projection outputs to an external
//! service, one record at a time or in batches.

use vstd::prelude::*;

use crate::adapter::error::{adapter_error_text, AdapterError};
use crate::domain::json::JsonValue;

verus! {

/// A record to write to an external destination.
#[derive(Debug)]
pub struct WriteRecord {
    /// The identifier of the record in this domain (for example a person).
    pub entity_id: String,
    /// Display name or title.
    pub title: String,
    /// The structured payload.
    pub payload: JsonValue,
    /// The external identifier when the record already exists there.
    pub external_id: Option<String>,
}

/// What one write did.
#[derive(Debug, Clone)]
pub struct WriteResult {
    /// The identifier the destination assigned.
    pub external_id: String,
    pub action: WriteAction,
    /// Where the record can be seen, if known.
    pub url: Option<String>,
}

#[derive(Debug, Clone, Copy, PartialEq, Eq, Structural)]
pub enum WriteAction {
    Created,
    Updated,
}

/// The results of a batch: the successful writes and the failures, each in
/// record order.
#[derive(Debug, Clone)]
pub struct BatchWriteResult {
    pub succeeded: Vec<WriteResult>,
    pub failed: Vec<WriteFailure>,
}

/// One failed write of a batch.
#[derive(Debug, Clone)]
pub struct WriteFailure {
    pub entity_id: String,
    pub error: String,
}

/// The successful results among `outcomes`, in order.
pub open spec fn succeeded_of(outcomes: Seq<Result<WriteResult, AdapterError>>) -> Seq<WriteResult>
    decreases outcomes.len(),
{
    if outcomes.len() == 0 {
        Seq::empty()
    } else {
        let rest = succeeded_of(outcomes.drop_last());
        match outcomes.last() {
            Ok(w) => rest.push(w),
            Err(_) => rest,
        }
    }
}

/// The entity identifier and error text of each failed outcome, in order;
/// outcome `i` belongs to record `i`.
pub open spec fn failures_of(
    records: Seq<WriteRecord>,
    outcomes: Seq<Result<WriteResult, AdapterError>>,
) -> Seq<(Seq<char>, Seq<char>)>
    decreases outcomes.len(),
{
    if outcomes.len() == 0 {
        Seq::empty()
    } else {
        let i = outcomes.len() - 1;
        let rest = failures_of(records, outcomes.drop_last());
        match outcomes.last() {
            Ok(_) => rest,
            Err(e) => rest.push((records[i].entity_id@, adapter_error_text(e))),
        }
    }
}

/// The failures of a batch result as (entity identifier, error text).
pub open spec fn failure_views(f: Seq<WriteFailure>) -> Seq<(Seq<char>, Seq<char>)> {
    f.map_values(|x: WriteFailure| (x.entity_id@, x.error@))
}

/// Whether `r` reports exactly the given outcomes of writing `records`.
pub open spec fn batch_reports(
    r: BatchWriteResult,
    records: Seq<WriteRecord>,
    outcomes: Seq<Result<WriteResult, AdapterError>>,
) -> bool {
    &&& r.succeeded@ == succeeded_of(outcomes)
    &&& failure_views(r.failed@) == failures_of(records, outcomes)
}

/// The batch result of writing `records` with the given outcomes, one per
/// record in the same order.
pub fn collect_batch(
    records: &[WriteRecord],
    outcomes: Vec<Result<WriteResult, AdapterError>>,
) -> (r: BatchWriteResult)
    requires
        outcomes@.len() == records@.len(),
    ensures
        batch_reports(r, records@, outcomes@),
{
    let mut succeeded: Vec<WriteResult> = Vec::new();
    let mut failed: Vec<WriteFailure> = Vec::new();
    let ghost all = outcomes@;
    let mut outcomes = outcomes;
    let mut i: usize = 0;
    while i < records.len()
        invariant
            i <= records@.len(),
            all.len() == records@.len(),
            outcomes@ == all.skip(i as int),
            succeeded@ == succeeded_of(all.take(i as int)),
            failure_views(failed@) == failures_of(records@, all.take(i as int)),
        decreases records@.len() - i,
    {
        let outcome = outcomes.remove(0);
        assert(outcome == all[i as int]);
        assert(outcomes@ =~= all.skip(i + 1));
        assert(all.take(i + 1).drop_last() =~= all.take(i as int));
        assert(all.take(i + 1).last() == all[i as int]);
        match outcome {
            Ok(w) => {
                succeeded.push(w);
            },
            Err(e) => {
                let error = e.to_string();
                failed.push(WriteFailure { entity_id: records[i].entity_id.clone(), error });
                assert(failure_views(failed@) =~= failure_views(failed@.drop_last()).push(
                    (records@[i as int].entity_id@, adapter_error_text(e)),
                ));
            },
        }
        i = i + 1;
    }
    assert(all.take(records@.len() as int) =~= all);
    BatchWriteResult { succeeded, failed }
}

/// The write-back protocol that each external destination implements.
pub trait SaaSWriteAdapter {
    /// Creates or updates one record.
    fn write_record(&self, record: &WriteRecord) -> Result<WriteResult, AdapterError>;

    /// Writes each record in turn and reports every outcome; an
    /// implementation may replace this with a bulk call.
    fn write_batch(&self, records: &[WriteRecord]) -> (r: BatchWriteResult)
        default_ensures
            exists|outcomes: Seq<Result<WriteResult, AdapterError>>|
                outcomes.len() == records@.len() && batch_reports(r, records@, outcomes),
    {
        let mut outcomes: Vec<Result<WriteResult, AdapterError>> = Vec::new();
        let mut i: usize = 0;
        while i < records.len()
            invariant
                i <= records@.len(),
                outcomes@.len() == i,
            decreases records@.len() - i,
        {
            outcomes.push(self.write_record(&records[i]));
            i = i + 1;
        }
        let ghost all = outcomes@;
        let r = collect_batch(records, outcomes);
        assert(all.len() == records@.len() && batch_reports(r, records@, all));
        r
    }

    /// The external identifier of the record for `entity_id`, if it exists.
    fn find_existing(&self, entity_id: &str) -> Result<Option<String>, AdapterError>;

    /// Removes a record from the destination.
    fn delete_record(&self, external_id: &str) -> Result<(), AdapterError>;

    /// The destination's name, such as `notion`.
    fn adapter_name(&self) -> &str;
}

/// A batch accounts for every record it was given: each outcome is
/// reported exactly once, as a success or as a failure.
pub proof fn lemma_batch_accounts_for_every_record(
    records: Seq<WriteRecord>,
    outcomes: Seq<Result<WriteResult, AdapterError>>,
)
    ensures
        succeeded_of(outcomes).len() + failures_of(records, outcomes).len() == outcomes.len(),
    decreases outcomes.len(),
{
    if outcomes.len() > 0 {
        lemma_batch_accounts_for_every_record(records, outcomes.drop_last());
    }
}

} // verus!
