//! What an audit says of the events read so far.

use vstd::prelude::*;

use crate::event::Event;
use crate::finding::{FindingModel, ReportModel};
use crate::order::Stamp;
use crate::rules::StateModel;
use crate::{order, rules};

verus! {

/// An event and the line of the stream on which it stood, counted from 1.
pub struct Record {
    pub line: nat,
    pub event: Event,
}

/// The state of `resource` after the events of `records`: those of other resources leave it as it
/// is.
pub open spec fn resource_state(
    records: Seq<Record>,
    resource: Seq<char>,
    grace_ms: u64,
) -> StateModel
    decreases records.len(),
{
    if records.len() == 0 {
        rules::fresh_state()
    } else {
        let before = resource_state(records.drop_last(), resource, grace_ms);
        if records.last().event.resource@ == resource {
            rules::next_state(before, records.last().event, grace_ms)
        } else {
            before
        }
    }
}

/// The stamp of the last event of `records`.
pub open spec fn latest(records: Seq<Record>) -> Option<Stamp> {
    if records.len() == 0 {
        None
    } else {
        Some(order::stamp(records.last().event))
    }
}

/// Every rule that `record` breaks, coming after `records`.
pub open spec fn record_findings(
    records: Seq<Record>,
    record: Record,
    grace_ms: u64,
) -> Seq<FindingModel> {
    order::order_findings(latest(records), record.event, record.line) + rules::event_findings(
        resource_state(records, record.event.resource@, grace_ms),
        record.event,
        record.line,
        grace_ms,
    )
}

/// Every rule that the events of `records` break, in input order.
pub open spec fn all_findings(records: Seq<Record>, grace_ms: u64) -> Seq<FindingModel>
    decreases records.len(),
{
    if records.len() == 0 {
        Seq::empty()
    } else {
        all_findings(records.drop_last(), grace_ms) + record_findings(
            records.drop_last(),
            records.last(),
            grace_ms,
        )
    }
}

/// The resources that the events of `records` name.
pub open spec fn resources(records: Seq<Record>) -> Set<Seq<char>> {
    Set::new(
        |resource: Seq<char>|
            exists|i: int|
                0 <= i < records.len() && (#[trigger] records[i]).event.resource@ == resource,
    )
}

/// The report on the events of `records`.
pub open spec fn audit_report(records: Seq<Record>, grace_ms: u64) -> ReportModel {
    ReportModel {
        events_read: records.len(),
        resources_seen: resources(records).len(),
        violations: all_findings(records, grace_ms),
    }
}

} // verus!
