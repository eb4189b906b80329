//! Laws of the outcome: what a report says of every event of a stream, stated over the events
//! themselves.

use vstd::prelude::*;

use crate::event::EventKind;
use crate::finding::{FindingCode, FindingModel};
use crate::history::Record;
use crate::laws::{checks, stream};
use crate::order::Stamp;
use crate::rules::LeaseModel;
use crate::{history, order, rules};

verus! {

/// A resource starts without a fence and without a lease. Each of its events moves it on by one
/// step, whatever the kind of the event and whether or not it breaks a rule, and the events of
/// other resources leave it as it is.
pub proof fn law_every_event_moves_its_own_resource(
    records: Seq<Record>,
    record: Record,
    resource: Seq<char>,
    grace_ms: u64,
)
    ensures
        history::resource_state(Seq::empty(), resource, grace_ms).highest_epoch is None,
        history::resource_state(Seq::empty(), resource, grace_ms).active is None,
        record.event.resource@ == resource ==> history::resource_state(
            records.push(record),
            resource,
            grace_ms,
        ) == rules::next_state(
            history::resource_state(records, resource, grace_ms),
            record.event,
            grace_ms,
        ),
        record.event.resource@ != resource ==> history::resource_state(
            records.push(record),
            resource,
            grace_ms,
        ) == history::resource_state(records, resource, grace_ms),
{
    assert(records.push(record).drop_last() =~= records);
}

/// Events of other resources leave a resource as it is, however many they are.
pub proof fn law_other_resources_change_nothing(
    before: Seq<Record>,
    between: Seq<Record>,
    resource: Seq<char>,
    grace_ms: u64,
)
    requires
        forall|j: int|
            0 <= j < between.len() ==> (#[trigger] between[j]).event.resource@ != resource,
    ensures
        history::resource_state(before + between, resource, grace_ms) == history::resource_state(
            before,
            resource,
            grace_ms,
        ),
    decreases between.len(),
{
    if between.len() == 0 {
        assert(before + between =~= before);
    } else {
        let shorter = between.drop_last();
        assert forall|j: int| 0 <= j < shorter.len() implies (
        #[trigger] shorter[j]).event.resource@ != resource by {
            assert(shorter[j] == between[j]);
        }
        law_other_resources_change_nothing(before, shorter, resource, grace_ms);
        law_every_event_moves_its_own_resource(
            before + shorter,
            between.last(),
            resource,
            grace_ms,
        );
        assert((before + shorter).push(between.last()) =~= before + between);
        assert(between.last() == between[between.len() - 1]);
    }
}

/// What is found in a record: first the rules of order, against the record before it in the stream,
/// whatever its resource and whatever was found in it; then the lease rules, against the state to
/// which the earlier records led its resource.
pub proof fn law_record_is_held_against_its_past(
    records: Seq<Record>,
    record: Record,
    grace_ms: u64,
)
    ensures
        history::record_findings(records, record, grace_ms) == order::order_findings(
            if records.len() == 0 {
                None
            } else {
                Some(
                    Stamp {
                        seq: records[records.len() - 1].event.seq,
                        at_ms: records[records.len() - 1].event.at_ms,
                    },
                )
            },
            record.event,
            record.line,
        ) + rules::event_findings(
            history::resource_state(records, record.event.resource@, grace_ms),
            record.event,
            record.line,
            grace_ms,
        ),
{
}

/// Whether a violation is one of order in the stream, and not of a lease.
spec fn of_order(code: FindingCode) -> bool {
    code == FindingCode::SequenceNotIncreasing || code == FindingCode::TimeWentBackwards
}

/// What the lease rules report is never a violation of order.
proof fn lemma_event_findings_are_not_of_order(
    records: Seq<Record>,
    record: Record,
    grace_ms: u64,
)
    ensures
        ({
            let state = history::resource_state(records, record.event.resource@, grace_ms);
            let found = rules::event_findings(state, record.event, record.line, grace_ms);
            forall|k: int| 0 <= k < found.len() ==> !of_order((#[trigger] found[k]).code)
        }),
{
    let state = history::resource_state(records, record.event.resource@, grace_ms);
    let event = record.event;
    let line = record.line;
    checks::law_event_goes_by_its_kind(state, event, line, grace_ms);
    match event.kind {
        EventKind::Grant { owner, epoch, lease_until_ms } => {
            checks::law_grant_findings(state, event, line, epoch, lease_until_ms);
        },
        EventKind::Renew { owner, epoch, lease_until_ms } => {
            checks::law_renewal_findings(
                state,
                event,
                line,
                owner@,
                epoch,
                lease_until_ms,
                grace_ms,
            );
        },
        EventKind::Revoke { owner, epoch } => {
            checks::law_revocation_findings(state, event, line, owner@, epoch);
        },
        EventKind::Action { owner, epoch, operation } => {
            checks::law_action_findings(state, event, line, owner@, epoch, operation@, grace_ms);
        },
    }
}

/// Every record of a stream but the first is held against the one just before it: its sequence
/// number is reported exactly when it is not greater, and its time exactly when it is earlier. The
/// first record is reported for neither.
pub proof fn law_order_is_checked_at_every_record(records: Seq<Record>, i: int, grace_ms: u64)
    requires
        0 <= i < records.len(),
    ensures
        ({
            let found = history::record_findings(records.take(i), records[i], grace_ms);
            &&& (exists|k: int|
                0 <= k < found.len() && (#[trigger] found[k]).code
                    == FindingCode::SequenceNotIncreasing) <==> i > 0 && records[i].event.seq
                <= records[i - 1].event.seq
            &&& (exists|k: int|
                0 <= k < found.len() && (#[trigger] found[k]).code
                    == FindingCode::TimeWentBackwards) <==> i > 0 && records[i].event.at_ms
                < records[i - 1].event.at_ms
        }),
{
    let past = records.take(i);
    let record = records[i];
    let found = history::record_findings(past, record, grace_ms);
    let previous = if i == 0 {
        None
    } else {
        Some(Stamp { seq: records[i - 1].event.seq, at_ms: records[i - 1].event.at_ms })
    };
    let first = order::order_findings(previous, record.event, record.line);
    let state = history::resource_state(past, record.event.resource@, grace_ms);
    let second = rules::event_findings(state, record.event, record.line, grace_ms);
    law_record_is_held_against_its_past(past, record, grace_ms);
    assert(found == first + second);
    checks::law_order_findings(previous, record.event, record.line);
    lemma_event_findings_are_not_of_order(past, record, grace_ms);
    assert(forall|k: int| 0 <= k < first.len() ==> found[k] == #[trigger] first[k]);
    assert(forall|k: int|
        first.len() <= k < found.len() ==> #[trigger] found[k] == second[k - first.len()]);
}

/// The report on no events holds nothing. One more event adds exactly what is found in it, after
/// all that was found before, and counts one more event; it counts one more resource exactly when
/// no earlier event names that resource.
pub proof fn law_report_grows_with_each_event(
    records: Seq<Record>,
    record: Record,
    grace_ms: u64,
)
    ensures
        history::audit_report(Seq::empty(), grace_ms).events_read == 0,
        history::audit_report(Seq::empty(), grace_ms).resources_seen == 0,
        history::audit_report(Seq::empty(), grace_ms).violations.len() == 0,
        history::audit_report(records.push(record), grace_ms).events_read
            == history::audit_report(records, grace_ms).events_read + 1,
        history::audit_report(records.push(record), grace_ms).resources_seen
            == history::audit_report(records, grace_ms).resources_seen + (if exists|i: int|
            0 <= i < records.len() && (#[trigger] records[i]).event.resource@
                == record.event.resource@ {
            0int
        } else {
            1
        }),
        history::audit_report(records.push(record), grace_ms).violations == history::audit_report(
            records,
            grace_ms,
        ).violations + history::record_findings(records, record, grace_ms),
{
    let longer = records.push(record);
    assert(longer.drop_last() =~= records);
    lemma_resources(records);
    lemma_resources(longer);
    lemma_resources(Seq::empty());
    assert(named(longer) =~= named(records).push(record.event.resource@));
    assert(named(longer).to_set() =~= named(records).to_set().insert(record.event.resource@)) by {
        broadcast use vstd::seq_lib::group_seq_properties;

    }
    assert(named(Seq::<Record>::empty()).to_set() =~= Set::empty());
    vstd::seq_lib::seq_to_set_is_finite(named(records));
    assert((exists|i: int|
        0 <= i < records.len() && (#[trigger] records[i]).event.resource@ == record.event.resource@)
        <==> named(records).contains(record.event.resource@)) by {
        if named(records).contains(record.event.resource@) {
            let i = choose|i: int|
                0 <= i < named(records).len() && named(records)[i] == record.event.resource@;
            assert(records[i].event.resource@ == record.event.resource@);
        }
        if exists|i: int|
            0 <= i < records.len() && (#[trigger] records[i]).event.resource@
                == record.event.resource@ {
            let i = choose|i: int|
                0 <= i < records.len() && (#[trigger] records[i]).event.resource@
                    == record.event.resource@;
            assert(named(records)[i] == record.event.resource@);
        }
    }
}

/// The resource that each record names.
spec fn named(records: Seq<Record>) -> Seq<Seq<char>> {
    records.map_values(|record: Record| record.event.resource@)
}

/// The resources of a stream are those that its records name.
proof fn lemma_resources(records: Seq<Record>)
    ensures
        history::resources(records) == named(records).to_set(),
{
    assert forall|resource: Seq<char>|
        history::resources(records).contains(resource) <==> #[trigger] named(
            records,
        ).to_set().contains(resource) by {
        if history::resources(records).contains(resource) {
            let i = choose|i: int|
                0 <= i < records.len() && (#[trigger] records[i]).event.resource@ == resource;
            assert(named(records)[i] == resource);
        }
        if named(records).contains(resource) {
            let i = choose|i: int|
                0 <= i < named(records).len() && named(records)[i] == resource;
            assert(records[i].event.resource@ == resource);
        }
    }
    assert(history::resources(records) =~= named(records).to_set());
}

/// A report counts the events, counts each resource once however often it is named, and holds the
/// findings of every event, one after the other in input order: none is left out, however many
/// there are, and none is added.
pub proof fn law_report_holds_every_finding(records: Seq<Record>, grace_ms: u64)
    ensures
        ({
            let report = history::audit_report(records, grace_ms);
            &&& report.events_read == records.len()
            &&& report.resources_seen == records.map_values(
                |record: Record| record.event.resource@,
            ).to_set().len()
            &&& report.violations == Seq::new(
                records.len(),
                |i: int| history::record_findings(records.take(i), records[i], grace_ms),
            ).flatten()
        }),
    decreases records.len(),
{
    lemma_resources(records);
    let found = Seq::new(
        records.len(),
        |i: int| history::record_findings(records.take(i), records[i], grace_ms),
    );
    if records.len() == 0 {
        assert(found =~= Seq::empty());
        assert(found.flatten() =~= Seq::empty());
    } else {
        let shorter = records.drop_last();
        let found_before = Seq::new(
            shorter.len(),
            |i: int| history::record_findings(shorter.take(i), shorter[i], grace_ms),
        );
        law_report_holds_every_finding(shorter, grace_ms);
        let last = history::record_findings(shorter, records.last(), grace_ms);
        assert forall|i: int| 0 <= i < shorter.len() implies found[i] == found_before[i] by {
            assert(shorter.take(i) =~= records.take(i));
        }
        assert(records.take(records.len() - 1) =~= shorter);
        assert(found =~= found_before.push(last));
        found_before.lemma_flatten_push(last);
    }
}

/// A report has as many violations as its events have findings, event by event.
pub proof fn law_violations_add_up(records: Seq<Record>, grace_ms: u64)
    ensures
        history::audit_report(records, grace_ms).violations.len() == Seq::new(
            records.len(),
            |i: int| history::record_findings(records.take(i), records[i], grace_ms).len() as int,
        ).fold_left(0int, |sum: int, count: int| sum + count),
    decreases records.len(),
{
    let counts = Seq::new(
        records.len(),
        |i: int| history::record_findings(records.take(i), records[i], grace_ms).len() as int,
    );
    let plus = |sum: int, count: int| sum + count;
    if records.len() > 0 {
        let shorter = records.drop_last();
        let counts_before = Seq::new(
            shorter.len(),
            |i: int| history::record_findings(shorter.take(i), shorter[i], grace_ms).len() as int,
        );
        law_violations_add_up(shorter, grace_ms);
        law_report_grows_with_each_event(shorter, records.last(), grace_ms);
        assert(shorter.push(records.last()) =~= records);
        assert forall|i: int| 0 <= i < shorter.len() implies counts[i] == counts_before[i] by {
            assert(shorter.take(i) =~= records.take(i));
        }
        assert(records.take(records.len() - 1) =~= shorter);
        assert(counts.drop_last() =~= counts_before);
        assert(counts.fold_left(0int, plus) == plus(
            counts.drop_last().fold_left(0int, plus),
            counts.last(),
        ));
    }
}

/// Whatever is found in any event of a stream is in the report, with its code, line, sequence
/// number, resource and message.
pub proof fn law_every_finding_is_reported(records: Seq<Record>, i: int, m: int, grace_ms: u64)
    requires
        0 <= i < records.len(),
        0 <= m < history::record_findings(records.take(i), records[i], grace_ms).len(),
    ensures
        ({
            let found = history::record_findings(records.take(i), records[i], grace_ms)[m];
            let violations = history::audit_report(records, grace_ms).violations;
            exists|k: int|
                0 <= k < violations.len() && {
                    &&& (#[trigger] violations[k]).code == found.code
                    &&& violations[k].line == records[i].line
                    &&& violations[k].seq == records[i].event.seq
                    &&& violations[k].resource == records[i].event.resource@
                    &&& violations[k].message == found.message
                }
        }),
    decreases records.len(),
{
    let found = history::record_findings(records.take(i), records[i], grace_ms)[m];
    let violations = history::audit_report(records, grace_ms).violations;
    let shorter = records.drop_last();
    let before = history::audit_report(shorter, grace_ms).violations;
    law_report_grows_with_each_event(shorter, records.last(), grace_ms);
    assert(shorter.push(records.last()) =~= records);
    if i == records.len() - 1 {
        assert(records.take(i) =~= shorter);
        assert(violations[before.len() + m] == found);
        stream::law_findings_identify_their_record(records.take(i), records[i], grace_ms, m);
    } else {
        assert(shorter.take(i) =~= records.take(i));
        law_every_finding_is_reported(shorter, i, m, grace_ms);
        let k = choose|k: int|
            0 <= k < before.len() && {
                &&& (#[trigger] before[k]).code == found.code
                &&& before[k].line == records[i].line
                &&& before[k].seq == records[i].event.seq
                &&& before[k].resource == records[i].event.resource@
                &&& before[k].message == found.message
            };
        assert(violations[k] == before[k]);
    }
}

/// A report holds nothing but what is found in some event of the stream.
pub proof fn law_every_violation_was_found(records: Seq<Record>, k: int, grace_ms: u64)
    requires
        0 <= k < history::audit_report(records, grace_ms).violations.len(),
    ensures
        exists|i: int, m: int|
            #![trigger history::record_findings(records.take(i), records[i], grace_ms)[m]]
            0 <= i < records.len() && 0 <= m < history::record_findings(
                records.take(i),
                records[i],
                grace_ms,
            ).len() && history::audit_report(records, grace_ms).violations[k]
                == history::record_findings(records.take(i), records[i], grace_ms)[m],
    decreases records.len(),
{
    law_report_grows_with_each_event(Seq::empty(), arbitrary(), grace_ms);
    if records.len() == 0 {
        assert(records =~= Seq::empty());
    } else {
        let shorter = records.drop_last();
        let last = records.len() - 1;
        let before = history::audit_report(shorter, grace_ms).violations;
        law_report_grows_with_each_event(shorter, records.last(), grace_ms);
        assert(shorter.push(records.last()) =~= records);
        assert(records.take(last) =~= shorter);
        if k < before.len() {
            law_every_violation_was_found(shorter, k, grace_ms);
            let (i, m) = choose|i: int, m: int|
                #![trigger history::record_findings(shorter.take(i), shorter[i], grace_ms)[m]]
                0 <= i < shorter.len() && 0 <= m < history::record_findings(
                    shorter.take(i),
                    shorter[i],
                    grace_ms,
                ).len() && before[k] == history::record_findings(
                    shorter.take(i),
                    shorter[i],
                    grace_ms,
                )[m];
            assert(shorter.take(i) =~= records.take(i));
            assert(before[k] == history::record_findings(records.take(i), records[i], grace_ms)[m]);
        } else {
            let m = k - before.len();
            assert(history::audit_report(records, grace_ms).violations[k]
                == history::record_findings(records.take(last), records[last], grace_ms)[m]);
        }
    }
}

/// Whether none of the findings is one of a lease: only the order in the stream may be at fault.
spec fn lease_rules_kept(found: Seq<FindingModel>) -> bool {
    forall|k: int| 0 <= k < found.len() ==> of_order((#[trigger] found[k]).code)
}

/// The lease rules are kept exactly when they report nothing.
proof fn lemma_lease_rules_kept(records: Seq<Record>, record: Record, grace_ms: u64)
    ensures
        ({
            let found = history::record_findings(records, record, grace_ms);
            let state = history::resource_state(records, record.event.resource@, grace_ms);
            let second = rules::event_findings(state, record.event, record.line, grace_ms);
            &&& lease_rules_kept(found) <==> second.len() == 0
            &&& forall|code: FindingCode|
                #![trigger of_order(code)]
                !of_order(code) ==> ((exists|k: int|
                    0 <= k < found.len() && (#[trigger] found[k]).code == code) <==> (exists|k: int|
                    0 <= k < second.len() && (#[trigger] second[k]).code == code))
        }),
{
    let found = history::record_findings(records, record, grace_ms);
    let state = history::resource_state(records, record.event.resource@, grace_ms);
    let previous = if records.len() == 0 {
        None
    } else {
        Some(Stamp { seq: records.last().event.seq, at_ms: records.last().event.at_ms })
    };
    let first = order::order_findings(previous, record.event, record.line);
    let second = rules::event_findings(state, record.event, record.line, grace_ms);
    law_record_is_held_against_its_past(records, record, grace_ms);
    assert(found == first + second);
    checks::law_order_findings(previous, record.event, record.line);
    lemma_event_findings_are_not_of_order(records, record, grace_ms);
    assert(forall|k: int| 0 <= k < first.len() ==> found[k] == #[trigger] first[k]);
    assert(forall|k: int| 0 <= k < second.len() ==> found[first.len() + k] == #[trigger] second[k]);
    assert(forall|k: int|
        first.len() <= k < found.len() ==> #[trigger] found[k] == second[k - first.len()]);
    if second.len() > 0 {
        assert(found[first.len() as int] == second[0]);
    }
}

/// What the holder of a lease does in time breaks no rule of the lease, and what it does later than
/// the deadline plus the grace is reported for that alone.
proof fn lemma_action_of_the_holder(records: Seq<Record>, action: Record, grace_ms: u64)
    requires
        action.event.kind is Action,
        ({
            let state = history::resource_state(records, action.event.resource@, grace_ms);
            &&& state.active is Some
            &&& state.active->0.owner == action.event.kind->Action_owner@
            &&& state.active->0.epoch == action.event.kind->Action_epoch
        }),
    ensures
        ({
            let state = history::resource_state(records, action.event.resource@, grace_ms);
            let found = history::record_findings(records, action, grace_ms);
            if action.event.at_ms <= state.active->0.until_ms + grace_ms {
                forall|k: int| 0 <= k < found.len() ==> of_order((#[trigger] found[k]).code)
            } else {
                exists|k: int|
                    0 <= k < found.len() && (#[trigger] found[k]).code
                        == FindingCode::ActionAfterExpiry
            }
        }),
{
    let event = action.event;
    let state = history::resource_state(records, event.resource@, grace_ms);
    let second = rules::event_findings(state, event, action.line, grace_ms);
    lemma_lease_rules_kept(records, action, grace_ms);
    checks::law_event_goes_by_its_kind(state, event, action.line, grace_ms);
    checks::law_action_findings(
        state,
        event,
        action.line,
        event.kind->Action_owner@,
        event.kind->Action_epoch,
        event.kind->Action_operation@,
        grace_ms,
    );
    assert(!of_order(FindingCode::ActionAfterExpiry));
}

/// A renewal that breaks no lease rule moves the deadline. With no event on its resource in
/// between, what its owner does under its epoch breaks no lease rule up to the new deadline plus
/// the grace, and is reported as late after that.
pub proof fn law_renewal_moves_the_deadline(
    before: Seq<Record>,
    renewal: Record,
    between: Seq<Record>,
    action: Record,
    grace_ms: u64,
)
    requires
        renewal.event.kind is Renew,
        forall|k: int|
            0 <= k < history::record_findings(before, renewal, grace_ms).len() ==> {
                let code = (#[trigger] history::record_findings(
                    before,
                    renewal,
                    grace_ms,
                )[k]).code;
                code == FindingCode::SequenceNotIncreasing || code == FindingCode::TimeWentBackwards
            },
        forall|j: int|
            0 <= j < between.len() ==> (#[trigger] between[j]).event.resource@
                != renewal.event.resource@,
        action.event.kind is Action,
        action.event.resource@ == renewal.event.resource@,
        action.event.kind->Action_owner@ == renewal.event.kind->Renew_owner@,
        action.event.kind->Action_epoch == renewal.event.kind->Renew_epoch,
    ensures
        ({
            let found = history::record_findings(
                before.push(renewal) + between,
                action,
                grace_ms,
            );
            if action.event.at_ms <= renewal.event.kind->Renew_lease_until_ms + grace_ms {
                forall|k: int|
                    0 <= k < found.len() ==> {
                        ||| (#[trigger] found[k]).code == FindingCode::SequenceNotIncreasing
                        ||| found[k].code == FindingCode::TimeWentBackwards
                    }
            } else {
                exists|k: int|
                    0 <= k < found.len() && (#[trigger] found[k]).code
                        == FindingCode::ActionAfterExpiry
            }
        }),
{
    let event = renewal.event;
    let resource = event.resource@;
    let owner = event.kind->Renew_owner@;
    let epoch = event.kind->Renew_epoch;
    let until = event.kind->Renew_lease_until_ms;
    let state = history::resource_state(before, resource, grace_ms);
    assert(lease_rules_kept(history::record_findings(before, renewal, grace_ms)));
    lemma_lease_rules_kept(before, renewal, grace_ms);
    checks::law_event_goes_by_its_kind(state, event, renewal.line, grace_ms);
    checks::law_renewal_findings(state, event, renewal.line, owner, epoch, until, grace_ms);
    checks::law_renewal_state(state, event, owner, epoch, until, grace_ms);
    law_every_event_moves_its_own_resource(before, renewal, resource, grace_ms);
    law_other_resources_change_nothing(before.push(renewal), between, resource, grace_ms);
    lemma_action_of_the_holder(before.push(renewal) + between, action, grace_ms);
}

/// A grant that breaks no lease rule gives its owner the lease. With no event on its resource in
/// between, what the owner does under the epoch of the grant breaks no lease rule up to the
/// deadline plus the grace, and is reported as late after that.
pub proof fn law_grant_opens_the_lease(
    before: Seq<Record>,
    grant: Record,
    between: Seq<Record>,
    action: Record,
    grace_ms: u64,
)
    requires
        grant.event.kind is Grant,
        forall|k: int|
            0 <= k < history::record_findings(before, grant, grace_ms).len() ==> {
                let code = (#[trigger] history::record_findings(before, grant, grace_ms)[k]).code;
                code == FindingCode::SequenceNotIncreasing || code == FindingCode::TimeWentBackwards
            },
        forall|j: int|
            0 <= j < between.len() ==> (#[trigger] between[j]).event.resource@
                != grant.event.resource@,
        action.event.kind is Action,
        action.event.resource@ == grant.event.resource@,
        action.event.kind->Action_owner@ == grant.event.kind->Grant_owner@,
        action.event.kind->Action_epoch == grant.event.kind->Grant_epoch,
    ensures
        ({
            let found = history::record_findings(before.push(grant) + between, action, grace_ms);
            if action.event.at_ms <= grant.event.kind->Grant_lease_until_ms + grace_ms {
                forall|k: int|
                    0 <= k < found.len() ==> {
                        ||| (#[trigger] found[k]).code == FindingCode::SequenceNotIncreasing
                        ||| found[k].code == FindingCode::TimeWentBackwards
                    }
            } else {
                exists|k: int|
                    0 <= k < found.len() && (#[trigger] found[k]).code
                        == FindingCode::ActionAfterExpiry
            }
        }),
{
    let event = grant.event;
    let resource = event.resource@;
    let owner = event.kind->Grant_owner@;
    let epoch = event.kind->Grant_epoch;
    let until = event.kind->Grant_lease_until_ms;
    let state = history::resource_state(before, resource, grace_ms);
    assert(lease_rules_kept(history::record_findings(before, grant, grace_ms)));
    lemma_lease_rules_kept(before, grant, grace_ms);
    checks::law_event_goes_by_its_kind(state, event, grant.line, grace_ms);
    checks::law_grant_findings(state, event, grant.line, epoch, until);
    checks::law_grant_state(state, event, owner, epoch, until);
    law_every_event_moves_its_own_resource(before, grant, resource, grace_ms);
    law_other_resources_change_nothing(before.push(grant), between, resource, grace_ms);
    lemma_action_of_the_holder(before.push(grant) + between, action, grace_ms);
}

/// A revocation that breaks no lease rule ends the lease. With no event on its resource in between,
/// the next action there is reported as one without a lease, whoever acts and whatever the time.
pub proof fn law_revocation_ends_the_lease(
    before: Seq<Record>,
    revocation: Record,
    between: Seq<Record>,
    action: Record,
    grace_ms: u64,
)
    requires
        revocation.event.kind is Revoke,
        forall|k: int|
            0 <= k < history::record_findings(before, revocation, grace_ms).len() ==> {
                let code = (#[trigger] history::record_findings(
                    before,
                    revocation,
                    grace_ms,
                )[k]).code;
                code == FindingCode::SequenceNotIncreasing || code == FindingCode::TimeWentBackwards
            },
        forall|j: int|
            0 <= j < between.len() ==> (#[trigger] between[j]).event.resource@
                != revocation.event.resource@,
        action.event.kind is Action,
        action.event.resource@ == revocation.event.resource@,
    ensures
        ({
            let found = history::record_findings(
                before.push(revocation) + between,
                action,
                grace_ms,
            );
            exists|k: int|
                0 <= k < found.len() && (#[trigger] found[k]).code
                    == FindingCode::ActionWithoutLease
        }),
{
    let event = revocation.event;
    let resource = event.resource@;
    let owner = event.kind->Revoke_owner@;
    let epoch = event.kind->Revoke_epoch;
    let state = history::resource_state(before, resource, grace_ms);
    assert(lease_rules_kept(history::record_findings(before, revocation, grace_ms)));
    lemma_lease_rules_kept(before, revocation, grace_ms);
    checks::law_event_goes_by_its_kind(state, event, revocation.line, grace_ms);
    checks::law_revocation_findings(state, event, revocation.line, owner, epoch);
    checks::law_revocation_state(state, owner, epoch);
    law_every_event_moves_its_own_resource(before, revocation, resource, grace_ms);
    law_other_resources_change_nothing(before.push(revocation), between, resource, grace_ms);
    let past = before.push(revocation) + between;
    let after = history::resource_state(past, resource, grace_ms);
    lemma_lease_rules_kept(past, action, grace_ms);
    checks::law_event_goes_by_its_kind(after, action.event, action.line, grace_ms);
    checks::law_action_findings(
        after,
        action.event,
        action.line,
        action.event.kind->Action_owner@,
        action.event.kind->Action_epoch,
        action.event.kind->Action_operation@,
        grace_ms,
    );
    let second = rules::event_findings(after, action.event, action.line, grace_ms);
    assert(second[0].code == FindingCode::ActionWithoutLease);
    assert(!of_order(FindingCode::ActionWithoutLease));
}

/// A renewal or a revocation that breaks a lease rule changes nothing, no action ever changes
/// anything, and a grant that breaks a lease rule leaves the lease in force as it is: what is found
/// in a later event is the same as if the offender had changed the fence at most.
pub proof fn law_refused_events_change_no_lease(
    records: Seq<Record>,
    record: Record,
    k: int,
    resource: Seq<char>,
    grace_ms: u64,
)
    requires
        0 <= k < history::record_findings(records, record, grace_ms).len(),
        history::record_findings(records, record, grace_ms)[k].code
            != FindingCode::SequenceNotIncreasing,
        history::record_findings(records, record, grace_ms)[k].code
            != FindingCode::TimeWentBackwards,
    ensures
        ({
            let before = history::resource_state(records, resource, grace_ms);
            let after = history::resource_state(records.push(record), resource, grace_ms);
            &&& after.active == before.active
            &&& record.event.kind is Grant || after.highest_epoch == before.highest_epoch
        }),
{
    let event = record.event;
    let state = history::resource_state(records, event.resource@, grace_ms);
    let line = record.line;
    assert(!of_order(history::record_findings(records, record, grace_ms)[k].code));
    lemma_lease_rules_kept(records, record, grace_ms);
    law_every_event_moves_its_own_resource(records, record, resource, grace_ms);
    checks::law_event_goes_by_its_kind(state, event, line, grace_ms);
    match event.kind {
        EventKind::Grant { owner, epoch, lease_until_ms } => {
            checks::law_grant_findings(state, event, line, epoch, lease_until_ms);
            checks::law_grant_state(state, event, owner@, epoch, lease_until_ms);
        },
        EventKind::Renew { owner, epoch, lease_until_ms } => {
            checks::law_renewal_findings(
                state,
                event,
                line,
                owner@,
                epoch,
                lease_until_ms,
                grace_ms,
            );
            checks::law_renewal_state(state, event, owner@, epoch, lease_until_ms, grace_ms);
        },
        EventKind::Revoke { owner, epoch } => {
            checks::law_revocation_findings(state, event, line, owner@, epoch);
            checks::law_revocation_state(state, owner@, epoch);
        },
        EventKind::Action { .. } => {},
    }
}

/// An event is reported at most once for each rule: the findings of one event follow the order in
/// which the kinds of violation are declared.
pub proof fn law_rules_come_in_their_order(
    records: Seq<Record>,
    record: Record,
    grace_ms: u64,
    k: int,
    m: int,
)
    requires
        0 <= k < m < history::record_findings(records, record, grace_ms).len(),
    ensures
        ({
            let found = history::record_findings(records, record, grace_ms);
            let place = |code: FindingCode|
                match code {
                    FindingCode::SequenceNotIncreasing => 0int,
                    FindingCode::TimeWentBackwards => 1int,
                    FindingCode::EpochNotIncreasing => 2int,
                    FindingCode::GrantAlreadyExpired => 3int,
                    FindingCode::RenewWithoutLease => 4int,
                    FindingCode::RenewWrongOwner => 5int,
                    FindingCode::RenewWrongEpoch => 6int,
                    FindingCode::RenewAfterExpiry => 7int,
                    FindingCode::RenewDidNotExtend => 8int,
                    FindingCode::RenewDeadlineNotFuture => 9int,
                    FindingCode::RevokeWithoutLease => 10int,
                    FindingCode::RevokeWrongOwner => 11int,
                    FindingCode::RevokeWrongEpoch => 12int,
                    FindingCode::ActionWithoutLease => 13int,
                    FindingCode::ActionWrongOwner => 14int,
                    FindingCode::ActionStaleEpoch => 15int,
                    FindingCode::ActionFutureEpoch => 16int,
                    FindingCode::ActionAfterExpiry => 17int,
                };
            place(found[k].code) < place(found[m].code)
        }),
{
    stream::law_findings_of_an_event_are_ordered(records, record, grace_ms, k, m);
}

/// A lease in force comes from a grant on its resource, to its owner under its epoch, and no
/// revocation has named that owner and epoch there since. Its deadline is the one that this grant,
/// or a later renewal by the owner under the epoch, asked for.
pub proof fn law_lease_in_force_was_granted(
    records: Seq<Record>,
    resource: Seq<char>,
    grace_ms: u64,
)
    requires
        history::resource_state(records, resource, grace_ms).active is Some,
    ensures
        ({
            let lease = history::resource_state(records, resource, grace_ms).active->0;
            exists|g: int, d: int|
                0 <= g <= d < records.len() && {
                    &&& (#[trigger] records[g]).event.resource@ == resource
                    &&& records[g].event.kind is Grant
                    &&& records[g].event.kind->Grant_owner@ == lease.owner
                    &&& records[g].event.kind->Grant_epoch == lease.epoch
                    &&& (#[trigger] records[d]).event.resource@ == resource
                    &&& match records[d].event.kind {
                        EventKind::Grant { lease_until_ms, .. } => d == g && lease_until_ms
                            == lease.until_ms,
                        EventKind::Renew { owner, epoch, lease_until_ms } => owner@ == lease.owner
                            && epoch == lease.epoch && lease_until_ms == lease.until_ms,
                        _ => false,
                    }
                    &&& forall|r: int|
                        g < r < records.len() && (#[trigger] records[r]).event.resource@ == resource
                            && records[r].event.kind is Revoke
                            ==> records[r].event.kind->Revoke_owner@ != lease.owner
                            || records[r].event.kind->Revoke_epoch != lease.epoch
                }
        }),
    decreases records.len(),
{
    let lease = history::resource_state(records, resource, grace_ms).active->0;
    let origin = |all: Seq<Record>, g: int, d: int, held: LeaseModel|
        {
            &&& 0 <= g <= d < all.len()
            &&& all[g].event.resource@ == resource
            &&& all[g].event.kind is Grant
            &&& all[g].event.kind->Grant_owner@ == held.owner
            &&& all[g].event.kind->Grant_epoch == held.epoch
            &&& all[d].event.resource@ == resource
            &&& match all[d].event.kind {
                EventKind::Grant { lease_until_ms, .. } => d == g && lease_until_ms
                    == held.until_ms,
                EventKind::Renew { owner, epoch, lease_until_ms } => owner@ == held.owner && epoch
                    == held.epoch && lease_until_ms == held.until_ms,
                _ => false,
            }
            &&& forall|r: int|
                g < r < all.len() && (#[trigger] all[r]).event.resource@ == resource
                    && all[r].event.kind is Revoke ==> all[r].event.kind->Revoke_owner@
                    != held.owner || all[r].event.kind->Revoke_epoch != held.epoch
        };
    if records.len() > 0 {
        let shorter = records.drop_last();
        let last = records.len() - 1;
        let event = records[last].event;
        let before = history::resource_state(shorter, resource, grace_ms);
        law_every_event_moves_its_own_resource(shorter, records[last], resource, grace_ms);
        assert(shorter.push(records[last]) =~= records);
        assert forall|i: int| 0 <= i < last implies shorter[i] == records[i] by {}
        checks::law_event_goes_by_its_kind(before, event, records[last].line, grace_ms);
        match event.kind {
            EventKind::Grant { owner, epoch, lease_until_ms } => {
                checks::law_grant_state(before, event, owner@, epoch, lease_until_ms);
            },
            EventKind::Renew { owner, epoch, lease_until_ms } => {
                checks::law_renewal_state(
                    before,
                    event,
                    owner@,
                    epoch,
                    lease_until_ms,
                    grace_ms,
                );
            },
            EventKind::Revoke { owner, epoch } => {
                checks::law_revocation_state(before, owner@, epoch);
            },
            EventKind::Action { .. } => {},
        }
        if event.resource@ == resource && event.kind is Grant && before.active != Some(lease) {
            assert(origin(records, last, last, lease));
        } else {
            law_lease_in_force_was_granted(shorter, resource, grace_ms);
            let held = before.active->0;
            let (g, d) = choose|g: int, d: int|
                0 <= g <= d < shorter.len() && {
                    &&& (#[trigger] shorter[g]).event.resource@ == resource
                    &&& shorter[g].event.kind is Grant
                    &&& shorter[g].event.kind->Grant_owner@ == held.owner
                    &&& shorter[g].event.kind->Grant_epoch == held.epoch
                    &&& (#[trigger] shorter[d]).event.resource@ == resource
                    &&& match shorter[d].event.kind {
                        EventKind::Grant { lease_until_ms, .. } => d == g && lease_until_ms
                            == held.until_ms,
                        EventKind::Renew { owner, epoch, lease_until_ms } => owner@ == held.owner
                            && epoch == held.epoch && lease_until_ms == held.until_ms,
                        _ => false,
                    }
                    &&& forall|r: int|
                        g < r < shorter.len() && (#[trigger] shorter[r]).event.resource@ == resource
                            && shorter[r].event.kind is Revoke
                            ==> shorter[r].event.kind->Revoke_owner@ != held.owner
                            || shorter[r].event.kind->Revoke_epoch != held.epoch
                };
            assert forall|r: int|
                g < r < records.len() && (#[trigger] records[r]).event.resource@ == resource
                    && records[r].event.kind is Revoke implies records[r].event.kind->Revoke_owner@
                != lease.owner || records[r].event.kind->Revoke_epoch != lease.epoch by {
                if r < last {
                    assert(shorter[r] == records[r]);
                }
            }
            if lease.until_ms == held.until_ms {
                assert(origin(records, g, d, lease));
            } else {
                assert(origin(records, g, last, lease));
            }
        }
    }
}

} // verus!
