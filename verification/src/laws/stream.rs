//! Laws of a stream of events.

use vstd::prelude::*;

use crate::event::{Event, EventKind};
use crate::finding::{FindingCode, FindingModel};
use crate::history::Record;
use crate::laws::lease;
use crate::rules::StateModel;
use crate::{finding, history, order, rules};

verus! {

/// Whether a record is a grant on `resource`.
pub open spec fn grants(record: Record, resource: Seq<char>) -> bool {
    record.event.resource@ == resource && record.event.kind is Grant
}

/// The fence of a resource stands at the greatest epoch that any grant on it has named, and there
/// is none before the first grant.
pub proof fn law_fence_is_greatest_epoch(records: Seq<Record>, resource: Seq<char>, grace_ms: u64)
    ensures
        match history::resource_state(records, resource, grace_ms).highest_epoch {
            None => forall|i: int|
                0 <= i < records.len() ==> !grants(#[trigger] records[i], resource),
            Some(highest) => {
                &&& exists|i: int|
                    0 <= i < records.len() && grants(#[trigger] records[i], resource)
                        && records[i].event.kind->Grant_epoch == highest
                &&& forall|i: int|
                    0 <= i < records.len() && grants(#[trigger] records[i], resource)
                        ==> records[i].event.kind->Grant_epoch <= highest
            },
        },
    decreases records.len(),
{
    if records.len() > 0 {
        let shorter = records.drop_last();
        law_fence_is_greatest_epoch(shorter, resource, grace_ms);
        let last = records.len() - 1;
        assert forall|i: int| 0 <= i < last implies records[i] == #[trigger] shorter[i] by {}
        let before = history::resource_state(shorter, resource, grace_ms).highest_epoch;
        let after = history::resource_state(records, resource, grace_ms).highest_epoch;
        if before is Some {
            let i = choose|i: int|
                0 <= i < shorter.len() && grants(#[trigger] shorter[i], resource)
                    && shorter[i].event.kind->Grant_epoch == before->0;
            assert(grants(records[i], resource));
        }
        if grants(records[last], resource) {
            assert(records[last].event.kind->Grant_epoch <= after->0);
        }
        if after is Some {
            assert forall|i: int|
                0 <= i < records.len() && grants(#[trigger] records[i], resource) implies
                records[i].event.kind->Grant_epoch <= after->0 by {
                if i < last {
                    assert(grants(shorter[i], resource));
                }
            }
        } else {
            assert forall|i: int| 0 <= i < records.len() implies !grants(
                #[trigger] records[i],
                resource,
            ) by {
                if i < last {
                    assert(!grants(shorter[i], resource));
                }
            }
        }
    }
}

/// A grant must use an epoch greater than every earlier grant for its resource: one that does not
/// is reported, and no other is.
pub proof fn law_epoch_exceeds_every_earlier_grant(
    records: Seq<Record>,
    grant: Record,
    grace_ms: u64,
)
    requires
        grant.event.kind is Grant,
    ensures
        lease::reports(
            history::record_findings(records, grant, grace_ms),
            FindingCode::EpochNotIncreasing,
        ) <==> exists|i: int|
            0 <= i < records.len() && grants(#[trigger] records[i], grant.event.resource@)
                && records[i].event.kind->Grant_epoch >= grant.event.kind->Grant_epoch,
{
    let resource = grant.event.resource@;
    let state = history::resource_state(records, resource, grace_ms);
    law_fence_is_greatest_epoch(records, resource, grace_ms);
    lemma_record_reports(records, grant, grace_ms, FindingCode::EpochNotIncreasing);
    if !rules::above_fence(state, grant.event.kind->Grant_epoch) {
        let i = choose|i: int|
            0 <= i < records.len() && grants(#[trigger] records[i], resource)
                && records[i].event.kind->Grant_epoch == state.highest_epoch->0;
        assert(grants(records[i], resource));
    }
}

/// What a record reports is what the rules of order and the lease rules report on it.
proof fn lemma_record_reports(
    records: Seq<Record>,
    record: Record,
    grace_ms: u64,
    code: FindingCode,
)
    ensures
        lease::reports(history::record_findings(records, record, grace_ms), code) <==> {
            ||| order_broken(history::latest(records), record.event, code)
            ||| lease::breaks(
                history::resource_state(records, record.event.resource@, grace_ms),
                record.event,
                grace_ms,
                code,
            )
        },
{
    let state = history::resource_state(records, record.event.resource@, grace_ms);
    let first = order::order_findings(history::latest(records), record.event, record.line);
    let second = rules::event_findings(state, record.event, record.line, grace_ms);
    lease::lemma_reports_concat(first, second, code);
    lease::law_rule_reported_iff_broken(state, record.event, record.line, grace_ms, code);
    law_order_reported_iff_broken(history::latest(records), record.event, record.line, code);
}

/// Whether `event` breaks the rule of order behind `code`, coming after `previous`.
pub open spec fn order_broken(
    previous: Option<order::Stamp>,
    event: Event,
    code: FindingCode,
) -> bool {
    match previous {
        None => false,
        Some(previous) => match code {
            FindingCode::SequenceNotIncreasing => event.seq <= previous.seq,
            FindingCode::TimeWentBackwards => event.at_ms < previous.at_ms,
            _ => false,
        },
    }
}

/// The rules of order are checked on their own as well.
pub proof fn law_order_reported_iff_broken(
    previous: Option<order::Stamp>,
    event: Event,
    line: nat,
    code: FindingCode,
)
    ensures
        lease::reports(order::order_findings(previous, event, line), code) <==> order_broken(
            previous,
            event,
            code,
        ),
{
    assert forall|broken: bool, f: FindingModel| #[trigger]
        lease::reports(rules::when(broken, f), code) <==> broken && f.code == code by {
        lease::lemma_reports_when(broken, f, code);
    }
    assert forall|a: Seq<FindingModel>, b: Seq<FindingModel>| #[trigger]
        lease::reports(a + b, code) <==> lease::reports(a, code) || lease::reports(b, code) by {
        lease::lemma_reports_concat(a, b, code);
    }
}

/// The events of one resource, in order.
pub open spec fn of_resource(records: Seq<Record>, resource: Seq<char>) -> Seq<Record> {
    records.filter(|record: Record| record.event.resource@ == resource)
}

/// Resources are independent: the state of a resource is the one that its own events alone would
/// have led to.
pub proof fn law_resources_are_independent(
    records: Seq<Record>,
    resource: Seq<char>,
    grace_ms: u64,
)
    ensures
        history::resource_state(records, resource, grace_ms) == history::resource_state(
            of_resource(records, resource),
            resource,
            grace_ms,
        ),
    decreases records.len(),
{
    reveal(Seq::filter);
    if records.len() > 0 {
        let own = of_resource(records.drop_last(), resource);
        law_resources_are_independent(records.drop_last(), resource, grace_ms);
        if records.last().event.resource@ == resource {
            assert(of_resource(records, resource) == own.push(records.last()));
            assert(own.push(records.last()).drop_last() =~= own);
        }
    }
}

/// The lease rules that an event breaks are those that it breaks among the events of its own
/// resource.
pub proof fn law_lease_findings_are_independent(
    records: Seq<Record>,
    record: Record,
    grace_ms: u64,
)
    ensures
        ({
            let resource = record.event.resource@;
            let own = of_resource(records, resource);
            history::record_findings(records, record, grace_ms) == order::order_findings(
                history::latest(records),
                record.event,
                record.line,
            ) + rules::event_findings(
                history::resource_state(own, resource, grace_ms),
                record.event,
                record.line,
                grace_ms,
            )
        }),
{
    law_resources_are_independent(records, record.event.resource@, grace_ms);
}

/// Whether `epoch` is behind the fence of a state, and no lease of an earlier epoch is in force.
spec fn fenced(state: StateModel, epoch: u64) -> bool {
    &&& !rules::above_fence(state, epoch)
    &&& state.active is Some ==> state.active->0.epoch >= epoch
}

/// A fenced epoch stays fenced.
proof fn lemma_fenced_forever(
    records: Seq<Record>,
    start: int,
    resource: Seq<char>,
    grace_ms: u64,
    epoch: u64,
)
    requires
        0 <= start <= records.len(),
        fenced(history::resource_state(records.take(start), resource, grace_ms), epoch),
    ensures
        fenced(history::resource_state(records, resource, grace_ms), epoch),
    decreases records.len(),
{
    if start < records.len() {
        assert(records.drop_last().take(start) =~= records.take(start));
        lemma_fenced_forever(records.drop_last(), start, resource, grace_ms, epoch);
    } else {
        assert(records.take(start) =~= records);
    }
}

/// Fencing is final: once a grant on a resource was lawful, no action on that resource under an
/// earlier epoch is lawful again, whatever lies between and whatever the grace.
pub proof fn law_fencing_is_final(
    records: Seq<Record>,
    granted: int,
    action: Record,
    grace_ms: u64,
)
    requires
        0 <= granted < records.len(),
        records[granted].event.kind is Grant,
        lease::lawful(
            history::resource_state(
                records.take(granted),
                records[granted].event.resource@,
                grace_ms,
            ),
            records[granted].event,
            grace_ms,
        ),
        action.event.kind is Action,
        action.event.resource@ == records[granted].event.resource@,
        action.event.kind->Action_epoch < records[granted].event.kind->Grant_epoch,
    ensures
        ({
            let found = history::record_findings(records, action, grace_ms);
            ||| lease::reports(found, FindingCode::ActionWithoutLease)
            ||| lease::reports(found, FindingCode::ActionStaleEpoch)
        }),
{
    let grant = records[granted].event;
    let resource = grant.resource@;
    let upto = records.take(granted + 1);
    assert(upto.drop_last() =~= records.take(granted));
    assert(upto.last() == records[granted]);
    lease::law_lawful_grant(
        history::resource_state(records.take(granted), resource, grace_ms),
        grant,
        grace_ms,
    );
    lemma_fenced_forever(records, granted + 1, resource, grace_ms, grant.kind->Grant_epoch);
    lemma_record_reports(records, action, grace_ms, FindingCode::ActionWithoutLease);
    lemma_record_reports(records, action, grace_ms, FindingCode::ActionStaleEpoch);
}

/// The lease in force never has an epoch beyond the fence.
pub proof fn law_lease_is_behind_fence(records: Seq<Record>, resource: Seq<char>, grace_ms: u64)
    ensures
        ({
            let state = history::resource_state(records, resource, grace_ms);
            state.active is Some ==> !rules::above_fence(state, state.active->0.epoch)
        }),
    decreases records.len(),
{
    if records.len() > 0 {
        law_lease_is_behind_fence(records.drop_last(), resource, grace_ms);
    }
}

/// Whether two states agree on the fence and on who holds the lease under which epoch; only the
/// deadline may differ.
pub open spec fn same_holder(a: StateModel, b: StateModel) -> bool {
    &&& a.highest_epoch == b.highest_epoch
    &&& match (a.active, b.active) {
        (None, None) => true,
        (Some(x), Some(y)) => x.owner == y.owner && x.epoch == y.epoch,
        _ => false,
    }
}

/// Whether a violation depends on the deadline of the lease in force.
pub open spec fn about_deadline(code: FindingCode) -> bool {
    lease::is_lateness(code) || code == FindingCode::RenewDidNotExtend
}

/// Grace has no say in who holds a lease: whatever the grace, a stream leads to the same fence, the
/// same owner and the same epoch.
pub proof fn law_grace_never_changes_holder(
    records: Seq<Record>,
    resource: Seq<char>,
    grace_ms: u64,
    other_ms: u64,
)
    ensures
        same_holder(
            history::resource_state(records, resource, grace_ms),
            history::resource_state(records, resource, other_ms),
        ),
    decreases records.len(),
{
    if records.len() > 0 {
        law_grace_never_changes_holder(records.drop_last(), resource, grace_ms, other_ms);
    }
}

/// Grace never relaxes owner or epoch matching: over a whole stream, whatever the grace, each
/// event breaks the same rules apart from those about the deadline of the lease in force.
pub proof fn law_grace_never_relaxes_matching(
    records: Seq<Record>,
    record: Record,
    grace_ms: u64,
    other_ms: u64,
    code: FindingCode,
)
    requires
        !about_deadline(code),
    ensures
        lease::reports(history::record_findings(records, record, grace_ms), code)
            <==> lease::reports(history::record_findings(records, record, other_ms), code),
{
    law_grace_never_changes_holder(records, record.event.resource@, grace_ms, other_ms);
    lemma_record_reports(records, record, grace_ms, code);
    lemma_record_reports(records, record, other_ms, code);
}

/// A report is clean exactly when no event breaks a rule.
pub proof fn law_clean_iff_no_event_breaks_a_rule(records: Seq<Record>, grace_ms: u64)
    ensures
        finding::clean(history::audit_report(records, grace_ms)) <==> forall|i: int|
            0 <= i < records.len() ==> (#[trigger] history::record_findings(
                records.take(i),
                records[i],
                grace_ms,
            )).len() == 0,
    decreases records.len(),
{
    if records.len() > 0 {
        let shorter = records.drop_last();
        let last = records.len() - 1;
        law_clean_iff_no_event_breaks_a_rule(shorter, grace_ms);
        assert(records.take(last) =~= shorter);
        assert forall|i: int| 0 <= i < last implies #[trigger] history::record_findings(
            shorter.take(i),
            shorter[i],
            grace_ms,
        ) == history::record_findings(records.take(i), records[i], grace_ms) by {
            assert(shorter.take(i) =~= records.take(i));
        }
        if finding::clean(history::audit_report(records, grace_ms)) {
            assert forall|i: int| 0 <= i < records.len() implies (
            #[trigger] history::record_findings(records.take(i), records[i], grace_ms)).len()
                == 0 by {
                if i < last {
                    assert(history::record_findings(shorter.take(i), shorter[i], grace_ms).len()
                        == 0);
                }
            }
        }
        if forall|i: int|
            0 <= i < records.len() ==> (#[trigger] history::record_findings(
                records.take(i),
                records[i],
                grace_ms,
            )).len() == 0 {
            assert(history::record_findings(records.take(last), records[last], grace_ms).len()
                == 0);
            assert forall|i: int| 0 <= i < shorter.len() implies (
            #[trigger] history::record_findings(shorter.take(i), shorter[i], grace_ms)).len()
                == 0 by {
                assert(history::record_findings(records.take(i), records[i], grace_ms).len() == 0);
            }
        }
    }
}

/// Whether a finding is tied to the line and the event of `record`.
pub open spec fn identifies(found: FindingModel, record: Record) -> bool {
    &&& found.line == record.line
    &&& found.seq == record.event.seq
    &&& found.resource == record.event.resource@
}

/// Whether all of `found` is tied to `record`.
#[verifier::opaque]
spec fn all_identify(found: Seq<FindingModel>, record: Record) -> bool {
    forall|k: int| 0 <= k < found.len() ==> identifies(#[trigger] found[k], record)
}

/// Being tied to a record goes through concatenations and conditional findings.
proof fn lemma_all_identify(record: Record)
    ensures
        forall|p: Seq<FindingModel>, q: Seq<FindingModel>|
            all_identify(p, record) && all_identify(q, record) ==> #[trigger] all_identify(
                p + q,
                record,
            ),
        forall|broken: bool, f: FindingModel|
            identifies(f, record) ==> #[trigger] all_identify(rules::when(broken, f), record),
        forall|f: FindingModel|
            identifies(f, record) ==> #[trigger] all_identify(seq![f], record),
        all_identify(Seq::empty(), record),
{
    reveal(all_identify);
}

/// Every finding about a record is tied to it.
pub proof fn law_findings_identify_their_record(
    records: Seq<Record>,
    record: Record,
    grace_ms: u64,
    k: int,
)
    requires
        0 <= k < history::record_findings(records, record, grace_ms).len(),
    ensures
        identifies(history::record_findings(records, record, grace_ms)[k], record),
{
    let state = history::resource_state(records, record.event.resource@, grace_ms);
    lemma_all_identify(record);
    lemma_order_findings_identify(history::latest(records), record);
    lemma_event_findings_identify(state, record, grace_ms);
    assert(all_identify(history::record_findings(records, record, grace_ms), record));
    reveal(all_identify);
}

/// The findings about the order of a record are tied to it.
proof fn lemma_order_findings_identify(previous: Option<order::Stamp>, record: Record)
    ensures
        all_identify(order::order_findings(previous, record.event, record.line), record),
{
    lemma_all_identify(record);
}

/// The findings about the lease that a record touches are tied to it.
proof fn lemma_event_findings_identify(state: StateModel, record: Record, grace_ms: u64)
    ensures
        all_identify(rules::event_findings(state, record.event, record.line, grace_ms), record),
{
    lemma_all_identify(record);
}

/// The place of a kind of violation among those that one event can break.
pub open spec fn rank(code: FindingCode) -> int {
    match code {
        FindingCode::SequenceNotIncreasing => 0,
        FindingCode::TimeWentBackwards => 1,
        FindingCode::EpochNotIncreasing => 2,
        FindingCode::GrantAlreadyExpired => 3,
        FindingCode::RenewWithoutLease => 4,
        FindingCode::RenewWrongOwner => 5,
        FindingCode::RenewWrongEpoch => 6,
        FindingCode::RenewAfterExpiry => 7,
        FindingCode::RenewDidNotExtend => 8,
        FindingCode::RenewDeadlineNotFuture => 9,
        FindingCode::RevokeWithoutLease => 10,
        FindingCode::RevokeWrongOwner => 11,
        FindingCode::RevokeWrongEpoch => 12,
        FindingCode::ActionWithoutLease => 13,
        FindingCode::ActionWrongOwner => 14,
        FindingCode::ActionStaleEpoch => 15,
        FindingCode::ActionFutureEpoch => 16,
        FindingCode::ActionAfterExpiry => 17,
    }
}

/// Whether `found` is in order of rank, without repetition, from rank `low` up to and without rank
/// `high`.
#[verifier::opaque]
spec fn ranked(found: Seq<FindingModel>, low: int, high: int) -> bool {
    &&& forall|k: int| 0 <= k < found.len() ==> low <= rank((#[trigger] found[k]).code) < high
    &&& forall|k: int, m: int|
        0 <= k < m < found.len() ==> rank((#[trigger] found[k]).code) < rank(
            (#[trigger] found[m]).code,
        )
}

/// Being ranked goes through concatenations and conditional findings.
proof fn lemma_ranked()
    ensures
        forall|p: Seq<FindingModel>, q: Seq<FindingModel>, low: int, middle: int, high: int|
            #![trigger ranked(p, low, middle), ranked(q, middle, high), p + q]
            ranked(p, low, middle) && ranked(q, middle, high) && low <= middle <= high ==> ranked(
                p + q,
                low,
                high,
            ),
        forall|broken: bool, f: FindingModel|
            #![trigger rules::when(broken, f)]
            ranked(rules::when(broken, f), rank(f.code), rank(f.code) + 1),
        forall|f: FindingModel|
            #![trigger seq![f]]
            ranked(seq![f], rank(f.code), rank(f.code) + 1),
        forall|p: Seq<FindingModel>, low: int, high: int| #[trigger]
            ranked(p, low, high) && 2 <= low && high <= 18 ==> ranked(p, 2, 18),
{
    reveal(ranked);
}

/// The findings about a lease are ranked.
proof fn lemma_event_findings_ranked(
    state: StateModel,
    event: Event,
    line: nat,
    grace_ms: u64,
)
    ensures
        ranked(rules::event_findings(state, event, line, grace_ms), 2, 18),
{
    lemma_ranked();
    let found = rules::event_findings(state, event, line, grace_ms);
    match event.kind {
        EventKind::Grant { .. } => {
            assert(ranked(found, 2, 4));
        },
        EventKind::Renew { .. } => {
            if state.active is None {
                assert(ranked(found, 4, 5));
            } else {
                assert(ranked(found, 5, 10));
            }
        },
        EventKind::Revoke { .. } => {
            if state.active is None {
                assert(ranked(found, 10, 11));
            } else {
                assert(ranked(found, 11, 13));
            }
        },
        EventKind::Action { .. } => {
            if state.active is None {
                assert(ranked(found, 13, 14));
            } else {
                assert(ranked(found, 14, 18));
            }
        },
    }
}

/// An event is reported at most once for each rule, in the fixed order of the rules.
pub proof fn law_findings_of_an_event_are_ordered(
    records: Seq<Record>,
    record: Record,
    grace_ms: u64,
    k: int,
    m: int,
)
    requires
        0 <= k < m < history::record_findings(records, record, grace_ms).len(),
    ensures
        rank(history::record_findings(records, record, grace_ms)[k].code) < rank(
            history::record_findings(records, record, grace_ms)[m].code,
        ),
{
    let state = history::resource_state(records, record.event.resource@, grace_ms);
    let first = order::order_findings(history::latest(records), record.event, record.line);
    let second = rules::event_findings(state, record.event, record.line, grace_ms);
    lemma_ranked();
    lemma_event_findings_ranked(state, record.event, record.line, grace_ms);
    assert(ranked(first, 0, 2)) by {
        reveal(ranked);
    }
    assert(ranked(first + second, 0, 18));
    reveal(ranked);
}

/// Findings come in input order: where line numbers increase from record to record, they never
/// decrease from finding to finding, and each finding is tied to one of the records.
pub proof fn law_findings_in_input_order(records: Seq<Record>, grace_ms: u64)
    requires
        forall|i: int, j: int|
            0 <= i < j < records.len() ==> (#[trigger] records[i]).line < (
            #[trigger] records[j]).line,
    ensures
        ({
            let found = history::all_findings(records, grace_ms);
            &&& forall|k: int, m: int|
                0 <= k <= m < found.len() ==> (#[trigger] found[k]).line <= (
                #[trigger] found[m]).line
            &&& forall|k: int|
                0 <= k < found.len() ==> exists|i: int|
                    0 <= i < records.len() && identifies(
                        #[trigger] found[k],
                        #[trigger] records[i],
                    )
        }),
    decreases records.len(),
{
    if records.len() > 0 {
        let shorter = records.drop_last();
        let last = records.last();
        law_findings_in_input_order(shorter, grace_ms);
        let earlier = history::all_findings(shorter, grace_ms);
        let new = history::record_findings(shorter, last, grace_ms);
        let found = history::all_findings(records, grace_ms);
        assert(found == earlier + new);
        assert forall|k: int| 0 <= k < found.len() implies exists|i: int|
            0 <= i < records.len() && identifies(#[trigger] found[k], #[trigger] records[i]) by {
            if k < earlier.len() {
                assert(found[k] == earlier[k]);
                let i = choose|i: int|
                    0 <= i < shorter.len() && identifies(earlier[k], #[trigger] shorter[i]);
                assert(records[i] == shorter[i]);
            } else {
                law_findings_identify_their_record(shorter, last, grace_ms, k - earlier.len());
                assert(identifies(found[k], records[records.len() - 1]));
            }
        }
        assert forall|k: int, m: int| 0 <= k <= m < found.len() implies (#[trigger] found[k]).line
            <= (#[trigger] found[m]).line by {
            if m < earlier.len() {
                assert(found[k] == earlier[k]);
                assert(found[m] == earlier[m]);
            } else {
                law_findings_identify_their_record(shorter, last, grace_ms, m - earlier.len());
                if k < earlier.len() {
                    let i = choose|i: int|
                        0 <= i < records.len() && identifies(found[k], #[trigger] records[i]);
                    assert(records[i].line <= records[records.len() - 1].line);
                } else {
                    law_findings_identify_their_record(shorter, last, grace_ms, k - earlier.len());
                }
            }
        }
    }
}

/// Findings stand: what follows a record never changes what is found up to it.
pub proof fn law_findings_stand(records: Seq<Record>, later: Seq<Record>, grace_ms: u64)
    ensures
        history::all_findings(records, grace_ms).is_prefix_of(
            history::all_findings(records + later, grace_ms),
        ),
    decreases later.len(),
{
    if later.len() > 0 {
        law_findings_stand(records, later.drop_last(), grace_ms);
        assert((records + later).drop_last() =~= records + later.drop_last());
    } else {
        assert(records + later =~= records);
    }
}

/// Sequence numbers increase over a stream exactly when no event is reported for its sequence
/// number.
pub proof fn law_sequence_increases_iff_unreported(records: Seq<Record>, grace_ms: u64)
    ensures
        (forall|i: int|
            0 <= i < records.len() ==> !lease::reports(
                #[trigger] history::record_findings(records.take(i), records[i], grace_ms),
                FindingCode::SequenceNotIncreasing,
            )) <==> (forall|i: int, j: int|
            0 <= i < j < records.len() ==> (#[trigger] records[i]).event.seq < (
            #[trigger] records[j]).event.seq),
{
    let code = FindingCode::SequenceNotIncreasing;
    assert forall|i: int| 0 <= i < records.len() implies (lease::reports(
        #[trigger] history::record_findings(records.take(i), records[i], grace_ms),
        code,
    ) <==> i > 0 && records[i].event.seq <= records[i - 1].event.seq) by {
        lemma_record_reports(records.take(i), records[i], grace_ms, code);
    }
    if forall|i: int|
        0 <= i < records.len() ==> !lease::reports(
            #[trigger] history::record_findings(records.take(i), records[i], grace_ms),
            code,
        ) {
        assert forall|i: int, j: int| 0 <= i < j < records.len() implies (
        #[trigger] records[i]).event.seq < (#[trigger] records[j]).event.seq by {
            lemma_increasing_seq(records, grace_ms, i, j);
        }
    }
    if forall|i: int, j: int|
        0 <= i < j < records.len() ==> (#[trigger] records[i]).event.seq < (
        #[trigger] records[j]).event.seq {
        assert forall|i: int| 0 <= i < records.len() implies !lease::reports(
            #[trigger] history::record_findings(records.take(i), records[i], grace_ms),
            code,
        ) by {
            if i > 0 {
                assert(records[i - 1].event.seq < records[i].event.seq);
            }
        }
    }
}

/// Sequence numbers that increase from one event to the next increase over any distance.
proof fn lemma_increasing_seq(records: Seq<Record>, grace_ms: u64, i: int, j: int)
    requires
        0 <= i < j < records.len(),
        forall|i: int|
            0 <= i < records.len() ==> !lease::reports(
                #[trigger] history::record_findings(records.take(i), records[i], grace_ms),
                FindingCode::SequenceNotIncreasing,
            ),
    ensures
        records[i].event.seq < records[j].event.seq,
    decreases j - i,
{
    let found = history::record_findings(records.take(j), records[j], grace_ms);
    lemma_record_reports(
        records.take(j),
        records[j],
        grace_ms,
        FindingCode::SequenceNotIncreasing,
    );
    assert(!lease::reports(found, FindingCode::SequenceNotIncreasing));
    assert(records.take(j).last() == records[j - 1]);
    if i < j - 1 {
        lemma_increasing_seq(records, grace_ms, i, j - 1);
    }
}

/// Time does not run backwards over a stream exactly when no event is reported for its time.
pub proof fn law_time_advances_iff_unreported(records: Seq<Record>, grace_ms: u64)
    ensures
        (forall|i: int|
            0 <= i < records.len() ==> !lease::reports(
                #[trigger] history::record_findings(records.take(i), records[i], grace_ms),
                FindingCode::TimeWentBackwards,
            )) <==> (forall|i: int, j: int|
            0 <= i < j < records.len() ==> (#[trigger] records[i]).event.at_ms <= (
            #[trigger] records[j]).event.at_ms),
{
    let code = FindingCode::TimeWentBackwards;
    assert forall|i: int| 0 <= i < records.len() implies (lease::reports(
        #[trigger] history::record_findings(records.take(i), records[i], grace_ms),
        code,
    ) <==> i > 0 && records[i].event.at_ms < records[i - 1].event.at_ms) by {
        lemma_record_reports(records.take(i), records[i], grace_ms, code);
    }
    if forall|i: int|
        0 <= i < records.len() ==> !lease::reports(
            #[trigger] history::record_findings(records.take(i), records[i], grace_ms),
            code,
        ) {
        assert forall|i: int, j: int| 0 <= i < j < records.len() implies (
        #[trigger] records[i]).event.at_ms <= (#[trigger] records[j]).event.at_ms by {
            lemma_advancing_time(records, grace_ms, i, j);
        }
    }
    if forall|i: int, j: int|
        0 <= i < j < records.len() ==> (#[trigger] records[i]).event.at_ms <= (
        #[trigger] records[j]).event.at_ms {
        assert forall|i: int| 0 <= i < records.len() implies !lease::reports(
            #[trigger] history::record_findings(records.take(i), records[i], grace_ms),
            code,
        ) by {
            if i > 0 {
                assert(records[i - 1].event.at_ms <= records[i].event.at_ms);
            }
        }
    }
}

/// Times that do not run backwards from one event to the next do not over any distance.
proof fn lemma_advancing_time(records: Seq<Record>, grace_ms: u64, i: int, j: int)
    requires
        0 <= i < j < records.len(),
        forall|i: int|
            0 <= i < records.len() ==> !lease::reports(
                #[trigger] history::record_findings(records.take(i), records[i], grace_ms),
                FindingCode::TimeWentBackwards,
            ),
    ensures
        records[i].event.at_ms <= records[j].event.at_ms,
    decreases j - i,
{
    let found = history::record_findings(records.take(j), records[j], grace_ms);
    lemma_record_reports(records.take(j), records[j], grace_ms, FindingCode::TimeWentBackwards);
    assert(!lease::reports(found, FindingCode::TimeWentBackwards));
    assert(records.take(j).last() == records[j - 1]);
    if i < j - 1 {
        lemma_advancing_time(records, grace_ms, i, j - 1);
    }
}

/// A stream names no more resources than it has events, and at least one if it has any.
pub proof fn law_resources_seen_is_bounded(records: Seq<Record>)
    ensures
        history::resources(records).finite(),
        history::resources(records).len() <= records.len(),
        records.len() > 0 ==> history::resources(records).len() > 0,
    decreases records.len(),
{
    if records.len() > 0 {
        let shorter = records.drop_last();
        let name = records.last().event.resource@;
        law_resources_seen_is_bounded(shorter);
        assert(history::resources(records) =~= history::resources(shorter).insert(name)) by {
            assert forall|r: Seq<char>| #[trigger]
                history::resources(records).contains(r) == history::resources(shorter).insert(
                    name,
                ).contains(r) by {
                if history::resources(records).contains(r) {
                    let i = choose|i: int|
                        0 <= i < records.len() && (#[trigger] records[i]).event.resource@ == r;
                    if i < shorter.len() {
                        assert(shorter[i].event.resource@ == r);
                    }
                }
                if history::resources(shorter).contains(r) {
                    let i = choose|i: int|
                        0 <= i < shorter.len() && (#[trigger] shorter[i]).event.resource@ == r;
                    assert(records[i].event.resource@ == r);
                }
                assert(records[records.len() - 1].event.resource@ == name);
            }
        }
    } else {
        assert(history::resources(records) =~= Set::empty());
    }
}

/// A finding without the number of its line.
pub open spec fn unnumbered(found: FindingModel) -> FindingModel {
    FindingModel { line: 0, ..found }
}

/// Findings without the numbers of their lines.
pub open spec fn all_unnumbered(found: Seq<FindingModel>) -> Seq<FindingModel> {
    found.map_values(|f: FindingModel| unnumbered(f))
}

/// Whether two streams hold the same events, on whatever lines.
pub open spec fn same_events(a: Seq<Record>, b: Seq<Record>) -> bool {
    &&& a.len() == b.len()
    &&& forall|i: int| 0 <= i < a.len() ==> (#[trigger] a[i]).event == (#[trigger] b[i]).event
}

/// The lines on which events stand have no bearing on the audit: streams with the same events get
/// the same counts and, but for their line numbers, the same findings.
pub proof fn law_lines_have_no_bearing(a: Seq<Record>, b: Seq<Record>, grace_ms: u64)
    requires
        same_events(a, b),
    ensures
        all_unnumbered(history::all_findings(a, grace_ms)) == all_unnumbered(
            history::all_findings(b, grace_ms),
        ),
        history::resources(a) == history::resources(b),
        forall|r: Seq<char>| #[trigger]
            history::resource_state(a, r, grace_ms) == history::resource_state(b, r, grace_ms),
    decreases a.len(),
{
    assert(history::resources(a) =~= history::resources(b)) by {
        assert forall|r: Seq<char>| #[trigger]
            history::resources(a).contains(r) == history::resources(b).contains(r) by {
            if history::resources(a).contains(r) {
                let i = choose|i: int|
                    0 <= i < a.len() && (#[trigger] a[i]).event.resource@ == r;
                assert(b[i].event.resource@ == r);
            }
            if history::resources(b).contains(r) {
                let i = choose|i: int|
                    0 <= i < b.len() && (#[trigger] b[i]).event.resource@ == r;
                assert(a[i].event.resource@ == r);
            }
        }
    }
    if a.len() > 0 {
        let x = a.drop_last();
        let y = b.drop_last();
        assert(a.last().event == b.last().event);
        assert forall|i: int| 0 <= i < x.len() implies (#[trigger] x[i]).event == (
        #[trigger] y[i]).event by {
            assert(a[i].event == b[i].event);
        }
        law_lines_have_no_bearing(x, y, grace_ms);
        assert forall|r: Seq<char>| #[trigger]
            history::resource_state(a, r, grace_ms) == history::resource_state(b, r, grace_ms) by {
            assert(history::resource_state(x, r, grace_ms) == history::resource_state(
                y,
                r,
                grace_ms,
            ));
        }
        if x.len() > 0 {
            assert(x[x.len() - 1].event == y[y.len() - 1].event);
        }
        assert(history::latest(x) == history::latest(y));
        let resource = a.last().event.resource@;
        assert(history::resource_state(x, resource, grace_ms) == history::resource_state(
            y,
            resource,
            grace_ms,
        ));
        lemma_record_unnumbered(x, a.last(), y, b.last(), grace_ms);
        lemma_unnumbered_concat(
            history::all_findings(x, grace_ms),
            history::record_findings(x, a.last(), grace_ms),
        );
        lemma_unnumbered_concat(
            history::all_findings(y, grace_ms),
            history::record_findings(y, b.last(), grace_ms),
        );
    } else {
        assert(a =~= b);
    }
}

/// Dropping line numbers goes through a concatenation.
proof fn lemma_unnumbered_concat(p: Seq<FindingModel>, q: Seq<FindingModel>)
    ensures
        all_unnumbered(p + q) == all_unnumbered(p) + all_unnumbered(q),
{
    assert(all_unnumbered(p + q) =~= all_unnumbered(p) + all_unnumbered(q));
}

/// Dropping line numbers goes through concatenations and conditional findings.
proof fn lemma_unnumbered()
    ensures
        forall|p: Seq<FindingModel>, q: Seq<FindingModel>| #[trigger]
            all_unnumbered(p + q) == all_unnumbered(p) + all_unnumbered(q),
        forall|broken: bool, f: FindingModel| #[trigger]
            all_unnumbered(rules::when(broken, f)) == rules::when(broken, unnumbered(f)),
        forall|f: FindingModel| #[trigger] all_unnumbered(seq![f]) == seq![unnumbered(f)],
{
    assert forall|p: Seq<FindingModel>, q: Seq<FindingModel>| #[trigger]
        all_unnumbered(p + q) == all_unnumbered(p) + all_unnumbered(q) by {
        lemma_unnumbered_concat(p, q);
    }
    assert forall|broken: bool, f: FindingModel| #[trigger]
        all_unnumbered(rules::when(broken, f)) == rules::when(broken, unnumbered(f)) by {
        assert(all_unnumbered(rules::when(broken, f)) =~= rules::when(broken, unnumbered(f)));
    }
    assert forall|f: FindingModel| #[trigger] all_unnumbered(seq![f]) == seq![unnumbered(f)] by {
        assert(all_unnumbered(seq![f]) =~= seq![unnumbered(f)]);
    }
}

/// The findings about the order of an event do not depend on its line otherwise than by number.
proof fn lemma_order_unnumbered(
    previous: Option<order::Stamp>,
    event: Event,
    line: nat,
    other: nat,
)
    ensures
        all_unnumbered(order::order_findings(previous, event, line)) == all_unnumbered(
            order::order_findings(previous, event, other),
        ),
{
    lemma_unnumbered();
}

/// The findings about a lease do not depend on the line of an event otherwise than by number.
proof fn lemma_event_unnumbered(
    state: StateModel,
    event: Event,
    line: nat,
    other: nat,
    grace_ms: u64,
)
    ensures
        all_unnumbered(rules::event_findings(state, event, line, grace_ms)) == all_unnumbered(
            rules::event_findings(state, event, other, grace_ms),
        ),
{
    lemma_unnumbered();
}

/// The findings about an event that follows the same events do not depend on its line otherwise
/// than by number.
proof fn lemma_record_unnumbered(
    x: Seq<Record>,
    a: Record,
    y: Seq<Record>,
    b: Record,
    grace_ms: u64,
)
    requires
        a.event == b.event,
        history::latest(x) == history::latest(y),
        history::resource_state(x, a.event.resource@, grace_ms) == history::resource_state(
            y,
            a.event.resource@,
            grace_ms,
        ),
    ensures
        all_unnumbered(history::record_findings(x, a, grace_ms)) == all_unnumbered(
            history::record_findings(y, b, grace_ms),
        ),
{
    let state = history::resource_state(x, a.event.resource@, grace_ms);
    let previous = history::latest(x);
    lemma_order_unnumbered(previous, a.event, a.line, b.line);
    lemma_event_unnumbered(state, a.event, a.line, b.line, grace_ms);
    lemma_unnumbered_concat(
        order::order_findings(previous, a.event, a.line),
        rules::event_findings(state, a.event, a.line, grace_ms),
    );
    lemma_unnumbered_concat(
        order::order_findings(previous, b.event, b.line),
        rules::event_findings(state, b.event, b.line, grace_ms),
    );
}

} // verus!
