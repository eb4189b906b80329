//! Laws of a single lease.

use vstd::prelude::*;

use crate::event::{Event, EventKind};
use crate::finding::{FindingCode, FindingModel};
use crate::rules::{LeaseModel, StateModel};
use crate::rules;

verus! {

/// Whether a violation of the given kind is among `findings`.
pub open spec fn reports(findings: Seq<FindingModel>, code: FindingCode) -> bool {
    exists|i: int| 0 <= i < findings.len() && (#[trigger] findings[i]).code == code
}

/// Whether `event` breaks the lease rule behind `code` on a resource in `state`.
pub open spec fn breaks(
    state: StateModel,
    event: Event,
    grace_ms: u64,
    code: FindingCode,
) -> bool {
    match event.kind {
        EventKind::Grant { owner, epoch, lease_until_ms } => match code {
            FindingCode::EpochNotIncreasing => !rules::above_fence(state, epoch),
            FindingCode::GrantAlreadyExpired => lease_until_ms <= event.at_ms,
            _ => false,
        },
        EventKind::Renew { owner, epoch, lease_until_ms } => match state.active {
            None => code == FindingCode::RenewWithoutLease,
            Some(active) => match code {
                FindingCode::RenewWrongOwner => owner@ != active.owner,
                FindingCode::RenewWrongEpoch => epoch != active.epoch,
                FindingCode::RenewAfterExpiry => !rules::in_time(active, event.at_ms, grace_ms),
                FindingCode::RenewDidNotExtend => lease_until_ms <= active.until_ms,
                FindingCode::RenewDeadlineNotFuture => lease_until_ms <= event.at_ms,
                _ => false,
            },
        },
        EventKind::Revoke { owner, epoch } => match state.active {
            None => code == FindingCode::RevokeWithoutLease,
            Some(active) => match code {
                FindingCode::RevokeWrongOwner => owner@ != active.owner,
                FindingCode::RevokeWrongEpoch => epoch != active.epoch,
                _ => false,
            },
        },
        EventKind::Action { owner, epoch, operation } => match state.active {
            None => code == FindingCode::ActionWithoutLease,
            Some(active) => match code {
                FindingCode::ActionWrongOwner => owner@ != active.owner,
                FindingCode::ActionStaleEpoch => epoch < active.epoch,
                FindingCode::ActionFutureEpoch => epoch > active.epoch,
                FindingCode::ActionAfterExpiry => !rules::in_time(active, event.at_ms, grace_ms),
                _ => false,
            },
        },
    }
}

/// A concatenation reports what either part reports.
pub(crate) proof fn lemma_reports_concat(
    a: Seq<FindingModel>,
    b: Seq<FindingModel>,
    code: FindingCode,
)
    ensures
        reports(a + b, code) <==> reports(a, code) || reports(b, code),
{
    if reports(a + b, code) {
        let i = choose|i: int| 0 <= i < (a + b).len() && (#[trigger] (a + b)[i]).code == code;
        if i < a.len() {
            assert(a[i].code == code);
        } else {
            assert(b[i - a.len()].code == code);
        }
    }
    if reports(a, code) {
        let i = choose|i: int| 0 <= i < a.len() && (#[trigger] a[i]).code == code;
        assert((a + b)[i].code == code);
    }
    if reports(b, code) {
        let i = choose|i: int| 0 <= i < b.len() && (#[trigger] b[i]).code == code;
        assert((a + b)[a.len() + i].code == code);
    }
}

/// A conditional finding is reported exactly when its condition holds.
pub(crate) proof fn lemma_reports_when(broken: bool, finding: FindingModel, code: FindingCode)
    ensures
        reports(rules::when(broken, finding), code) <==> broken && finding.code == code,
{
    if broken {
        assert(rules::when(broken, finding)[0] == finding);
    }
}

/// A single finding reports its own code only.
proof fn lemma_reports_single(finding: FindingModel, code: FindingCode)
    ensures
        reports(seq![finding], code) <==> finding.code == code,
{
    assert(seq![finding][0] == finding);
}

/// Every rule is checked on its own: a violation is reported exactly when the event breaks the rule
/// behind it, whatever else the event breaks.
pub proof fn law_rule_reported_iff_broken(
    state: StateModel,
    event: Event,
    line: nat,
    grace_ms: u64,
    code: FindingCode,
)
    ensures
        reports(rules::event_findings(state, event, line, grace_ms), code) <==> breaks(
            state,
            event,
            grace_ms,
            code,
        ),
{
    assert forall|broken: bool, f: FindingModel| #[trigger]
        reports(rules::when(broken, f), code) <==> broken && f.code == code by {
        lemma_reports_when(broken, f, code);
    }
    assert forall|f: FindingModel| #[trigger] reports(seq![f], code) <==> f.code == code by {
        lemma_reports_single(f, code);
    }
    assert forall|a: Seq<FindingModel>, b: Seq<FindingModel>| #[trigger]
        reports(a + b, code) <==> reports(a, code) || reports(b, code) by {
        lemma_reports_concat(a, b, code);
    }
}

/// Whether an event breaks no lease rule.
pub open spec fn lawful(state: StateModel, event: Event, grace_ms: u64) -> bool {
    rules::event_findings(state, event, 0, grace_ms).len() == 0
}

/// Whether an event is lawful does not depend on the line on which it stands.
pub proof fn law_lawful_on_any_line(state: StateModel, event: Event, line: nat, grace_ms: u64)
    ensures
        lawful(state, event, grace_ms) <==> rules::event_findings(
            state,
            event,
            line,
            grace_ms,
        ).len() == 0,
{
}

/// An action is lawful exactly when it matches the owner and the epoch of the lease in force and
/// occurs no later than the deadline plus the grace.
pub proof fn law_lawful_action(state: StateModel, event: Event, grace_ms: u64)
    requires
        event.kind is Action,
    ensures
        lawful(state, event, grace_ms) <==> {
            &&& state.active is Some
            &&& event.kind->Action_owner@ == state.active->0.owner
            &&& event.kind->Action_epoch == state.active->0.epoch
            &&& event.at_ms <= state.active->0.until_ms + grace_ms
        },
{
}

/// An action never changes the state of its resource.
pub proof fn law_action_changes_nothing(state: StateModel, event: Event, grace_ms: u64)
    requires
        event.kind is Action,
    ensures
        rules::next_state(state, event, grace_ms) == state,
{
}

/// A grant is lawful exactly when its epoch is above the fence and its deadline in the future.
/// Then it moves the fence to its epoch and puts its lease in force. Any other grant leaves the
/// lease in force as it was.
pub proof fn law_lawful_grant(state: StateModel, event: Event, grace_ms: u64)
    requires
        event.kind is Grant,
    ensures
        lawful(state, event, grace_ms) <==> {
            &&& rules::above_fence(state, event.kind->Grant_epoch)
            &&& event.kind->Grant_lease_until_ms > event.at_ms
        },
        lawful(state, event, grace_ms) ==> rules::next_state(state, event, grace_ms) == (
        StateModel {
            highest_epoch: Some(event.kind->Grant_epoch),
            active: Some(
                LeaseModel {
                    owner: event.kind->Grant_owner@,
                    epoch: event.kind->Grant_epoch,
                    until_ms: event.kind->Grant_lease_until_ms,
                },
            ),
        }),
        !lawful(state, event, grace_ms) ==> rules::next_state(state, event, grace_ms).active
            == state.active,
{
}

/// A renewal is lawful exactly when it matches the owner and the epoch of the lease in force, comes
/// in time, and moves the deadline forward and into the future. Then the deadline, and nothing
/// else, changes. Any other renewal changes nothing.
pub proof fn law_lawful_renewal(state: StateModel, event: Event, grace_ms: u64)
    requires
        event.kind is Renew,
    ensures
        lawful(state, event, grace_ms) <==> {
            &&& state.active is Some
            &&& event.kind->Renew_owner@ == state.active->0.owner
            &&& event.kind->Renew_epoch == state.active->0.epoch
            &&& event.at_ms <= state.active->0.until_ms + grace_ms
            &&& event.kind->Renew_lease_until_ms > state.active->0.until_ms
            &&& event.kind->Renew_lease_until_ms > event.at_ms
        },
        lawful(state, event, grace_ms) ==> rules::next_state(state, event, grace_ms) == (
        StateModel {
            highest_epoch: state.highest_epoch,
            active: Some(
                LeaseModel {
                    owner: state.active->0.owner,
                    epoch: state.active->0.epoch,
                    until_ms: event.kind->Renew_lease_until_ms,
                },
            ),
        }),
        !lawful(state, event, grace_ms) ==> rules::next_state(state, event, grace_ms) == state,
{
}

/// A revocation is lawful exactly when it matches the owner and the epoch of the lease in force.
/// Then it ends the lease and leaves the fence where it was. Any other revocation changes nothing.
pub proof fn law_lawful_revocation(state: StateModel, event: Event, grace_ms: u64)
    requires
        event.kind is Revoke,
    ensures
        lawful(state, event, grace_ms) <==> {
            &&& state.active is Some
            &&& event.kind->Revoke_owner@ == state.active->0.owner
            &&& event.kind->Revoke_epoch == state.active->0.epoch
        },
        lawful(state, event, grace_ms) ==> rules::next_state(state, event, grace_ms) == (
        StateModel { highest_epoch: state.highest_epoch, active: None }),
        !lawful(state, event, grace_ms) ==> rules::next_state(state, event, grace_ms) == state,
{
}

/// The fence never falls: an epoch that is not above it before an event is not above it after.
pub proof fn law_fence_never_falls(
    state: StateModel,
    event: Event,
    grace_ms: u64,
    epoch: u64,
)
    requires
        !rules::above_fence(state, epoch),
    ensures
        !rules::above_fence(rules::next_state(state, event, grace_ms), epoch),
{
}

/// A lawful grant fences the former owner at once, whatever the former deadline: an action, a
/// renewal or a revocation under another epoch is a violation right after it, and so is one by
/// another owner.
pub proof fn law_grant_fences_former_owner(
    state: StateModel,
    grant: Event,
    later: Event,
    line: nat,
    grace_ms: u64,
)
    requires
        grant.kind is Grant,
        lawful(state, grant, grace_ms),
    ensures
        ({
            let after = rules::next_state(state, grant, grace_ms);
            let found = rules::event_findings(after, later, line, grace_ms);
            let owner = grant.kind->Grant_owner@;
            let epoch = grant.kind->Grant_epoch;
            match later.kind {
                EventKind::Action { owner: o, epoch: e, .. } => {
                    &&& o@ != owner ==> reports(found, FindingCode::ActionWrongOwner)
                    &&& e < epoch ==> reports(found, FindingCode::ActionStaleEpoch)
                    &&& e > epoch ==> reports(found, FindingCode::ActionFutureEpoch)
                },
                EventKind::Renew { owner: o, epoch: e, .. } => {
                    &&& o@ != owner ==> reports(found, FindingCode::RenewWrongOwner)
                    &&& e != epoch ==> reports(found, FindingCode::RenewWrongEpoch)
                },
                EventKind::Revoke { owner: o, epoch: e } => {
                    &&& o@ != owner ==> reports(found, FindingCode::RevokeWrongOwner)
                    &&& e != epoch ==> reports(found, FindingCode::RevokeWrongEpoch)
                },
                EventKind::Grant { epoch: e, .. } => {
                    e <= epoch ==> reports(found, FindingCode::EpochNotIncreasing)
                },
            }
        }),
{
    let after = rules::next_state(state, grant, grace_ms);
    law_lawful_grant(state, grant, grace_ms);
    law_rule_reported_iff_broken(after, later, line, grace_ms, FindingCode::ActionWrongOwner);
    law_rule_reported_iff_broken(after, later, line, grace_ms, FindingCode::ActionStaleEpoch);
    law_rule_reported_iff_broken(after, later, line, grace_ms, FindingCode::ActionFutureEpoch);
    law_rule_reported_iff_broken(after, later, line, grace_ms, FindingCode::RenewWrongOwner);
    law_rule_reported_iff_broken(after, later, line, grace_ms, FindingCode::RenewWrongEpoch);
    law_rule_reported_iff_broken(after, later, line, grace_ms, FindingCode::RevokeWrongOwner);
    law_rule_reported_iff_broken(after, later, line, grace_ms, FindingCode::RevokeWrongEpoch);
    law_rule_reported_iff_broken(after, later, line, grace_ms, FindingCode::EpochNotIncreasing);
}

/// Whether a violation says that an action or a renewal came too late.
pub open spec fn is_lateness(code: FindingCode) -> bool {
    code == FindingCode::RenewAfterExpiry || code == FindingCode::ActionAfterExpiry
}

/// Grace extends the time allowed for renewals and actions and nothing else: on a given state, more
/// grace takes nothing but lateness out of the findings, and adds nothing to them.
pub proof fn law_grace_extends_only_time(
    state: StateModel,
    event: Event,
    line: nat,
    grace_ms: u64,
    more_ms: u64,
    code: FindingCode,
)
    requires
        grace_ms <= more_ms,
    ensures
        !is_lateness(code) ==> (reports(
            rules::event_findings(state, event, line, more_ms),
            code,
        ) <==> reports(rules::event_findings(state, event, line, grace_ms), code)),
        reports(rules::event_findings(state, event, line, more_ms), code) ==> reports(
            rules::event_findings(state, event, line, grace_ms),
            code,
        ),
{
    law_rule_reported_iff_broken(state, event, line, more_ms, code);
    law_rule_reported_iff_broken(state, event, line, grace_ms, code);
}

/// Grace saturates: with the largest grace nothing is ever too late.
pub proof fn law_largest_grace_forgives_lateness(
    state: StateModel,
    event: Event,
    line: nat,
    code: FindingCode,
)
    requires
        is_lateness(code),
    ensures
        !reports(rules::event_findings(state, event, line, u64::MAX), code),
{
    law_rule_reported_iff_broken(state, event, line, u64::MAX, code);
}

} // verus!
