//! The rules of a single lease: which events break them, and what each event makes of the lease.

use vstd::prelude::*;

use crate::event::{Event, EventKind};
use crate::finding::{push_finding, Finding, FindingCode, FindingModel};
use crate::message::{numbers, operation_head, overdue, owners};
use crate::text::same_text;
use crate::{finding, message};

verus! {

/// The lease that is in force for a resource.
#[derive(Debug, Clone, PartialEq, Eq)]
pub struct Lease {
    pub owner: String,
    pub epoch: u64,
    pub until_ms: u64,
}

/// What is known of a resource: the epoch fence and the lease in force, if there is one.
#[derive(Debug)]
pub struct ResourceState {
    pub highest_epoch: Option<u64>,
    pub active: Option<Lease>,
}

/// What a [`Lease`] says, with its owner as a character sequence.
pub struct LeaseModel {
    pub owner: Seq<char>,
    pub epoch: u64,
    pub until_ms: u64,
}

/// What a [`ResourceState`] says.
pub struct StateModel {
    pub highest_epoch: Option<u64>,
    pub active: Option<LeaseModel>,
}

impl View for Lease {
    type V = LeaseModel;

    open spec fn view(&self) -> LeaseModel {
        LeaseModel { owner: self.owner@, epoch: self.epoch, until_ms: self.until_ms }
    }
}

impl View for ResourceState {
    type V = StateModel;

    open spec fn view(&self) -> StateModel {
        StateModel {
            highest_epoch: self.highest_epoch,
            active: match self.active {
                Some(lease) => Some(lease@),
                None => None,
            },
        }
    }
}

/// A resource of which no event has been seen.
pub open spec fn fresh_state() -> StateModel {
    StateModel { highest_epoch: None, active: None }
}

impl Default for ResourceState {
    fn default() -> (state: Self)
        ensures
            state@ == fresh_state(),
    {
        ResourceState { highest_epoch: None, active: None }
    }
}

/// The finding alone if the rule is broken, and nothing otherwise.
pub open spec fn when(broken: bool, finding: FindingModel) -> Seq<FindingModel> {
    if broken {
        seq![finding]
    } else {
        Seq::empty()
    }
}

/// Whether `epoch` is greater than every epoch behind the fence.
pub open spec fn above_fence(state: StateModel, epoch: u64) -> bool {
    match state.highest_epoch {
        Some(highest) => epoch > highest,
        None => true,
    }
}

/// Whether `at_ms` is no later than the deadline of `lease` plus the grace.
pub open spec fn in_time(lease: LeaseModel, at_ms: u64, grace_ms: u64) -> bool {
    at_ms <= lease.until_ms + grace_ms
}

/// The violations of a grant.
pub open spec fn grant_findings(
    state: StateModel,
    event: Event,
    line: nat,
    epoch: u64,
    lease_until_ms: u64,
) -> Seq<FindingModel> {
    when(
        !above_fence(state, epoch),
        finding::finding(
            FindingCode::EpochNotIncreasing,
            event,
            line,
            message::numbers_text(
                "grant epoch "@,
                epoch,
                " is not greater than highest epoch "@,
                state.highest_epoch->0,
            ),
        ),
    ) + when(
        lease_until_ms <= event.at_ms,
        finding::finding(
            FindingCode::GrantAlreadyExpired,
            event,
            line,
            message::numbers_text(
                "grant deadline "@,
                lease_until_ms,
                " is not later than event time "@,
                event.at_ms,
            ),
        ),
    )
}

/// What a grant makes of a resource: an epoch above the fence moves the fence, and takes the lease
/// over if its deadline lies in the future.
pub open spec fn granted(
    state: StateModel,
    event: Event,
    owner: Seq<char>,
    epoch: u64,
    lease_until_ms: u64,
) -> StateModel {
    if !above_fence(state, epoch) {
        state
    } else {
        StateModel {
            highest_epoch: Some(epoch),
            active: if lease_until_ms > event.at_ms {
                Some(LeaseModel { owner, epoch, until_ms: lease_until_ms })
            } else {
                state.active
            },
        }
    }
}

/// The violations of a renewal of `active`.
pub open spec fn held_renew_findings(
    active: LeaseModel,
    event: Event,
    line: nat,
    owner: Seq<char>,
    epoch: u64,
    lease_until_ms: u64,
    grace_ms: u64,
) -> Seq<FindingModel> {
    when(
        owner != active.owner,
        finding::finding(
            FindingCode::RenewWrongOwner,
            event,
            line,
            message::owners_text("owner "@, owner, active.owner),
        ),
    ) + when(
        epoch != active.epoch,
        finding::finding(
            FindingCode::RenewWrongEpoch,
            event,
            line,
            message::numbers_text(
                "epoch "@,
                epoch,
                " does not match active epoch "@,
                active.epoch,
            ),
        ),
    ) + when(
        !in_time(active, event.at_ms, grace_ms),
        finding::finding(
            FindingCode::RenewAfterExpiry,
            event,
            line,
            message::overdue_text(
                "renewal at "@,
                event.at_ms,
                active.until_ms,
                grace_ms,
            ),
        ),
    ) + when(
        lease_until_ms <= active.until_ms,
        finding::finding(
            FindingCode::RenewDidNotExtend,
            event,
            line,
            message::numbers_text(
                "renewal deadline "@,
                lease_until_ms,
                " does not extend active deadline "@,
                active.until_ms,
            ),
        ),
    ) + when(
        lease_until_ms <= event.at_ms,
        finding::finding(
            FindingCode::RenewDeadlineNotFuture,
            event,
            line,
            message::numbers_text(
                "renewal deadline "@,
                lease_until_ms,
                " is not later than event time "@,
                event.at_ms,
            ),
        ),
    )
}

/// The violations of a renewal.
pub open spec fn renew_findings(
    state: StateModel,
    event: Event,
    line: nat,
    owner: Seq<char>,
    epoch: u64,
    lease_until_ms: u64,
    grace_ms: u64,
) -> Seq<FindingModel> {
    match state.active {
        None => seq![
            finding::finding(
                FindingCode::RenewWithoutLease,
                event,
                line,
                "renewal has no active lease"@,
            ),
        ],
        Some(active) => held_renew_findings(
            active,
            event,
            line,
            owner,
            epoch,
            lease_until_ms,
            grace_ms,
        ),
    }
}

/// Whether a renewal keeps every rule: it is made by the owner of the lease under its epoch, in
/// time, and moves the deadline forward and into the future.
pub open spec fn renewable(
    state: StateModel,
    event: Event,
    owner: Seq<char>,
    epoch: u64,
    lease_until_ms: u64,
    grace_ms: u64,
) -> bool {
    match state.active {
        None => false,
        Some(active) => {
            &&& owner == active.owner
            &&& epoch == active.epoch
            &&& in_time(active, event.at_ms, grace_ms)
            &&& lease_until_ms > active.until_ms
            &&& lease_until_ms > event.at_ms
        },
    }
}

/// What a renewal makes of a resource: one that keeps every rule moves the deadline, any other
/// changes nothing.
pub open spec fn renewed(
    state: StateModel,
    event: Event,
    owner: Seq<char>,
    epoch: u64,
    lease_until_ms: u64,
    grace_ms: u64,
) -> StateModel {
    if renewable(state, event, owner, epoch, lease_until_ms, grace_ms) {
        StateModel {
            active: Some(LeaseModel { until_ms: lease_until_ms, ..state.active->0 }),
            ..state
        }
    } else {
        state
    }
}

/// The violations of a revocation.
pub open spec fn revoke_findings(
    state: StateModel,
    event: Event,
    line: nat,
    owner: Seq<char>,
    epoch: u64,
) -> Seq<FindingModel> {
    match state.active {
        None => seq![
            finding::finding(
                FindingCode::RevokeWithoutLease,
                event,
                line,
                "revocation has no active lease"@,
            ),
        ],
        Some(active) => when(
            owner != active.owner,
            finding::finding(
                FindingCode::RevokeWrongOwner,
                event,
                line,
                message::owners_text("owner "@, owner, active.owner),
            ),
        ) + when(
            epoch != active.epoch,
            finding::finding(
                FindingCode::RevokeWrongEpoch,
                event,
                line,
                message::numbers_text(
                    "epoch "@,
                    epoch,
                    " does not match active epoch "@,
                    active.epoch,
                ),
            ),
        ),
    }
}

/// What a revocation makes of a resource: one that names the owner and the epoch of the lease ends
/// it, any other changes nothing. The fence stays where it is.
pub open spec fn revoked(state: StateModel, owner: Seq<char>, epoch: u64) -> StateModel {
    match state.active {
        Some(active) => if owner == active.owner && epoch == active.epoch {
            StateModel { active: None, ..state }
        } else {
            state
        },
        None => state,
    }
}

/// The violations of a protected action.
pub open spec fn action_findings(
    state: StateModel,
    event: Event,
    line: nat,
    owner: Seq<char>,
    epoch: u64,
    operation: Seq<char>,
    grace_ms: u64,
) -> Seq<FindingModel> {
    match state.active {
        None => seq![
            finding::finding(
                FindingCode::ActionWithoutLease,
                event,
                line,
                message::operation_text(operation, " has no active lease"@),
            ),
        ],
        Some(active) => when(
            owner != active.owner,
            finding::finding(
                FindingCode::ActionWrongOwner,
                event,
                line,
                message::owners_text(
                    message::operation_text(operation, " owner "@),
                    owner,
                    active.owner,
                ),
            ),
        ) + when(
            epoch < active.epoch,
            finding::finding(
                FindingCode::ActionStaleEpoch,
                event,
                line,
                message::numbers_text(
                    message::operation_text(operation, " epoch "@),
                    epoch,
                    " is stale; active epoch is "@,
                    active.epoch,
                ),
            ),
        ) + when(
            epoch > active.epoch,
            finding::finding(
                FindingCode::ActionFutureEpoch,
                event,
                line,
                message::numbers_text(
                    message::operation_text(operation, " epoch "@),
                    epoch,
                    " is ahead of active epoch "@,
                    active.epoch,
                ),
            ),
        ) + when(
            !in_time(active, event.at_ms, grace_ms),
            finding::finding(
                FindingCode::ActionAfterExpiry,
                event,
                line,
                message::overdue_text(
                    message::operation_text(operation, " at "@),
                    event.at_ms,
                    active.until_ms,
                    grace_ms,
                ),
            ),
        ),
    }
}

/// The lease rules that `event` breaks on a resource in `state`.
pub open spec fn event_findings(
    state: StateModel,
    event: Event,
    line: nat,
    grace_ms: u64,
) -> Seq<FindingModel> {
    match event.kind {
        EventKind::Grant { owner, epoch, lease_until_ms } => grant_findings(
            state,
            event,
            line,
            epoch,
            lease_until_ms,
        ),
        EventKind::Renew { owner, epoch, lease_until_ms } => renew_findings(
            state,
            event,
            line,
            owner@,
            epoch,
            lease_until_ms,
            grace_ms,
        ),
        EventKind::Revoke { owner, epoch } => revoke_findings(state, event, line, owner@, epoch),
        EventKind::Action { owner, epoch, operation } => action_findings(
            state,
            event,
            line,
            owner@,
            epoch,
            operation@,
            grace_ms,
        ),
    }
}

/// What `event` makes of a resource in `state`.
pub open spec fn next_state(state: StateModel, event: Event, grace_ms: u64) -> StateModel {
    match event.kind {
        EventKind::Grant { owner, epoch, lease_until_ms } => granted(
            state,
            event,
            owner@,
            epoch,
            lease_until_ms,
        ),
        EventKind::Renew { owner, epoch, lease_until_ms } => renewed(
            state,
            event,
            owner@,
            epoch,
            lease_until_ms,
            grace_ms,
        ),
        EventKind::Revoke { owner, epoch } => revoked(state, owner@, epoch),
        EventKind::Action { .. } => state,
    }
}

/// Checks a grant and puts it in force.
pub fn apply_grant(
    state: &mut ResourceState,
    event: &Event,
    line: usize,
    owner: &str,
    epoch: u64,
    lease_until_ms: u64,
    violations: &mut Vec<Finding>,
)
    ensures
        final(state)@ == granted(old(state)@, *event, owner@, epoch, lease_until_ms),
        finding::contents(final(violations)@) == finding::contents(old(violations)@)
            + grant_findings(old(state)@, *event, line as nat, epoch, lease_until_ms),
{
    let ghost before = finding::contents(violations@);
    let highest: u64 = match state.highest_epoch {
        Some(highest) => highest,
        None => 0,
    };
    let epoch_valid = state.highest_epoch.is_none() || epoch > highest;
    let deadline_valid = lease_until_ms > event.at_ms;

    if !epoch_valid {
        push_finding(
            violations,
            event,
            line,
            FindingCode::EpochNotIncreasing,
            numbers(
                "grant epoch ".to_owned(),
                epoch,
                " is not greater than highest epoch ",
                highest,
            ),
        );
    }
    if !deadline_valid {
        push_finding(
            violations,
            event,
            line,
            FindingCode::GrantAlreadyExpired,
            numbers(
                "grant deadline ".to_owned(),
                lease_until_ms,
                " is not later than event time ",
                event.at_ms,
            ),
        );
    }
    assert(finding::contents(violations@) =~= before + grant_findings(
        old(state)@,
        *event,
        line as nat,
        epoch,
        lease_until_ms,
    ));

    if epoch_valid {
        state.highest_epoch = Some(epoch);
    }
    if epoch_valid && deadline_valid {
        state.active = Some(Lease { owner: owner.to_owned(), epoch, until_ms: lease_until_ms });
    }
}

/// Checks a renewal and moves the deadline if it keeps every rule.
#[allow(clippy::too_many_arguments)]
pub fn apply_renew(
    state: &mut ResourceState,
    event: &Event,
    line: usize,
    owner: &str,
    epoch: u64,
    lease_until_ms: u64,
    grace_ms: u64,
    violations: &mut Vec<Finding>,
)
    ensures
        final(state)@ == renewed(
            old(state)@,
            *event,
            owner@,
            epoch,
            lease_until_ms,
            grace_ms,
        ),
        finding::contents(final(violations)@) == finding::contents(old(violations)@)
            + renew_findings(
            old(state)@,
            *event,
            line as nat,
            owner@,
            epoch,
            lease_until_ms,
            grace_ms,
        ),
{
    let ghost before = finding::contents(violations@);
    let accepted = match &state.active {
        None => {
            push_finding(
                violations,
                event,
                line,
                FindingCode::RenewWithoutLease,
                "renewal has no active lease".to_owned(),
            );
            false
        },
        Some(active) => {
            let owner_matches = same_text(owner, active.owner.as_str());
            let epoch_matches = epoch == active.epoch;
            let before_expiry = event.at_ms <= active.until_ms.saturating_add(grace_ms);
            let extends = lease_until_ms > active.until_ms;
            let future_deadline = lease_until_ms > event.at_ms;

            if !owner_matches {
                push_finding(
                    violations,
                    event,
                    line,
                    FindingCode::RenewWrongOwner,
                    owners("owner ".to_owned(), owner, active.owner.as_str()),
                );
            }
            if !epoch_matches {
                push_finding(
                    violations,
                    event,
                    line,
                    FindingCode::RenewWrongEpoch,
                    numbers(
                        "epoch ".to_owned(),
                        epoch,
                        " does not match active epoch ",
                        active.epoch,
                    ),
                );
            }
            if !before_expiry {
                push_finding(
                    violations,
                    event,
                    line,
                    FindingCode::RenewAfterExpiry,
                    overdue("renewal at ".to_owned(), event.at_ms, active.until_ms, grace_ms),
                );
            }
            if !extends {
                push_finding(
                    violations,
                    event,
                    line,
                    FindingCode::RenewDidNotExtend,
                    numbers(
                        "renewal deadline ".to_owned(),
                        lease_until_ms,
                        " does not extend active deadline ",
                        active.until_ms,
                    ),
                );
            }
            if !future_deadline {
                push_finding(
                    violations,
                    event,
                    line,
                    FindingCode::RenewDeadlineNotFuture,
                    numbers(
                        "renewal deadline ".to_owned(),
                        lease_until_ms,
                        " is not later than event time ",
                        event.at_ms,
                    ),
                );
            }
            assert(finding::contents(violations@) =~= before + held_renew_findings(
                active@,
                *event,
                line as nat,
                owner@,
                epoch,
                lease_until_ms,
                grace_ms,
            ));
            owner_matches && epoch_matches && before_expiry && extends && future_deadline
        },
    };
    if accepted {
        if let Some(active) = &mut state.active {
            active.until_ms = lease_until_ms;
        }
    }
}

/// Checks a revocation and ends the lease if it names the lease's owner and epoch.
pub fn apply_revoke(
    state: &mut ResourceState,
    event: &Event,
    line: usize,
    owner: &str,
    epoch: u64,
    violations: &mut Vec<Finding>,
)
    ensures
        final(state)@ == revoked(old(state)@, owner@, epoch),
        finding::contents(final(violations)@) == finding::contents(old(violations)@)
            + revoke_findings(old(state)@, *event, line as nat, owner@, epoch),
{
    let ghost before = finding::contents(violations@);
    let accepted = match &state.active {
        None => {
            push_finding(
                violations,
                event,
                line,
                FindingCode::RevokeWithoutLease,
                "revocation has no active lease".to_owned(),
            );
            false
        },
        Some(active) => {
            let owner_matches = same_text(owner, active.owner.as_str());
            let epoch_matches = epoch == active.epoch;
            if !owner_matches {
                push_finding(
                    violations,
                    event,
                    line,
                    FindingCode::RevokeWrongOwner,
                    owners("owner ".to_owned(), owner, active.owner.as_str()),
                );
            }
            if !epoch_matches {
                push_finding(
                    violations,
                    event,
                    line,
                    FindingCode::RevokeWrongEpoch,
                    numbers(
                        "epoch ".to_owned(),
                        epoch,
                        " does not match active epoch ",
                        active.epoch,
                    ),
                );
            }
            owner_matches && epoch_matches
        },
    };
    assert(finding::contents(violations@) =~= before + revoke_findings(
        old(state)@,
        *event,
        line as nat,
        owner@,
        epoch,
    ));
    if accepted {
        state.active = None;
    }
}

/// Checks a protected action.
#[allow(clippy::too_many_arguments)]
pub fn apply_action(
    state: &ResourceState,
    event: &Event,
    line: usize,
    owner: &str,
    epoch: u64,
    operation: &str,
    grace_ms: u64,
    violations: &mut Vec<Finding>,
)
    ensures
        finding::contents(final(violations)@) == finding::contents(old(violations)@)
            + action_findings(
            state@,
            *event,
            line as nat,
            owner@,
            epoch,
            operation@,
            grace_ms,
        ),
{
    let ghost before = finding::contents(violations@);
    match &state.active {
        None => {
            push_finding(
                violations,
                event,
                line,
                FindingCode::ActionWithoutLease,
                operation_head(operation, " has no active lease"),
            );
        },
        Some(active) => {
            if !same_text(owner, active.owner.as_str()) {
                push_finding(
                    violations,
                    event,
                    line,
                    FindingCode::ActionWrongOwner,
                    owners(
                        operation_head(operation, " owner "),
                        owner,
                        active.owner.as_str(),
                    ),
                );
            }
            if epoch < active.epoch {
                push_finding(
                    violations,
                    event,
                    line,
                    FindingCode::ActionStaleEpoch,
                    numbers(
                        operation_head(operation, " epoch "),
                        epoch,
                        " is stale; active epoch is ",
                        active.epoch,
                    ),
                );
            } else if epoch > active.epoch {
                push_finding(
                    violations,
                    event,
                    line,
                    FindingCode::ActionFutureEpoch,
                    numbers(
                        operation_head(operation, " epoch "),
                        epoch,
                        " is ahead of active epoch ",
                        active.epoch,
                    ),
                );
            }
            if event.at_ms > active.until_ms.saturating_add(grace_ms) {
                push_finding(
                    violations,
                    event,
                    line,
                    FindingCode::ActionAfterExpiry,
                    overdue(
                        operation_head(operation, " at "),
                        event.at_ms,
                        active.until_ms,
                        grace_ms,
                    ),
                );
            }
        },
    }
    assert(finding::contents(violations@) =~= before + action_findings(
        state@,
        *event,
        line as nat,
        owner@,
        epoch,
        operation@,
        grace_ms,
    ));
}

/// Checks an event against the state of its resource and brings that state up to date.
pub fn apply_event(
    state: &mut ResourceState,
    event: &Event,
    line: usize,
    grace_ms: u64,
    violations: &mut Vec<Finding>,
)
    ensures
        final(state)@ == next_state(old(state)@, *event, grace_ms),
        finding::contents(final(violations)@) == finding::contents(old(violations)@)
            + event_findings(old(state)@, *event, line as nat, grace_ms),
{
    match &event.kind {
        EventKind::Grant { owner, epoch, lease_until_ms } => {
            apply_grant(
                state,
                event,
                line,
                owner.as_str(),
                *epoch,
                *lease_until_ms,
                violations,
            );
        },
        EventKind::Renew { owner, epoch, lease_until_ms } => {
            apply_renew(
                state,
                event,
                line,
                owner.as_str(),
                *epoch,
                *lease_until_ms,
                grace_ms,
                violations,
            );
        },
        EventKind::Revoke { owner, epoch } => {
            apply_revoke(state, event, line, owner.as_str(), *epoch, violations);
        },
        EventKind::Action { owner, epoch, operation } => {
            apply_action(
                state,
                event,
                line,
                owner.as_str(),
                *epoch,
                operation.as_str(),
                grace_ms,
                violations,
            );
        },
    }
}

} // verus!
