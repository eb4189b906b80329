//! Laws of the checks: what each event is reported for, word by word, and what it makes of the
//! lease.

use vstd::prelude::*;

use crate::event::{Event, EventKind};
use crate::finding::{FindingCode, FindingModel};
use crate::laws::lease;
use crate::order::Stamp;
use crate::rules::StateModel;
use crate::{order, rules, text};

verus! {

/// Whether every finding of a list satisfies `p`.
#[verifier::opaque]
spec fn every(found: Seq<FindingModel>, p: spec_fn(FindingModel) -> bool) -> bool {
    forall|k: int| 0 <= k < found.len() ==> p(#[trigger] found[k])
}

/// What holds of every finding goes through concatenations and conditional findings.
proof fn lemma_every(p: spec_fn(FindingModel) -> bool)
    ensures
        forall|a: Seq<FindingModel>, b: Seq<FindingModel>|
            every(a, p) && every(b, p) ==> #[trigger] every(a + b, p),
        forall|broken: bool, f: FindingModel|
            (broken ==> p(f)) ==> #[trigger] every(rules::when(broken, f), p),
        forall|f: FindingModel| p(f) ==> #[trigger] every(seq![f], p),
        every(Seq::empty(), p),
{
    reveal(every);
}

/// What is reported goes through concatenations and conditional findings.
proof fn lemma_reports(code: FindingCode)
    ensures
        forall|broken: bool, f: FindingModel| #[trigger]
            lease::reports(rules::when(broken, f), code) <==> broken && f.code == code,
        forall|a: Seq<FindingModel>, b: Seq<FindingModel>| #[trigger]
            lease::reports(a + b, code) <==> lease::reports(a, code) || lease::reports(b, code),
        !lease::reports(Seq::empty(), code),
{
    assert forall|broken: bool, f: FindingModel| #[trigger]
        lease::reports(rules::when(broken, f), code) <==> broken && f.code == code by {
        lease::lemma_reports_when(broken, f, code);
    }
    assert forall|a: Seq<FindingModel>, b: Seq<FindingModel>| #[trigger]
        lease::reports(a + b, code) <==> lease::reports(a, code) || lease::reports(b, code) by {
        lease::lemma_reports_concat(a, b, code);
    }
}

/// An event out of order is reported for its sequence number, for its time, or for both, and for
/// nothing else; the first event of a stream is reported for neither. Each finding names the event
/// and both numbers.
pub proof fn law_order_findings(previous: Option<Stamp>, event: Event, line: nat)
    ensures
        ({
            let found = order::order_findings(previous, event, line);
            &&& forall|k: int|
                0 <= k < found.len() ==> {
                    let f = #[trigger] found[k];
                    &&& f.line == line
                    &&& f.seq == event.seq
                    &&& f.resource == event.resource@
                    &&& previous is Some
                    &&& match f.code {
                        FindingCode::SequenceNotIncreasing => {
                            &&& event.seq <= previous->0.seq
                            &&& f.message == "sequence "@ + text::decimal_text(event.seq as nat)
                                + " is not greater than previous sequence "@ + text::decimal_text(
                                previous->0.seq as nat,
                            )
                        },
                        FindingCode::TimeWentBackwards => {
                            &&& event.at_ms < previous->0.at_ms
                            &&& f.message == "timestamp "@ + text::decimal_text(event.at_ms as nat)
                                + " is earlier than previous timestamp "@ + text::decimal_text(
                                previous->0.at_ms as nat,
                            )
                        },
                        _ => false,
                    }
                }
            &&& previous is Some && event.seq <= previous->0.seq ==> exists|k: int|
                0 <= k < found.len() && (#[trigger] found[k]).code
                    == FindingCode::SequenceNotIncreasing
            &&& previous is Some && event.at_ms < previous->0.at_ms ==> exists|k: int|
                0 <= k < found.len() && (#[trigger] found[k]).code
                    == FindingCode::TimeWentBackwards
            &&& found.len() == (if previous is Some && event.seq <= previous->0.seq {
                1int
            } else {
                0
            }) + (if previous is Some && event.at_ms < previous->0.at_ms {
                1int
            } else {
                0
            })
        }),
{
    let found = order::order_findings(previous, event, line);
    let p = |f: FindingModel|
        {
            &&& f.line == line
            &&& f.seq == event.seq
            &&& f.resource == event.resource@
            &&& previous is Some
            &&& match f.code {
                FindingCode::SequenceNotIncreasing => {
                    &&& event.seq <= previous->0.seq
                    &&& f.message == "sequence "@ + text::decimal_text(event.seq as nat)
                        + " is not greater than previous sequence "@ + text::decimal_text(
                        previous->0.seq as nat,
                    )
                },
                FindingCode::TimeWentBackwards => {
                    &&& event.at_ms < previous->0.at_ms
                    &&& f.message == "timestamp "@ + text::decimal_text(event.at_ms as nat)
                        + " is earlier than previous timestamp "@ + text::decimal_text(
                        previous->0.at_ms as nat,
                    )
                },
                _ => false,
            }
        };
    lemma_every(p);
    assert(every(found, p));
    assert(forall|k: int| 0 <= k < found.len() ==> p(#[trigger] found[k])) by {
        reveal(every);
    }
    lemma_reports(FindingCode::SequenceNotIncreasing);
    lemma_reports(FindingCode::TimeWentBackwards);
    assert(lease::reports(found, FindingCode::SequenceNotIncreasing) <==> previous is Some
        && event.seq <= previous->0.seq);
    assert(lease::reports(found, FindingCode::TimeWentBackwards) <==> previous is Some
        && event.at_ms < previous->0.at_ms);
}

/// A grant is reported if its epoch is not above the fence, and if its deadline is not in the
/// future, and for nothing else. Each finding names the event and both numbers.
pub proof fn law_grant_findings(
    state: StateModel,
    event: Event,
    line: nat,
    epoch: u64,
    lease_until_ms: u64,
)
    ensures
        ({
            let found = rules::grant_findings(state, event, line, epoch, lease_until_ms);
            &&& forall|k: int|
                0 <= k < found.len() ==> {
                    let f = #[trigger] found[k];
                    &&& f.line == line
                    &&& f.seq == event.seq
                    &&& f.resource == event.resource@
                    &&& match f.code {
                        FindingCode::EpochNotIncreasing => {
                            &&& (state.highest_epoch is Some && epoch <= state.highest_epoch->0)
                            &&& f.message == "grant epoch "@
                                + text::decimal_text(epoch as nat)
                                + " is not greater than highest epoch "@
                                + text::decimal_text(state.highest_epoch->0 as nat)
                        },
                        FindingCode::GrantAlreadyExpired => {
                            &&& lease_until_ms <= event.at_ms
                            &&& f.message == "grant deadline "@
                                + text::decimal_text(lease_until_ms as nat)
                                + " is not later than event time "@
                                + text::decimal_text(event.at_ms as nat)
                        },
                        _ => false,
                    }
                }
            &&& (state.highest_epoch is Some && epoch <= state.highest_epoch->0) ==> exists|k: int|
                0 <= k < found.len() && (#[trigger] found[k]).code
                    == FindingCode::EpochNotIncreasing
            &&& lease_until_ms <= event.at_ms ==> exists|k: int|
                0 <= k < found.len() && (#[trigger] found[k]).code
                    == FindingCode::GrantAlreadyExpired
            &&& found.len() ==
                (if (state.highest_epoch is Some && epoch <= state.highest_epoch->0) {
                    1int
                } else {
                    0int
                })
                + (if lease_until_ms <= event.at_ms { 1int } else { 0int })
        }),
{
    let found = rules::grant_findings(state, event, line, epoch, lease_until_ms);
    let p = |f: FindingModel| {
        &&& f.line == line
        &&& f.seq == event.seq
        &&& f.resource == event.resource@
        &&& match f.code {
            FindingCode::EpochNotIncreasing => {
                &&& (state.highest_epoch is Some && epoch <= state.highest_epoch->0)
                &&& f.message == "grant epoch "@
                    + text::decimal_text(epoch as nat)
                    + " is not greater than highest epoch "@
                    + text::decimal_text(state.highest_epoch->0 as nat)
            },
            FindingCode::GrantAlreadyExpired => {
                &&& lease_until_ms <= event.at_ms
                &&& f.message == "grant deadline "@
                    + text::decimal_text(lease_until_ms as nat)
                    + " is not later than event time "@
                    + text::decimal_text(event.at_ms as nat)
            },
            _ => false,
        }
    };
    lemma_every(p);
    assert(every(found, p));
    assert(forall|k: int| 0 <= k < found.len() ==> p(#[trigger] found[k])) by {
        reveal(every);
    }
    assert((state.highest_epoch is Some && epoch <= state.highest_epoch->0) ==> lease::reports(
        found,
        FindingCode::EpochNotIncreasing,
    )) by {
        lemma_reports(FindingCode::EpochNotIncreasing);
    }
    assert(lease_until_ms <= event.at_ms ==> lease::reports(
        found,
        FindingCode::GrantAlreadyExpired,
    )) by {
        lemma_reports(FindingCode::GrantAlreadyExpired);
    }
}

/// A renewal without a lease in force is reported for that alone. Any other renewal is reported
/// once for each of these that holds, and for nothing else: another owner, another epoch, later
/// than the deadline plus the grace, a deadline that is not extended, a deadline not in the
/// future.
pub proof fn law_renewal_findings(
    state: StateModel,
    event: Event,
    line: nat,
    owner: Seq<char>,
    epoch: u64,
    lease_until_ms: u64,
    grace_ms: u64,
)
    ensures
        ({
            let found = rules::renew_findings(
                state,
                event,
                line,
                owner,
                epoch,
                lease_until_ms,
                grace_ms,
            );
            &&& forall|k: int|
                0 <= k < found.len() ==> {
                    let f = #[trigger] found[k];
                    &&& f.line == line
                    &&& f.seq == event.seq
                    &&& f.resource == event.resource@
                    &&& match state.active {
                        None => {
                            &&& f.code == FindingCode::RenewWithoutLease
                            &&& f.message == "renewal has no active lease"@
                        },
                        Some(active) => match f.code {
                            FindingCode::RenewWrongOwner => {
                                &&& owner != active.owner
                                &&& f.message == "owner "@
                                    + text::debug_text(owner)
                                    + " does not match active owner "@
                                    + text::debug_text(active.owner)
                            },
                            FindingCode::RenewWrongEpoch => {
                                &&& epoch != active.epoch
                                &&& f.message == "epoch "@
                                    + text::decimal_text(epoch as nat)
                                    + " does not match active epoch "@
                                    + text::decimal_text(active.epoch as nat)
                            },
                            FindingCode::RenewAfterExpiry => {
                                &&& event.at_ms > active.until_ms + grace_ms
                                &&& f.message == "renewal at "@
                                    + text::decimal_text(event.at_ms as nat)
                                    + " is later than lease deadline "@
                                    + text::decimal_text(active.until_ms as nat)
                                    + " plus "@
                                    + text::decimal_text(grace_ms as nat)
                                    + " ms grace"@
                            },
                            FindingCode::RenewDidNotExtend => {
                                &&& lease_until_ms <= active.until_ms
                                &&& f.message == "renewal deadline "@
                                    + text::decimal_text(lease_until_ms as nat)
                                    + " does not extend active deadline "@
                                    + text::decimal_text(active.until_ms as nat)
                            },
                            FindingCode::RenewDeadlineNotFuture => {
                                &&& lease_until_ms <= event.at_ms
                                &&& f.message == "renewal deadline "@
                                    + text::decimal_text(lease_until_ms as nat)
                                    + " is not later than event time "@
                                    + text::decimal_text(event.at_ms as nat)
                            },
                            _ => false,
                        },
                    }
                }
            &&& state.active is None ==> found.len() == 1
            &&& state.active is Some && (owner != state.active->0.owner) ==> exists|k: int|
                0 <= k < found.len() && (#[trigger] found[k]).code
                    == FindingCode::RenewWrongOwner
            &&& state.active is Some && (epoch != state.active->0.epoch) ==> exists|k: int|
                0 <= k < found.len() && (#[trigger] found[k]).code
                    == FindingCode::RenewWrongEpoch
            &&& state.active is Some && (event.at_ms > state.active->0.until_ms + grace_ms)
                ==> exists|k: int|
                0 <= k < found.len() && (#[trigger] found[k]).code
                    == FindingCode::RenewAfterExpiry
            &&& state.active is Some && (lease_until_ms <= state.active->0.until_ms)
                ==> exists|k: int|
                0 <= k < found.len() && (#[trigger] found[k]).code
                    == FindingCode::RenewDidNotExtend
            &&& state.active is Some && (lease_until_ms <= event.at_ms) ==> exists|k: int|
                0 <= k < found.len() && (#[trigger] found[k]).code
                    == FindingCode::RenewDeadlineNotFuture
            &&& state.active is Some ==> found.len() ==
                (if owner != state.active->0.owner { 1int } else { 0int })
                + (if epoch != state.active->0.epoch { 1int } else { 0int })
                + (if event.at_ms > state.active->0.until_ms + grace_ms { 1int } else { 0int })
                + (if lease_until_ms <= state.active->0.until_ms { 1int } else { 0int })
                + (if lease_until_ms <= event.at_ms { 1int } else { 0int })
        }),
{
    let found = rules::renew_findings(state, event, line, owner, epoch, lease_until_ms, grace_ms);
    let p = |f: FindingModel| {
        &&& f.line == line
        &&& f.seq == event.seq
        &&& f.resource == event.resource@
        &&& match state.active {
            None => {
                &&& f.code == FindingCode::RenewWithoutLease
                &&& f.message == "renewal has no active lease"@
            },
            Some(active) => match f.code {
                FindingCode::RenewWrongOwner => {
                    &&& owner != active.owner
                    &&& f.message == "owner "@
                        + text::debug_text(owner)
                        + " does not match active owner "@
                        + text::debug_text(active.owner)
                },
                FindingCode::RenewWrongEpoch => {
                    &&& epoch != active.epoch
                    &&& f.message == "epoch "@
                        + text::decimal_text(epoch as nat)
                        + " does not match active epoch "@
                        + text::decimal_text(active.epoch as nat)
                },
                FindingCode::RenewAfterExpiry => {
                    &&& event.at_ms > active.until_ms + grace_ms
                    &&& f.message == "renewal at "@
                        + text::decimal_text(event.at_ms as nat)
                        + " is later than lease deadline "@
                        + text::decimal_text(active.until_ms as nat)
                        + " plus "@
                        + text::decimal_text(grace_ms as nat)
                        + " ms grace"@
                },
                FindingCode::RenewDidNotExtend => {
                    &&& lease_until_ms <= active.until_ms
                    &&& f.message == "renewal deadline "@
                        + text::decimal_text(lease_until_ms as nat)
                        + " does not extend active deadline "@
                        + text::decimal_text(active.until_ms as nat)
                },
                FindingCode::RenewDeadlineNotFuture => {
                    &&& lease_until_ms <= event.at_ms
                    &&& f.message == "renewal deadline "@
                        + text::decimal_text(lease_until_ms as nat)
                        + " is not later than event time "@
                        + text::decimal_text(event.at_ms as nat)
                },
                _ => false,
            },
        }
    };
    lemma_every(p);
    assert(every(found, p));
    assert(forall|k: int| 0 <= k < found.len() ==> p(#[trigger] found[k])) by {
        reveal(every);
    }
    assert(state.active is Some && (owner != state.active->0.owner) ==> lease::reports(
        found,
        FindingCode::RenewWrongOwner,
    )) by {
        lemma_reports(FindingCode::RenewWrongOwner);
    }
    assert(state.active is Some && (epoch != state.active->0.epoch) ==> lease::reports(
        found,
        FindingCode::RenewWrongEpoch,
    )) by {
        lemma_reports(FindingCode::RenewWrongEpoch);
    }
    assert(state.active is Some && (event.at_ms > state.active->0.until_ms + grace_ms)
        ==> lease::reports(
        found,
        FindingCode::RenewAfterExpiry,
    )) by {
        lemma_reports(FindingCode::RenewAfterExpiry);
    }
    assert(state.active is Some && (lease_until_ms <= state.active->0.until_ms) ==> lease::reports(
        found,
        FindingCode::RenewDidNotExtend,
    )) by {
        lemma_reports(FindingCode::RenewDidNotExtend);
    }
    assert(state.active is Some && (lease_until_ms <= event.at_ms) ==> lease::reports(
        found,
        FindingCode::RenewDeadlineNotFuture,
    )) by {
        lemma_reports(FindingCode::RenewDeadlineNotFuture);
    }
}

/// A revocation without a lease in force is reported for that alone. Any other revocation is
/// reported if it names another owner, and if it names another epoch, and for nothing else.
pub proof fn law_revocation_findings(
    state: StateModel,
    event: Event,
    line: nat,
    owner: Seq<char>,
    epoch: u64,
)
    ensures
        ({
            let found = rules::revoke_findings(state, event, line, owner, epoch);
            &&& forall|k: int|
                0 <= k < found.len() ==> {
                    let f = #[trigger] found[k];
                    &&& f.line == line
                    &&& f.seq == event.seq
                    &&& f.resource == event.resource@
                    &&& match state.active {
                        None => {
                            &&& f.code == FindingCode::RevokeWithoutLease
                            &&& f.message == "revocation has no active lease"@
                        },
                        Some(active) => match f.code {
                            FindingCode::RevokeWrongOwner => {
                                &&& owner != active.owner
                                &&& f.message == "owner "@
                                    + text::debug_text(owner)
                                    + " does not match active owner "@
                                    + text::debug_text(active.owner)
                            },
                            FindingCode::RevokeWrongEpoch => {
                                &&& epoch != active.epoch
                                &&& f.message == "epoch "@
                                    + text::decimal_text(epoch as nat)
                                    + " does not match active epoch "@
                                    + text::decimal_text(active.epoch as nat)
                            },
                            _ => false,
                        },
                    }
                }
            &&& state.active is None ==> found.len() == 1
            &&& state.active is Some && (owner != state.active->0.owner) ==> exists|k: int|
                0 <= k < found.len() && (#[trigger] found[k]).code
                    == FindingCode::RevokeWrongOwner
            &&& state.active is Some && (epoch != state.active->0.epoch) ==> exists|k: int|
                0 <= k < found.len() && (#[trigger] found[k]).code
                    == FindingCode::RevokeWrongEpoch
            &&& state.active is Some ==> found.len() ==
                (if owner != state.active->0.owner { 1int } else { 0int })
                + (if epoch != state.active->0.epoch { 1int } else { 0int })
        }),
{
    let found = rules::revoke_findings(state, event, line, owner, epoch);
    let p = |f: FindingModel| {
        &&& f.line == line
        &&& f.seq == event.seq
        &&& f.resource == event.resource@
        &&& match state.active {
            None => {
                &&& f.code == FindingCode::RevokeWithoutLease
                &&& f.message == "revocation has no active lease"@
            },
            Some(active) => match f.code {
                FindingCode::RevokeWrongOwner => {
                    &&& owner != active.owner
                    &&& f.message == "owner "@
                        + text::debug_text(owner)
                        + " does not match active owner "@
                        + text::debug_text(active.owner)
                },
                FindingCode::RevokeWrongEpoch => {
                    &&& epoch != active.epoch
                    &&& f.message == "epoch "@
                        + text::decimal_text(epoch as nat)
                        + " does not match active epoch "@
                        + text::decimal_text(active.epoch as nat)
                },
                _ => false,
            },
        }
    };
    lemma_every(p);
    assert(every(found, p));
    assert(forall|k: int| 0 <= k < found.len() ==> p(#[trigger] found[k])) by {
        reveal(every);
    }
    assert(state.active is Some && (owner != state.active->0.owner) ==> lease::reports(
        found,
        FindingCode::RevokeWrongOwner,
    )) by {
        lemma_reports(FindingCode::RevokeWrongOwner);
    }
    assert(state.active is Some && (epoch != state.active->0.epoch) ==> lease::reports(
        found,
        FindingCode::RevokeWrongEpoch,
    )) by {
        lemma_reports(FindingCode::RevokeWrongEpoch);
    }
}

/// An action without a lease in force is reported for that alone. Any other action is reported once
/// for each of these that holds, and for nothing else: another owner, an earlier epoch, a later
/// epoch, later than the deadline plus the grace.
pub proof fn law_action_findings(
    state: StateModel,
    event: Event,
    line: nat,
    owner: Seq<char>,
    epoch: u64,
    operation: Seq<char>,
    grace_ms: u64,
)
    ensures
        ({
            let found = rules::action_findings(
                state,
                event,
                line,
                owner,
                epoch,
                operation,
                grace_ms,
            );
            &&& forall|k: int|
                0 <= k < found.len() ==> {
                    let f = #[trigger] found[k];
                    &&& f.line == line
                    &&& f.seq == event.seq
                    &&& f.resource == event.resource@
                    &&& match state.active {
                        None => {
                            &&& f.code == FindingCode::ActionWithoutLease
                            &&& f.message == "operation "@
                                + text::debug_text(operation)
                                + " has no active lease"@
                        },
                        Some(active) => match f.code {
                            FindingCode::ActionWrongOwner => {
                                &&& owner != active.owner
                                &&& f.message == "operation "@
                                    + text::debug_text(operation)
                                    + " owner "@
                                    + text::debug_text(owner)
                                    + " does not match active owner "@
                                    + text::debug_text(active.owner)
                            },
                            FindingCode::ActionStaleEpoch => {
                                &&& epoch < active.epoch
                                &&& f.message == "operation "@
                                    + text::debug_text(operation)
                                    + " epoch "@
                                    + text::decimal_text(epoch as nat)
                                    + " is stale; active epoch is "@
                                    + text::decimal_text(active.epoch as nat)
                            },
                            FindingCode::ActionFutureEpoch => {
                                &&& epoch > active.epoch
                                &&& f.message == "operation "@
                                    + text::debug_text(operation)
                                    + " epoch "@
                                    + text::decimal_text(epoch as nat)
                                    + " is ahead of active epoch "@
                                    + text::decimal_text(active.epoch as nat)
                            },
                            FindingCode::ActionAfterExpiry => {
                                &&& event.at_ms > active.until_ms + grace_ms
                                &&& f.message == "operation "@
                                    + text::debug_text(operation)
                                    + " at "@
                                    + text::decimal_text(event.at_ms as nat)
                                    + " is later than lease deadline "@
                                    + text::decimal_text(active.until_ms as nat)
                                    + " plus "@
                                    + text::decimal_text(grace_ms as nat)
                                    + " ms grace"@
                            },
                            _ => false,
                        },
                    }
                }
            &&& state.active is None ==> found.len() == 1
            &&& state.active is Some && (owner != state.active->0.owner) ==> exists|k: int|
                0 <= k < found.len() && (#[trigger] found[k]).code
                    == FindingCode::ActionWrongOwner
            &&& state.active is Some && (epoch < state.active->0.epoch) ==> exists|k: int|
                0 <= k < found.len() && (#[trigger] found[k]).code
                    == FindingCode::ActionStaleEpoch
            &&& state.active is Some && (epoch > state.active->0.epoch) ==> exists|k: int|
                0 <= k < found.len() && (#[trigger] found[k]).code
                    == FindingCode::ActionFutureEpoch
            &&& state.active is Some && (event.at_ms > state.active->0.until_ms + grace_ms)
                ==> exists|k: int|
                0 <= k < found.len() && (#[trigger] found[k]).code
                    == FindingCode::ActionAfterExpiry
            &&& state.active is Some ==> found.len() ==
                (if owner != state.active->0.owner { 1int } else { 0int })
                + (if epoch < state.active->0.epoch { 1int } else { 0int })
                + (if epoch > state.active->0.epoch { 1int } else { 0int })
                + (if event.at_ms > state.active->0.until_ms + grace_ms { 1int } else { 0int })
        }),
{
    let found = rules::action_findings(state, event, line, owner, epoch, operation, grace_ms);
    let p = |f: FindingModel| {
        &&& f.line == line
        &&& f.seq == event.seq
        &&& f.resource == event.resource@
        &&& match state.active {
            None => {
                &&& f.code == FindingCode::ActionWithoutLease
                &&& f.message == "operation "@
                    + text::debug_text(operation)
                    + " has no active lease"@
            },
            Some(active) => match f.code {
                FindingCode::ActionWrongOwner => {
                    &&& owner != active.owner
                    &&& f.message == "operation "@
                        + text::debug_text(operation)
                        + " owner "@
                        + text::debug_text(owner)
                        + " does not match active owner "@
                        + text::debug_text(active.owner)
                },
                FindingCode::ActionStaleEpoch => {
                    &&& epoch < active.epoch
                    &&& f.message == "operation "@
                        + text::debug_text(operation)
                        + " epoch "@
                        + text::decimal_text(epoch as nat)
                        + " is stale; active epoch is "@
                        + text::decimal_text(active.epoch as nat)
                },
                FindingCode::ActionFutureEpoch => {
                    &&& epoch > active.epoch
                    &&& f.message == "operation "@
                        + text::debug_text(operation)
                        + " epoch "@
                        + text::decimal_text(epoch as nat)
                        + " is ahead of active epoch "@
                        + text::decimal_text(active.epoch as nat)
                },
                FindingCode::ActionAfterExpiry => {
                    &&& event.at_ms > active.until_ms + grace_ms
                    &&& f.message == "operation "@
                        + text::debug_text(operation)
                        + " at "@
                        + text::decimal_text(event.at_ms as nat)
                        + " is later than lease deadline "@
                        + text::decimal_text(active.until_ms as nat)
                        + " plus "@
                        + text::decimal_text(grace_ms as nat)
                        + " ms grace"@
                },
                _ => false,
            },
        }
    };
    lemma_every(p);
    assert(every(found, p));
    assert(forall|k: int| 0 <= k < found.len() ==> p(#[trigger] found[k])) by {
        reveal(every);
    }
    assert(state.active is Some && (owner != state.active->0.owner) ==> lease::reports(
        found,
        FindingCode::ActionWrongOwner,
    )) by {
        lemma_reports(FindingCode::ActionWrongOwner);
    }
    assert(state.active is Some && (epoch < state.active->0.epoch) ==> lease::reports(
        found,
        FindingCode::ActionStaleEpoch,
    )) by {
        lemma_reports(FindingCode::ActionStaleEpoch);
    }
    assert(state.active is Some && (epoch > state.active->0.epoch) ==> lease::reports(
        found,
        FindingCode::ActionFutureEpoch,
    )) by {
        lemma_reports(FindingCode::ActionFutureEpoch);
    }
    assert(state.active is Some && (event.at_ms > state.active->0.until_ms + grace_ms)
        ==> lease::reports(
        found,
        FindingCode::ActionAfterExpiry,
    )) by {
        lemma_reports(FindingCode::ActionAfterExpiry);
    }
}

/// What a grant makes of a resource, whoever makes it: the fence moves to its epoch exactly when
/// the epoch is above the fence, and the lease changes hands exactly when the deadline lies in the
/// future as well.
pub proof fn law_grant_state(
    state: StateModel,
    event: Event,
    owner: Seq<char>,
    epoch: u64,
    lease_until_ms: u64,
)
    ensures
        ({
            let after = rules::granted(state, event, owner, epoch, lease_until_ms);
            if state.highest_epoch is Some && epoch <= state.highest_epoch->0 {
                &&& after.highest_epoch == state.highest_epoch
                &&& after.active == state.active
            } else if lease_until_ms <= event.at_ms {
                &&& after.highest_epoch == Some(epoch)
                &&& after.active == state.active
            } else {
                &&& after.highest_epoch == Some(epoch)
                &&& after.active is Some
                &&& after.active->0.owner == owner
                &&& after.active->0.epoch == epoch
                &&& after.active->0.until_ms == lease_until_ms
            }
        }),
{
}

/// What a renewal makes of a resource: the deadline becomes the one it asks for exactly when there
/// is a lease, held by its owner under its epoch, and the renewal comes no later than the deadline
/// plus the grace and asks for a later deadline that lies in the future. Nothing else ever changes.
pub proof fn law_renewal_state(
    state: StateModel,
    event: Event,
    owner: Seq<char>,
    epoch: u64,
    lease_until_ms: u64,
    grace_ms: u64,
)
    ensures
        ({
            let after = rules::renewed(state, event, owner, epoch, lease_until_ms, grace_ms);
            &&& after.highest_epoch == state.highest_epoch
            &&& match state.active {
                None => after.active is None,
                Some(active) => {
                    &&& after.active is Some
                    &&& after.active->0.owner == active.owner
                    &&& after.active->0.epoch == active.epoch
                    &&& after.active->0.until_ms == if owner == active.owner && epoch
                        == active.epoch && event.at_ms <= active.until_ms + grace_ms
                        && lease_until_ms > active.until_ms && lease_until_ms > event.at_ms {
                        lease_until_ms
                    } else {
                        active.until_ms
                    }
                },
            }
        }),
{
}

/// What a revocation makes of a resource: the lease ends exactly when its owner and its epoch are
/// named, and nothing else ever changes.
pub proof fn law_revocation_state(state: StateModel, owner: Seq<char>, epoch: u64)
    ensures
        ({
            let after = rules::revoked(state, owner, epoch);
            &&& after.highest_epoch == state.highest_epoch
            &&& match state.active {
                None => after.active is None,
                Some(active) => if owner == active.owner && epoch == active.epoch {
                    after.active is None
                } else {
                    after.active == Some(active)
                },
            }
        }),
{
}

/// An event is checked as what it is: a grant as a grant, a renewal as a renewal, a revocation as a
/// revocation, an action as an action, each with the values that it carries.
pub proof fn law_event_goes_by_its_kind(
    state: StateModel,
    event: Event,
    line: nat,
    grace_ms: u64,
)
    ensures
        ({
            let found = rules::event_findings(state, event, line, grace_ms);
            let after = rules::next_state(state, event, grace_ms);
            match event.kind {
                EventKind::Grant { owner, epoch, lease_until_ms } => {
                    &&& found == rules::grant_findings(state, event, line, epoch, lease_until_ms)
                    &&& after == rules::granted(state, event, owner@, epoch, lease_until_ms)
                },
                EventKind::Renew { owner, epoch, lease_until_ms } => {
                    &&& found == rules::renew_findings(
                        state,
                        event,
                        line,
                        owner@,
                        epoch,
                        lease_until_ms,
                        grace_ms,
                    )
                    &&& after == rules::renewed(
                        state,
                        event,
                        owner@,
                        epoch,
                        lease_until_ms,
                        grace_ms,
                    )
                },
                EventKind::Revoke { owner, epoch } => {
                    &&& found == rules::revoke_findings(state, event, line, owner@, epoch)
                    &&& after == rules::revoked(state, owner@, epoch)
                },
                EventKind::Action { owner, epoch, operation } => {
                    &&& found == rules::action_findings(
                        state,
                        event,
                        line,
                        owner@,
                        epoch,
                        operation@,
                        grace_ms,
                    )
                    &&& after == state
                },
            }
        }),
{
}

} // verus!
