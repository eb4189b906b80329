//! Laws of the report.

use vstd::prelude::*;

use crate::finding::{Finding, FindingCode, Report};
use crate::rules::ResourceState;
use crate::{finding, rules};

verus! {

/// No two kinds of violation share an identifier.
pub proof fn law_code_names_are_distinct(a: FindingCode, b: FindingCode)
    requires
        finding::code_name(a) == finding::code_name(b),
    ensures
        a == b,
{
    reveal_strlit("SEQUENCE_NOT_INCREASING");
    reveal_strlit("TIME_WENT_BACKWARDS");
    reveal_strlit("EPOCH_NOT_INCREASING");
    reveal_strlit("GRANT_ALREADY_EXPIRED");
    reveal_strlit("RENEW_WITHOUT_LEASE");
    reveal_strlit("RENEW_WRONG_OWNER");
    reveal_strlit("RENEW_WRONG_EPOCH");
    reveal_strlit("RENEW_AFTER_EXPIRY");
    reveal_strlit("RENEW_DID_NOT_EXTEND");
    reveal_strlit("RENEW_DEADLINE_NOT_FUTURE");
    reveal_strlit("REVOKE_WITHOUT_LEASE");
    reveal_strlit("REVOKE_WRONG_OWNER");
    reveal_strlit("REVOKE_WRONG_EPOCH");
    reveal_strlit("ACTION_WITHOUT_LEASE");
    reveal_strlit("ACTION_WRONG_OWNER");
    reveal_strlit("ACTION_STALE_EPOCH");
    reveal_strlit("ACTION_FUTURE_EPOCH");
    reveal_strlit("ACTION_AFTER_EXPIRY");
    let x = finding::code_name(a);
    let y = finding::code_name(b);
    // The length and two characters tell all the identifiers apart.
    assert(x.len() == y.len() && x[0] == y[0] && x[13] == y[13]);
}

/// A report says what its fields hold: both counts, and each violation field by field, in order.
pub proof fn law_report_says_what_it_holds(report: Report)
    ensures
        report@.events_read == report.events_read,
        report@.resources_seen == report.resources_seen,
        report@.violations.len() == report.violations@.len(),
        forall|k: int|
            #![trigger report@.violations[k]]
            #![trigger report.violations@[k]]
            0 <= k < report.violations@.len() ==> {
                let said = report@.violations[k];
                let held = report.violations@[k];
                &&& said.code == held.code
                &&& said.line == held.line
                &&& said.seq == held.seq
                &&& said.resource == held.resource@
                &&& said.message == held.message@
            },
        finding::clean(report@) <==> report.violations@.len() == 0,
{
}

/// A list of findings says what each of its findings holds.
pub proof fn law_contents_are_the_findings(findings: Seq<Finding>)
    ensures
        finding::contents(findings).len() == findings.len(),
        forall|k: int|
            #![trigger finding::contents(findings)[k]]
            0 <= k < findings.len() ==> {
                let said = finding::contents(findings)[k];
                let held = findings[k];
                &&& said.code == held.code
                &&& said.line == held.line
                &&& said.seq == held.seq
                &&& said.resource == held.resource@
                &&& said.message == held.message@
            },
{
}

/// A state says what its fields hold: the fence, and the lease in force if there is one.
pub proof fn law_state_says_what_it_holds(state: ResourceState)
    ensures
        state@.highest_epoch == state.highest_epoch,
        state@.active is Some <==> state.active is Some,
        state.active is Some ==> {
            &&& state@.active->0.owner == state.active->0.owner@
            &&& state@.active->0.epoch == state.active->0.epoch
            &&& state@.active->0.until_ms == state.active->0.until_ms
        },
        rules::fresh_state().highest_epoch is None,
        rules::fresh_state().active is None,
{
}

/// The identifier of a kind of violation is made of capital letters and underscores, with a letter
/// at both ends.
pub proof fn law_code_names_are_identifiers(code: FindingCode)
    ensures
        ({
            let name = finding::code_name(code);
            &&& name.len() > 0
            &&& 'A' <= name[0] <= 'Z'
            &&& 'A' <= name[name.len() - 1] <= 'Z'
            &&& forall|i: int|
                0 <= i < name.len() ==> 'A' <= #[trigger] name[i] <= 'Z' || name[i] == '_'
        }),
{
    reveal_strlit("SEQUENCE_NOT_INCREASING");
    reveal_strlit("TIME_WENT_BACKWARDS");
    reveal_strlit("EPOCH_NOT_INCREASING");
    reveal_strlit("GRANT_ALREADY_EXPIRED");
    reveal_strlit("RENEW_WITHOUT_LEASE");
    reveal_strlit("RENEW_WRONG_OWNER");
    reveal_strlit("RENEW_WRONG_EPOCH");
    reveal_strlit("RENEW_AFTER_EXPIRY");
    reveal_strlit("RENEW_DID_NOT_EXTEND");
    reveal_strlit("RENEW_DEADLINE_NOT_FUTURE");
    reveal_strlit("REVOKE_WITHOUT_LEASE");
    reveal_strlit("REVOKE_WRONG_OWNER");
    reveal_strlit("REVOKE_WRONG_EPOCH");
    reveal_strlit("ACTION_WITHOUT_LEASE");
    reveal_strlit("ACTION_WRONG_OWNER");
    reveal_strlit("ACTION_STALE_EPOCH");
    reveal_strlit("ACTION_FUTURE_EPOCH");
    reveal_strlit("ACTION_AFTER_EXPIRY");
}

} // verus!
