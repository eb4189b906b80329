//! Rule violations and the report that collects them.

use vstd::prelude::*;

use crate::event::Event;

verus! {

/// Stable machine-readable violation identifiers.
#[derive(Debug, Clone, Copy, PartialEq, Eq, Structural)]
pub enum FindingCode {
    SequenceNotIncreasing,
    TimeWentBackwards,
    EpochNotIncreasing,
    GrantAlreadyExpired,
    RenewWithoutLease,
    RenewWrongOwner,
    RenewWrongEpoch,
    RenewAfterExpiry,
    RenewDidNotExtend,
    RenewDeadlineNotFuture,
    RevokeWithoutLease,
    RevokeWrongOwner,
    RevokeWrongEpoch,
    ActionWithoutLease,
    ActionWrongOwner,
    ActionStaleEpoch,
    ActionFutureEpoch,
    ActionAfterExpiry,
}

/// The identifier under which a violation is reported.
pub open spec fn code_name(code: FindingCode) -> Seq<char> {
    match code {
        FindingCode::SequenceNotIncreasing => "SEQUENCE_NOT_INCREASING"@,
        FindingCode::TimeWentBackwards => "TIME_WENT_BACKWARDS"@,
        FindingCode::EpochNotIncreasing => "EPOCH_NOT_INCREASING"@,
        FindingCode::GrantAlreadyExpired => "GRANT_ALREADY_EXPIRED"@,
        FindingCode::RenewWithoutLease => "RENEW_WITHOUT_LEASE"@,
        FindingCode::RenewWrongOwner => "RENEW_WRONG_OWNER"@,
        FindingCode::RenewWrongEpoch => "RENEW_WRONG_EPOCH"@,
        FindingCode::RenewAfterExpiry => "RENEW_AFTER_EXPIRY"@,
        FindingCode::RenewDidNotExtend => "RENEW_DID_NOT_EXTEND"@,
        FindingCode::RenewDeadlineNotFuture => "RENEW_DEADLINE_NOT_FUTURE"@,
        FindingCode::RevokeWithoutLease => "REVOKE_WITHOUT_LEASE"@,
        FindingCode::RevokeWrongOwner => "REVOKE_WRONG_OWNER"@,
        FindingCode::RevokeWrongEpoch => "REVOKE_WRONG_EPOCH"@,
        FindingCode::ActionWithoutLease => "ACTION_WITHOUT_LEASE"@,
        FindingCode::ActionWrongOwner => "ACTION_WRONG_OWNER"@,
        FindingCode::ActionStaleEpoch => "ACTION_STALE_EPOCH"@,
        FindingCode::ActionFutureEpoch => "ACTION_FUTURE_EPOCH"@,
        FindingCode::ActionAfterExpiry => "ACTION_AFTER_EXPIRY"@,
    }
}

impl FindingCode {
    /// The identifier as it appears in reports.
    pub fn as_str(&self) -> (name: &'static str)
        ensures
            name@ == code_name(*self),
    {
        match self {
            FindingCode::SequenceNotIncreasing => "SEQUENCE_NOT_INCREASING",
            FindingCode::TimeWentBackwards => "TIME_WENT_BACKWARDS",
            FindingCode::EpochNotIncreasing => "EPOCH_NOT_INCREASING",
            FindingCode::GrantAlreadyExpired => "GRANT_ALREADY_EXPIRED",
            FindingCode::RenewWithoutLease => "RENEW_WITHOUT_LEASE",
            FindingCode::RenewWrongOwner => "RENEW_WRONG_OWNER",
            FindingCode::RenewWrongEpoch => "RENEW_WRONG_EPOCH",
            FindingCode::RenewAfterExpiry => "RENEW_AFTER_EXPIRY",
            FindingCode::RenewDidNotExtend => "RENEW_DID_NOT_EXTEND",
            FindingCode::RenewDeadlineNotFuture => "RENEW_DEADLINE_NOT_FUTURE",
            FindingCode::RevokeWithoutLease => "REVOKE_WITHOUT_LEASE",
            FindingCode::RevokeWrongOwner => "REVOKE_WRONG_OWNER",
            FindingCode::RevokeWrongEpoch => "REVOKE_WRONG_EPOCH",
            FindingCode::ActionWithoutLease => "ACTION_WITHOUT_LEASE",
            FindingCode::ActionWrongOwner => "ACTION_WRONG_OWNER",
            FindingCode::ActionStaleEpoch => "ACTION_STALE_EPOCH",
            FindingCode::ActionFutureEpoch => "ACTION_FUTURE_EPOCH",
            FindingCode::ActionAfterExpiry => "ACTION_AFTER_EXPIRY",
        }
    }
}

/// One rule violation tied to its source line and event identity.
#[derive(Debug, Clone, PartialEq, Eq)]
pub struct Finding {
    pub code: FindingCode,
    pub line: usize,
    pub seq: u64,
    pub resource: String,
    pub message: String,
}

/// What a [`Finding`] says, with its texts as character sequences.
pub struct FindingModel {
    pub code: FindingCode,
    pub line: nat,
    pub seq: u64,
    pub resource: Seq<char>,
    pub message: Seq<char>,
}

impl View for Finding {
    type V = FindingModel;

    open spec fn view(&self) -> FindingModel {
        FindingModel {
            code: self.code,
            line: self.line as nat,
            seq: self.seq,
            resource: self.resource@,
            message: self.message@,
        }
    }
}

/// The violation `code` found in `event`, which stood on `line`.
pub open spec fn finding(
    code: FindingCode,
    event: Event,
    line: nat,
    message: Seq<char>,
) -> FindingModel {
    FindingModel { code, line, seq: event.seq, resource: event.resource@, message }
}

/// The sequence of what a list of findings says.
pub open spec fn contents(findings: Seq<Finding>) -> Seq<FindingModel> {
    findings.map_values(|f: Finding| f@)
}

/// Appends a violation found in `event` to the list.
pub fn push_finding(
    findings: &mut Vec<Finding>,
    event: &Event,
    line: usize,
    code: FindingCode,
    message: String,
)
    ensures
        contents(final(findings)@) == contents(old(findings)@).push(
            finding(code, *event, line as nat, message@),
        ),
{
    findings.push(
        Finding { code, line, seq: event.seq, resource: event.resource.clone(), message },
    );
    assert(contents(findings@) =~= contents(old(findings)@).push(
        finding(code, *event, line as nat, message@),
    ));
}

/// Complete deterministic audit result.
#[derive(Debug, Clone, PartialEq, Eq)]
pub struct Report {
    pub events_read: usize,
    pub resources_seen: usize,
    pub violations: Vec<Finding>,
}

/// What a [`Report`] says.
#[verifier::ext_equal]
pub struct ReportModel {
    pub events_read: nat,
    pub resources_seen: nat,
    pub violations: Seq<FindingModel>,
}

impl View for Report {
    type V = ReportModel;

    open spec fn view(&self) -> ReportModel {
        ReportModel {
            events_read: self.events_read as nat,
            resources_seen: self.resources_seen as nat,
            violations: contents(self.violations@),
        }
    }
}

/// Whether a report holds no violation.
pub open spec fn clean(report: ReportModel) -> bool {
    report.violations.len() == 0
}

impl Report {
    /// Returns true when the stream contains no lease safety violations.
    #[must_use]
    pub fn is_clean(&self) -> (yes: bool)
        ensures
            yes == clean(self@),
            yes <==> self.violations@.len() == 0,
    {
        self.violations.len() == 0
    }

    /// The process exit code for a stream that was read to its end: 0 when it is clean, 2 when it
    /// holds at least one violation.
    #[must_use]
    pub fn exit_code(&self) -> (code: u8)
        ensures
            code == if clean(self@) { 0u8 } else { 2u8 },
            code == if self.violations@.len() == 0 { 0u8 } else { 2u8 },
    {
        if self.is_clean() {
            0
        } else {
            2
        }
    }
}

} // verus!
