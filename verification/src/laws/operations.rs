//! Laws of the operations: what a caller may rely on, stated over the arguments and the result of a
//! call.

use vstd::prelude::*;

use crate::audit::audit;
use crate::auditor::Auditor;
use crate::error::{describe_invalid_json, describe_unreadable, AuditError};
use crate::event::Event;
use crate::finding::Report;
use crate::history::Record;
use crate::human::human_report;
use crate::laws::{input, outcome, report, source, wording};
use crate::lines::read_text;
use crate::text::{decimal, is_blank, same_text};
use crate::{finding, history, lines, text};

verus! {

/// A report is clean exactly when it holds no violation.
pub proof fn law_is_clean(report: &Report, yes: bool)
    requires
        call_ensures(Report::is_clean, (report,), yes),
    ensures
        yes <==> report.violations@.len() == 0,
{
}

/// The exit code is 0 for a report without violations and 2 for any other.
pub proof fn law_exit_code(report: &Report, code: u8)
    requires
        call_ensures(Report::exit_code, (report,), code),
    ensures
        report.violations@.len() == 0 ==> code == 0,
        report.violations@.len() > 0 ==> code == 2,
{
}

/// What a person is shown: a line that sums the report up, then one line for each violation, in
/// order, with its line, sequence number, resource, identifier and message.
pub proof fn law_human_report(report: &Report, shown: Vec<String>)
    requires
        call_ensures(human_report, (report,), shown),
    ensures
        shown@.len() == report.violations@.len() + 1,
        shown@[0]@ == (if report.violations@.len() == 0 {
            "clean: "@
        } else {
            text::decimal_text(report.violations@.len()) + " violations: "@
        }) + (text::decimal_text(report.events_read as nat) + " events across "@
            + text::decimal_text(report.resources_seen as nat) + " resources"@),
        forall|k: int|
            #![trigger report.violations@[k]]
            0 <= k < report.violations@.len() ==> {
                let f = report.violations@[k];
                shown@[k + 1]@ == "line "@ + text::decimal_text(f.line as nat) + " seq "@
                    + text::decimal_text(f.seq as nat) + " resource "@ + text::debug_text(
                    f.resource@,
                ) + " ["@ + finding::code_name(f.code) + "] "@ + f.message@
            },
{
    let texts = shown@.map_values(|line: String| line@);
    wording::law_report_shows_every_violation(report@);
    report::law_report_says_what_it_holds(*report);
    assert(texts[0] == shown@[0]@);
    assert forall|k: int| #![trigger report.violations@[k]] 0 <= k
        < report.violations@.len() implies {
        let f = report.violations@[k];
        shown@[k + 1]@ == "line "@ + text::decimal_text(f.line as nat) + " seq "@
            + text::decimal_text(f.seq as nat) + " resource "@ + text::debug_text(f.resource@)
            + " ["@ + finding::code_name(f.code) + "] "@ + f.message@
    } by {
        assert(texts[k + 1] == shown@[k + 1]@);
        let said = report@.violations[k];
    }
}

/// Written numbers read back.
pub proof fn law_decimal(n: u64, shown: String)
    requires
        call_ensures(decimal, (n,), shown),
    ensures
        shown@.fold_left(0int, |sum: int, c: char| 10 * sum + (c as int - '0' as int)) == n,
        forall|i: int| 0 <= i < shown@.len() ==> '0' <= #[trigger] shown@[i] <= '9',
        shown@[0] == '0' ==> shown@.len() == 1,
{
    wording::law_decimal_reads_back(n as nat);
}

/// Texts are compared character by character.
pub proof fn law_same_text(a: &str, b: &str, same: bool)
    requires
        call_ensures(same_text, (a, b), same),
    ensures
        same <==> a@ == b@,
{
}

/// A blank text has nothing but white space, and a text with anything else is not blank.
pub proof fn law_is_blank(shown: &str, yes: bool, i: int)
    requires
        call_ensures(is_blank, (shown,), yes),
        0 <= i < shown@.len(),
    ensures
        33 <= shown@[i] as int <= 126 ==> !yes,
        shown@.len() == 1 && (shown@[0] == ' ' || shown@[0] == '\t' || shown@[0] == '\r') ==> yes,
{
    wording::law_blank_text(shown@);
}

/// The text that is read from a line is the one that the content of the line encodes.
pub proof fn law_read_text(line: &[u8], shown: Option<&str>)
    requires
        call_ensures(read_text, (line,), shown),
    ensures
        match shown {
            Some(shown) => vstd::utf8::encode_utf8(shown@) == lines::content(line@),
            None => forall|t: Seq<char>| #[trigger]
                vstd::utf8::encode_utf8(t) != lines::content(line@),
        },
{
    match shown {
        Some(shown) => {
            source::law_line_text_is_what_the_line_encodes(line@, shown@);
        },
        None => {
            source::law_line_text_is_what_the_line_encodes(line@, Seq::empty());
        },
    }
}

/// What a user is told of a failure ends with its cause, and names the line where there is one.
pub proof fn law_descriptions(line: usize, cause: &str, unreadable: String, invalid: String)
    requires
        call_ensures(describe_unreadable, (cause,), unreadable),
        call_ensures(describe_invalid_json, (line, cause), invalid),
    ensures
        unreadable@ == "could not read event stream: "@ + cause@,
        invalid@ == "invalid JSON on non-empty line "@ + text::decimal_text(line as nat) + ": "@
            + cause@,
{
}

/// What an audit that is fed line by line reports in the end: the number of events accepted, the
/// number of resources that they name, and the findings of each of them in turn.
pub proof fn law_finish(auditor: Auditor, report: Report)
    requires
        call_ensures(Auditor::finish, (auditor,), report),
    ensures
        report.events_read == auditor.records().len(),
        report.resources_seen == auditor.records().map_values(
            |record: Record| record.event.resource@,
        ).to_set().len(),
        finding::contents(report.violations@) == Seq::new(
            auditor.records().len(),
            |i: int|
                history::record_findings(
                    auditor.records().take(i),
                    auditor.records()[i],
                    auditor.grace(),
                ),
        ).flatten(),
{
}

/// An audit that succeeds counts the lines of its input that hold an event, and the resources that
/// these events name, and reports the findings of each of them in turn.
pub proof fn law_audit_reports_the_input<D: Fn(&str) -> Result<Event, serde_json::Error>>(
    bytes: &[u8],
    grace_ms: u64,
    decode: D,
    report: Report,
)
    requires
        call_ensures(audit::<D>, (bytes, grace_ms, decode), Ok::<Report, AuditError>(report)),
    ensures
        report.events_read == lines::lines(bytes@).filter(
            |line: Seq<u8>| crate::audit::holds_event(line),
        ).len(),
        exists|records: Seq<Record>|
            {
                &&& #[trigger] crate::audit::transcript(decode, lines::lines(bytes@), records)
                &&& report.events_read == records.len()
                &&& report.resources_seen == records.map_values(
                    |record: Record| record.event.resource@,
                ).to_set().len()
                &&& finding::contents(report.violations@) == Seq::new(
                    records.len(),
                    |i: int| history::record_findings(records.take(i), records[i], grace_ms),
                ).flatten()
            },
{
    let stream = lines::lines(bytes@);
    let records = choose|records: Seq<Record>| #[trigger]
        crate::audit::transcript(decode, stream, records) && report@ == history::audit_report(
            records,
            grace_ms,
        );
    source::law_counts_are_those_of_the_stream(decode, stream, grace_ms, report);
    report::law_report_says_what_it_holds(report);
    outcome::law_report_holds_every_finding(records, grace_ms);
}

/// The verdict on a stream: with a decoder that always makes the same of the same text, an input
/// whose lines all decode gets the exit code 0 exactly when no rule is broken by any of its events,
/// each held against those before it, and 2 otherwise.
pub proof fn law_verdict<D: Fn(&str) -> Result<Event, serde_json::Error>>(
    bytes: &[u8],
    grace_ms: u64,
    decode: D,
    records: Seq<Record>,
    result: Result<Report, AuditError>,
    code: u8,
)
    requires
        input::consistent(decode),
        crate::audit::transcript(decode, lines::lines(bytes@), records),
        call_ensures(audit::<D>, (bytes, grace_ms, decode), result),
        result is Ok ==> call_ensures(Report::exit_code, (&result->Ok_0,), code),
    ensures
        result is Ok,
        code == 0 || code == 2,
        code == 0 <==> forall|i: int|
            #![trigger records[i]]
            0 <= i < records.len() ==> history::record_findings(
                records.take(i),
                records[i],
                grace_ms,
            ).len() == 0,
{
    input::law_success_is_owed(decode, lines::lines(bytes@), records, grace_ms, result);
    let report = result->Ok_0;
    report::law_report_says_what_it_holds(report);
    let violations = history::audit_report(records, grace_ms).violations;
    if violations.len() > 0 {
        outcome::law_every_violation_was_found(records, 0, grace_ms);
        let (i, m) = choose|i: int, m: int|
            #![trigger history::record_findings(records.take(i), records[i], grace_ms)[m]]
            0 <= i < records.len() && 0 <= m < history::record_findings(
                records.take(i),
                records[i],
                grace_ms,
            ).len() && violations[0] == history::record_findings(
                records.take(i),
                records[i],
                grace_ms,
            )[m];
        assert(history::record_findings(records.take(i), records[i], grace_ms).len() > 0);
    } else {
        assert forall|i: int| #![trigger records[i]] 0 <= i < records.len() implies
            history::record_findings(records.take(i), records[i], grace_ms).len() == 0 by {
            if history::record_findings(records.take(i), records[i], grace_ms).len() > 0 {
                outcome::law_every_finding_is_reported(records, i, 0, grace_ms);
            }
        }
    }
}

} // verus!
