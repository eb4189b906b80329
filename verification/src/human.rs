//! The report as a person reads it.

use vstd::prelude::*;
use vstd::string::*;

use crate::finding::{Finding, FindingModel, Report, ReportModel};
use crate::text::{decimal, quoted};
use crate::{finding, text};

verus! {

/// How much was read: the end of the first line of a report.
pub open spec fn extent_text(report: ReportModel) -> Seq<char> {
    text::decimal_text(report.events_read) + " events across "@ + text::decimal_text(
        report.resources_seen,
    ) + " resources"@
}

/// The first line of a report.
pub open spec fn summary_text(report: ReportModel) -> Seq<char> {
    if finding::clean(report) {
        "clean: "@ + extent_text(report)
    } else {
        text::decimal_text(report.violations.len()) + " violations: "@ + extent_text(report)
    }
}

/// The line of a report that shows one violation.
pub open spec fn finding_text(finding: FindingModel) -> Seq<char> {
    "line "@ + text::decimal_text(finding.line) + " seq "@ + text::decimal_text(finding.seq as nat)
        + " resource "@ + text::debug_text(finding.resource) + " ["@ + finding::code_name(
        finding.code,
    ) + "] "@ + finding.message
}

/// The lines of a report: the summary, then the violations in the order in which they were found.
pub open spec fn report_text(report: ReportModel) -> Seq<Seq<char>> {
    seq![summary_text(report)] + report.violations.map_values(
        |finding: FindingModel| finding_text(finding),
    )
}

/// Builds [`extent_text`].
fn extent(report: &Report) -> (line: String)
    ensures
        line@ == extent_text(report@),
{
    let mut line = decimal(report.events_read as u64);
    line.append(" events across ");
    line.append(decimal(report.resources_seen as u64).as_str());
    line.append(" resources");
    line
}

/// Builds [`summary_text`].
fn summary(report: &Report) -> (line: String)
    ensures
        line@ == summary_text(report@),
{
    if report.is_clean() {
        let mut line = "clean: ".to_owned();
        line.append(extent(report).as_str());
        line
    } else {
        let mut line = decimal(report.violations.len() as u64);
        line.append(" violations: ");
        line.append(extent(report).as_str());
        line
    }
}

/// Builds [`finding_text`].
fn show_finding(finding: &Finding) -> (line: String)
    ensures
        line@ == finding_text(finding@),
{
    let mut line = "line ".to_owned();
    line.append(decimal(finding.line as u64).as_str());
    line.append(" seq ");
    line.append(decimal(finding.seq).as_str());
    line.append(" resource ");
    line.append(quoted(finding.resource.as_str()).as_str());
    line.append(" [");
    line.append(finding.code.as_str());
    line.append("] ");
    line.append(finding.message.as_str());
    line
}

/// The lines that show a report to a person.
pub fn human_report(report: &Report) -> (shown: Vec<String>)
    ensures
        shown@.map_values(|line: String| line@) == report_text(report@),
        shown@.len() == report.violations@.len() + 1,
        forall|k: int|
            #![trigger report.violations@[k]]
            0 <= k < report.violations@.len() ==> {
                let f = report.violations@[k];
                shown@[k + 1]@ == "line "@ + text::decimal_text(f.line as nat) + " seq "@
                    + text::decimal_text(f.seq as nat) + " resource "@ + text::debug_text(
                    f.resource@,
                ) + " ["@ + finding::code_name(f.code) + "] "@ + f.message@
            },
{
    let mut shown: Vec<String> = Vec::new();
    shown.push(summary(report));
    for i in 0..report.violations.len()
        invariant
            shown@.len() == i + 1,
            shown@[0]@ == summary_text(report@),
            forall|j: int|
                0 <= j < i ==> (#[trigger] shown@[j + 1])@ == finding_text(
                    report@.violations[j],
                ),
    {
        shown.push(show_finding(&report.violations[i]));
        assert(shown@[i + 1]@ == finding_text(report@.violations[i as int]));
    }
    proof {
        let lines = shown@.map_values(|line: String| line@);
        assert forall|j: int| 0 <= j < lines.len() implies lines[j] == report_text(report@)[j] by {
            if j > 0 {
                assert(shown@[(j - 1) + 1]@ == finding_text(report@.violations[j - 1]));
            }
        }
        assert(lines =~= report_text(report@));
        assert forall|k: int| #![trigger report.violations@[k]] 0 <= k < report.violations@.len()
            implies shown@[k + 1]@ == finding_text(report.violations@[k]@) by {
            assert(report@.violations[k] == report.violations@[k]@);
        }
    }
    shown
}

} // verus!
