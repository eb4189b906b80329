//! Laws of the wording: numbers, error messages and the report as a person reads it.

use vstd::prelude::*;

use crate::finding::ReportModel;
use crate::{error, finding, human, text};

verus! {

/// The decimal notation of a number reads back as that number. It is made of the digits 0 to 9 and
/// has no leading zero, so it is the only such notation.
pub proof fn law_decimal_reads_back(n: nat)
    ensures
        ({
            let shown = text::decimal_text(n);
            &&& shown.fold_left(0int, |sum: int, c: char| 10 * sum + (c as int - '0' as int)) == n
            &&& shown.len() > 0
            &&& forall|i: int| 0 <= i < shown.len() ==> '0' <= #[trigger] shown[i] <= '9'
            &&& shown[0] == '0' ==> shown.len() == 1
        }),
    decreases n,
{
    let shown = text::decimal_text(n);
    let read = |sum: int, c: char| 10 * sum + (c as int - '0' as int);
    if n < 10 {
        assert(shown.drop_last() =~= Seq::empty());
        assert(shown.drop_last().fold_left(0int, read) == 0);
        assert(shown.fold_left(0int, read) == read(0, shown[0]));
    } else {
        let front = text::decimal_text(n / 10);
        law_decimal_reads_back(n / 10);
        assert(shown.drop_last() =~= front);
        assert(shown.fold_left(0int, read) == read(front.fold_left(0int, read), shown.last()));
        assert(shown[0] == front[0]);
        if front[0] == '0' {
            assert(front.len() == 1);
            assert(front.drop_last() =~= Seq::empty());
            assert(front.drop_last().fold_left(0int, read) == 0);
            assert(front.last() == front[0]);
            assert(front.fold_left(0int, read) == read(0, front[0]));
        }
    }
}

/// Different numbers are written differently.
pub proof fn law_decimals_differ(a: nat, b: nat)
    requires
        text::decimal_text(a) == text::decimal_text(b),
    ensures
        a == b,
{
    law_decimal_reads_back(a);
    law_decimal_reads_back(b);
}

/// A text is blank exactly when each of its characters is one of the 25 that Unicode calls white
/// space.
pub proof fn law_blank_text(shown: Seq<char>)
    ensures
        text::blank(shown) <==> forall|i: int|
            0 <= i < shown.len() ==> {
                let c = #[trigger] shown[i] as int;
                ||| 9 <= c <= 13
                ||| c == 32
                ||| c == 133
                ||| c == 160
                ||| c == 5760
                ||| 8192 <= c <= 8202
                ||| c == 8232
                ||| c == 8233
                ||| c == 8239
                ||| c == 8287
                ||| c == 12288
            },
{
    if text::blank(shown) {
        assert forall|i: int| 0 <= i < shown.len() implies text::is_white_space(
            #[trigger] shown[i],
        ) by {}
    }
}

/// The report for a person has one line more than there are violations. The first line says how
/// many violations there are, or that the stream is clean, and how much was read. Line by line,
/// the others show the violations in their order: none is left out, however many there are.
pub proof fn law_report_shows_every_violation(report: ReportModel)
    ensures
        ({
            let shown = human::report_text(report);
            &&& shown.len() == report.violations.len() + 1
            &&& shown[0] == (if report.violations.len() == 0 {
                "clean: "@
            } else {
                text::decimal_text(report.violations.len()) + " violations: "@
            }) + (text::decimal_text(report.events_read) + " events across "@
                + text::decimal_text(report.resources_seen) + " resources"@)
            &&& forall|k: int|
                #![trigger report.violations[k]]
                #![trigger shown[k + 1]]
                0 <= k < report.violations.len() ==> {
                    let f = report.violations[k];
                    shown[k + 1] == "line "@ + text::decimal_text(f.line) + " seq "@
                        + text::decimal_text(f.seq as nat) + " resource "@ + text::debug_text(
                        f.resource,
                    ) + " ["@ + finding::code_name(f.code) + "] "@ + f.message
                }
        }),
{
}

/// What a user is told of a failed audit: that the stream could not be read and why, or the number
/// of the line that does not decode and why.
pub proof fn law_errors_say_what_failed(line: nat, cause: Seq<char>)
    ensures
        error::unreadable_text(cause) == "could not read event stream: "@ + cause,
        error::invalid_json_text(line, cause) == "invalid JSON on non-empty line "@
            + text::decimal_text(line) + ": "@ + cause,
        error::not_utf8_error() == error::invalid_data_error(
            "stream did not contain valid UTF-8"@,
        ),
{
}

} // verus!
