//! Laws of the input: lines, decoding, and what the result of an audit depends on.

use vstd::prelude::*;

use crate::error::AuditError;
use crate::event::Event;
use crate::finding::Report;
use crate::history::Record;
use crate::laws::stream;
use crate::{audit, error, history, lines, text};

verus! {

/// The lines of a stream are the whole stream, cut after every newline and nowhere else.
pub proof fn law_lines_cut_after_newlines(bytes: Seq<u8>)
    ensures
        lines::lines(bytes).flatten() == bytes,
        forall|i: int|
            0 <= i < lines::lines(bytes).len() ==> (#[trigger] lines::lines(bytes)[i]).len() > 0,
        forall|i: int, j: int|
            0 <= i < lines::lines(bytes).len() && 0 <= j < lines::lines(bytes)[i].len() - 1 ==> (
            #[trigger] lines::lines(bytes)[i][j]) != lines::NEWLINE,
        forall|i: int|
            0 <= i < lines::lines(bytes).len() - 1 ==> (#[trigger] lines::lines(bytes)[i]).last()
                == lines::NEWLINE,
    decreases bytes.len(),
{
    let all = lines::lines(bytes);
    bytes.index_of_first_ensures(lines::NEWLINE);
    if bytes.len() == 0 {
        assert(all.flatten() =~= bytes);
    } else if bytes.contains(lines::NEWLINE) {
        let n = bytes.index_of_first(lines::NEWLINE)->0;
        let first = bytes.take(n + 1);
        let rest = lines::lines(bytes.skip(n + 1));
        law_lines_cut_after_newlines(bytes.skip(n + 1));
        assert(all == seq![first] + rest);
        assert(all.first() == first);
        assert(all.drop_first() =~= rest);
        assert(all.flatten() == first + rest.flatten());
        assert(first + bytes.skip(n + 1) =~= bytes);
        assert forall|i: int| 0 <= i < all.len() implies all[i] == (if i == 0 {
            first
        } else {
            rest[i - 1]
        }) by {}
    } else {
        assert(all == seq![bytes]);
        assert(all.first() == bytes);
        assert(all.drop_first() =~= Seq::empty());
        assert(all.drop_first().flatten() =~= Seq::empty());
        assert(all.flatten() =~= bytes);
    }
}

/// The records of a stream follow its lines: line numbers count lines from 1, increase, and are
/// those of the lines that hold an event.
pub proof fn law_records_follow_lines<D: Fn(&str) -> Result<Event, serde_json::Error>>(
    decode: D,
    stream: Seq<Seq<u8>>,
    records: Seq<Record>,
)
    requires
        audit::transcript(decode, stream, records),
    ensures
        forall|i: int|
            0 <= i < records.len() ==> 1 <= (#[trigger] records[i]).line <= stream.len()
                && audit::holds_event(stream[records[i].line - 1]),
        forall|i: int, j: int|
            0 <= i < j < records.len() ==> (#[trigger] records[i]).line < (
            #[trigger] records[j]).line,
        records.len() == stream.filter(|line: Seq<u8>| audit::holds_event(line)).len(),
    decreases stream.len(),
{
    reveal(Seq::filter);
    if stream.len() > 0 {
        let shorter = stream.drop_last();
        if audit::holds_event(stream.last()) {
            law_records_follow_lines(decode, shorter, records.drop_last());
            assert forall|i: int| 0 <= i < records.len() implies 1 <= (#[trigger] records[i]).line
                <= stream.len() && audit::holds_event(stream[records[i].line - 1]) by {
                if i < records.len() - 1 {
                    assert(records.drop_last()[i] == records[i]);
                }
            }
            assert forall|i: int, j: int| 0 <= i < j < records.len() implies (
            #[trigger] records[i]).line < (#[trigger] records[j]).line by {
                assert(records.drop_last()[i] == records[i]);
                if j < records.len() - 1 {
                    assert(records.drop_last()[j] == records[j]);
                }
            }
        } else {
            law_records_follow_lines(decode, shorter, records);
        }
    }
}

/// Whether `decode` always makes the same of the same text.
pub open spec fn consistent<D: Fn(&str) -> Result<Event, serde_json::Error>>(decode: D) -> bool {
    forall|
        text: Seq<char>,
        a: Result<Event, serde_json::Error>,
        b: Result<Event, serde_json::Error>,
    |
        #[trigger] audit::decodes(decode, text, a) && #[trigger] audit::decodes(decode, text, b)
            ==> a == b
}

/// A stream has one transcript at most.
proof fn lemma_one_transcript<D: Fn(&str) -> Result<Event, serde_json::Error>>(
    decode: D,
    stream: Seq<Seq<u8>>,
    a: Seq<Record>,
    b: Seq<Record>,
)
    requires
        consistent(decode),
        audit::transcript(decode, stream, a),
        audit::transcript(decode, stream, b),
    ensures
        a == b,
    decreases stream.len(),
{
    if stream.len() == 0 {
        assert(a =~= b);
    } else if audit::holds_event(stream.last()) {
        lemma_one_transcript(decode, stream.drop_last(), a.drop_last(), b.drop_last());
        assert(a =~= a.drop_last().push(a.last()));
        assert(b =~= b.drop_last().push(b.last()));
        assert(a.last() == b.last());
    } else {
        lemma_one_transcript(decode, stream.drop_last(), a, b);
    }
}

/// Whether line number `n` of a stream is at fault: it is not UTF-8, or it may fail to decode.
spec fn at_fault<D: Fn(&str) -> Result<Event, serde_json::Error>>(
    decode: D,
    stream: Seq<Seq<u8>>,
    n: int,
) -> bool {
    ||| lines::line_text(stream[n - 1]) is None
    ||| exists|source: serde_json::Error|
        audit::holds_event(stream[n - 1]) && #[trigger] audit::decodes(
            decode,
            lines::line_text(stream[n - 1])->0,
            Err(source),
        )
}

/// A stream with a line at fault has no transcript.
proof fn lemma_fault_stops_transcript<D: Fn(&str) -> Result<Event, serde_json::Error>>(
    decode: D,
    stream: Seq<Seq<u8>>,
    n: int,
    records: Seq<Record>,
)
    requires
        consistent(decode),
        1 <= n <= stream.len(),
        at_fault(decode, stream, n),
    ensures
        !audit::transcript(decode, stream, records),
    decreases stream.len(),
{
    if n < stream.len() {
        let shorter = stream.drop_last();
        assert(shorter[n - 1] == stream[n - 1]);
        lemma_fault_stops_transcript(decode, shorter, n, records);
        lemma_fault_stops_transcript(decode, shorter, n, records.drop_last());
    } else {
        assert(stream.last() == stream[n - 1]);
    }
}

/// Of two lines at fault only the first is reached.
proof fn lemma_first_fault<D: Fn(&str) -> Result<Event, serde_json::Error>>(
    decode: D,
    stream: Seq<Seq<u8>>,
    n: int,
    m: int,
)
    requires
        consistent(decode),
        1 <= n <= stream.len(),
        at_fault(decode, stream, n),
        audit::reaches(decode, stream, m),
    ensures
        m <= n,
{
    if n < m {
        let records = choose|records: Seq<Record>| #[trigger]
            audit::transcript(decode, stream.take(m - 1), records);
        assert(stream.take(m - 1)[n - 1] == stream[n - 1]);
        lemma_fault_stops_transcript(decode, stream.take(m - 1), n, records);
    }
}

/// An audit is deterministic: with a decoder that always makes the same of the same text, a stream
/// has one result. Reports say the same, a failure is the same error on the same line, and success and
/// the two kinds of failure exclude each other.
pub proof fn law_audit_is_deterministic<D: Fn(&str) -> Result<Event, serde_json::Error>>(
    decode: D,
    stream: Seq<Seq<u8>>,
    grace_ms: u64,
    a: Result<Report, AuditError>,
    b: Result<Report, AuditError>,
)
    requires
        consistent(decode),
        audit::audited(decode, stream, grace_ms, a),
        audit::audited(decode, stream, grace_ms, b),
    ensures
        match (a, b) {
            (Ok(x), Ok(y)) => x@ == y@,
            (
                Err(AuditError::InvalidJson { line: m, source: s }),
                Err(AuditError::InvalidJson { line: n, source: t }),
            ) => m == n && s == t,
            (Err(AuditError::Io(s)), Err(AuditError::Io(t))) => s == t,
            _ => false,
        },
{
    lemma_result_parts(decode, stream, grace_ms, a);
    lemma_result_parts(decode, stream, grace_ms, b);
    match (a, b) {
        (Ok(x), Ok(y)) => {
            let p = choose|records: Seq<Record>| #[trigger]
                audit::transcript(decode, stream, records) && x@
                    == history::audit_report(records, grace_ms);
            let q = choose|records: Seq<Record>| #[trigger]
                audit::transcript(decode, stream, records) && y@
                    == history::audit_report(records, grace_ms);
            lemma_one_transcript(decode, stream, p, q);
        },
        (Ok(_), Err(_)) => {
            let p = choose|records: Seq<Record>| #[trigger]
                audit::transcript(decode, stream, records);
            lemma_fault_stops_transcript(decode, stream, fault_line(decode, stream, b), p);
        },
        (Err(_), Ok(_)) => {
            let p = choose|records: Seq<Record>| #[trigger]
                audit::transcript(decode, stream, records);
            lemma_fault_stops_transcript(decode, stream, fault_line(decode, stream, a), p);
        },
        (Err(_), Err(_)) => {
            let m = fault_line(decode, stream, a);
            let n = fault_line(decode, stream, b);
            lemma_first_fault(decode, stream, m, n);
            lemma_first_fault(decode, stream, n, m);
        },
    }
}

/// Success is owed: a stream whose lines are all UTF-8 and whose events all decode gets the report
/// on those events.
pub proof fn law_success_is_owed<D: Fn(&str) -> Result<Event, serde_json::Error>>(
    decode: D,
    stream: Seq<Seq<u8>>,
    records: Seq<Record>,
    grace_ms: u64,
    result: Result<Report, AuditError>,
)
    requires
        consistent(decode),
        audit::transcript(decode, stream, records),
        audit::audited(decode, stream, grace_ms, result),
    ensures
        result is Ok,
        result->Ok_0@ == history::audit_report(records, grace_ms),
{
    lemma_result_parts(decode, stream, grace_ms, result);
    match result {
        Ok(report) => {
            let found = choose|found: Seq<Record>| #[trigger]
                audit::transcript(decode, stream, found) && report@ == history::audit_report(
                    found,
                    grace_ms,
                );
            lemma_one_transcript(decode, stream, records, found);
        },
        Err(_) => {
            lemma_fault_stops_transcript(
                decode,
                stream,
                fault_line(decode, stream, result),
                records,
            );
        },
    }
}

/// The first line at fault decides: if it is not UTF-8 the audit fails as unreadable, and if it
/// does not decode the audit fails with its number, which counts blank lines too, and with the
/// decoder's error.
pub proof fn law_first_fault_decides<D: Fn(&str) -> Result<Event, serde_json::Error>>(
    decode: D,
    stream: Seq<Seq<u8>>,
    n: int,
    source: serde_json::Error,
    grace_ms: u64,
    result: Result<Report, AuditError>,
)
    requires
        consistent(decode),
        audit::reaches(decode, stream, n),
        audit::audited(decode, stream, grace_ms, result),
    ensures
        lines::line_text(stream[n - 1]) is None ==> (result matches Err(AuditError::Io(e)) && e
            == error::not_utf8_error()),
        audit::holds_event(stream[n - 1]) && audit::decodes(
            decode,
            lines::line_text(stream[n - 1])->0,
            Err(source),
        ) ==> (result matches Err(AuditError::InvalidJson { line, source: s }) && line == n && s
            == source),
{
    lemma_result_parts(decode, stream, grace_ms, result);
    if at_fault(decode, stream, n) {
        match result {
            Ok(report) => {
                let found = choose|found: Seq<Record>| #[trigger]
                    audit::transcript(decode, stream, found);
                lemma_fault_stops_transcript(decode, stream, n, found);
            },
            Err(_) => {
                let m = fault_line(decode, stream, result);
                lemma_first_fault(decode, stream, n, m);
                lemma_first_fault(decode, stream, m, n);
            },
        }
    }
}

/// The line that a failed audit stopped at.
spec fn fault_line<D: Fn(&str) -> Result<Event, serde_json::Error>>(
    decode: D,
    stream: Seq<Seq<u8>>,
    result: Result<Report, AuditError>,
) -> int {
    match result {
        Err(AuditError::InvalidJson { line, .. }) => line as int,
        _ => choose|n: int| #[trigger]
            audit::reaches(decode, stream, n) && lines::line_text(stream[n - 1]) is None,
    }
}

/// A failed audit stopped at a line at fault that it could reach.
proof fn lemma_result_parts<D: Fn(&str) -> Result<Event, serde_json::Error>>(
    decode: D,
    stream: Seq<Seq<u8>>,
    grace_ms: u64,
    result: Result<Report, AuditError>,
)
    requires
        audit::audited(decode, stream, grace_ms, result),
    ensures
        result is Err ==> {
            let n = fault_line(decode, stream, result);
            audit::reaches(decode, stream, n) && at_fault(decode, stream, n)
        },
{
}

/// The records with the line numbers that they have once a line is put in after the first `n`
/// lines.
pub open spec fn moved_down(records: Seq<Record>, n: nat) -> Seq<Record> {
    records.map_values(
        |record: Record|
            Record {
                line: if record.line <= n {
                    record.line
                } else {
                    record.line + 1
                },
                event: record.event,
            },
    )
}

/// Blank lines are ignored: a blank line put in anywhere leaves the events of a stream as they are,
/// and only moves the line numbers behind it.
pub proof fn law_blank_lines_are_ignored<D: Fn(&str) -> Result<Event, serde_json::Error>>(
    decode: D,
    before: Seq<Seq<u8>>,
    line: Seq<u8>,
    after: Seq<Seq<u8>>,
    records: Seq<Record>,
)
    requires
        lines::line_text(line) is Some,
        text::blank(lines::line_text(line)->0),
    ensures
        audit::transcript(decode, before + after, records) <==> audit::transcript(
            decode,
            before + seq![line] + after,
            moved_down(records, before.len()),
        ),
        stream::same_events(records, moved_down(records, before.len())),
    decreases after.len(),
{
    let moved = moved_down(records, before.len());
    let short = before + after;
    let long = before + seq![line] + after;
    if after.len() == 0 {
        assert(short =~= before);
        assert(long.drop_last() =~= before);
        assert(long.last() == line);
        if audit::transcript(decode, before, records) {
            law_records_follow_lines(decode, before, records);
            assert(moved =~= records);
        }
        if audit::transcript(decode, before, moved) {
            law_records_follow_lines(decode, before, moved);
            assert forall|i: int| 0 <= i < records.len() implies moved[i] == records[i] by {}
            assert(moved =~= records);
        }
    } else {
        let rest = after.drop_last();
        assert(short.drop_last() =~= before + rest);
        assert(long.drop_last() =~= before + seq![line] + rest);
        assert(short.last() == after.last());
        assert(long.last() == after.last());
        if audit::holds_event(after.last()) {
            if records.len() > 0 {
                assert(moved.drop_last() =~= moved_down(records.drop_last(), before.len()));
                law_blank_lines_are_ignored(decode, before, line, rest, records.drop_last());
            }
        } else {
            law_blank_lines_are_ignored(decode, before, line, rest, records);
        }
    }
}

} // verus!
