//! The audit of a whole stream.

use vstd::prelude::*;

use crate::auditor::Auditor;
use crate::error::AuditError;
use crate::event::Event;
use crate::finding::Report;
use crate::history::Record;
use crate::lines::line_end;
use crate::{error, history, lines, text};

verus! {

/// Whether `decode` may turn `text` into `decoded`.
pub open spec fn decodes<D: Fn(&str) -> Result<Event, serde_json::Error>>(
    decode: D,
    text: Seq<char>,
    decoded: Result<Event, serde_json::Error>,
) -> bool {
    exists|s: &str| s@ == text && #[trigger] call_ensures(decode, (s,), decoded)
}

/// Whether `line` is text that should hold an event: UTF-8, and more than white space.
pub open spec fn holds_event(line: Seq<u8>) -> bool {
    match lines::line_text(line) {
        Some(text) => !text::blank(text),
        None => false,
    }
}

/// Whether `records` are the events of `stream`, each with its line number: every line is UTF-8, a
/// blank line holds none, and any other line holds the one that `decode` makes of it.
pub open spec fn transcript<D: Fn(&str) -> Result<Event, serde_json::Error>>(
    decode: D,
    stream: Seq<Seq<u8>>,
    records: Seq<Record>,
) -> bool
    decreases stream.len(),
{
    if stream.len() == 0 {
        records.len() == 0
    } else if holds_event(stream.last()) {
        &&& records.len() > 0
        &&& records.last().line == stream.len()
        &&& decodes(decode, lines::line_text(stream.last())->0, Ok(records.last().event))
        &&& transcript(decode, stream.drop_last(), records.drop_last())
    } else {
        &&& lines::line_text(stream.last()) is Some
        &&& transcript(decode, stream.drop_last(), records)
    }
}

/// Whether `stream` can be followed up to its line number `n`, counted from 1.
pub open spec fn reaches<D: Fn(&str) -> Result<Event, serde_json::Error>>(
    decode: D,
    stream: Seq<Seq<u8>>,
    n: int,
) -> bool {
    &&& 1 <= n <= stream.len()
    &&& exists|records: Seq<Record>| #[trigger] transcript(decode, stream.take(n - 1), records)
}

/// Whether `result` is the result of auditing `stream`.
///
/// A stream whose lines are all UTF-8 and all decode gets the report on its events. Otherwise the
/// first line at fault decides: one that is not UTF-8 is an I/O error, and one that does not decode
/// is reported with its number and the decoder's error.
pub open spec fn audited<D: Fn(&str) -> Result<Event, serde_json::Error>>(
    decode: D,
    stream: Seq<Seq<u8>>,
    grace_ms: u64,
    result: Result<Report, AuditError>,
) -> bool {
    match result {
        Ok(report) => exists|records: Seq<Record>| #[trigger]
            transcript(decode, stream, records) && report@ == history::audit_report(
                records,
                grace_ms,
            ),
        Err(AuditError::InvalidJson { line, source }) => {
            &&& reaches(decode, stream, line as int)
            &&& holds_event(stream[line - 1])
            &&& decodes(decode, lines::line_text(stream[line - 1])->0, Err(source))
        },
        Err(AuditError::Io(error)) => {
            &&& error == error::not_utf8_error()
            &&& exists|n: int| #[trigger]
                reaches(decode, stream, n) && lines::line_text(stream[n - 1]) is None
        },
    }
}

/// Audits newline-delimited JSON lease events in input order.
///
/// `decode` turns the text of a line into an event. Empty lines are ignored. `grace_ms` extends
/// only the time allowed for renewals and actions; it never relaxes owner or epoch matching.
///
/// # Errors
///
/// Returns [`AuditError::Io`] when a line is not UTF-8 and [`AuditError::InvalidJson`] when a
/// non-empty line is not a complete, valid event.
pub fn audit<D: Fn(&str) -> Result<Event, serde_json::Error>>(
    input: &[u8],
    grace_ms: u64,
    decode: D,
) -> (result: Result<Report, AuditError>)
    requires
        forall|s: &str| call_requires(decode, (s,)),
    ensures
        audited(decode, lines::lines(input@), grace_ms, result),
{
    let ghost stream = lines::lines(input@);
    let mut auditor = Auditor::new(grace_ms);
    let mut start: usize = 0;
    proof {
        assert(stream.take(0) =~= Seq::empty());
        assert(input@.skip(0) =~= input@);
        assert(stream.skip(0) =~= stream);
    }
    while start < input.len()
        invariant
            forall|s: &str| call_requires(decode, (s,)),
            stream == lines::lines(input@),
            start <= input@.len(),
            auditor.well_formed(),
            auditor.grace() == grace_ms,
            auditor.line_count() <= start,
            auditor.records().len() <= auditor.line_count() <= stream.len(),
            stream.skip(auditor.line_count() as int) == lines::lines(input@.skip(start as int)),
            transcript(decode, stream.take(auditor.line_count() as int), auditor.records()),
        decreases input@.len() - start,
    {
        let ghost n = auditor.line_count() as int;
        let ghost done = stream.take(n);
        let end = line_end(input, start);
        let line = vstd::slice::slice_subrange(input, start, end);
        proof {
            let rest = stream.skip(n);
            assert(rest == seq![line@] + lines::lines(input@.skip(end as int)));
            assert(rest[0] == line@);
            assert(stream[n] == line@);
            assert(stream.take(n + 1).last() == line@);
            assert(stream.take(n + 1).drop_last() =~= done);
            assert(stream.skip(n + 1) =~= lines::lines(input@.skip(end as int))) by {
                assert(stream.skip(n + 1) =~= rest.skip(1));
            }
            assert(reaches(decode, stream, n + 1));
        }
        match auditor.read_line(line) {
            Err(error) => {
                return Err(error);
            },
            Ok(None) => {},
            Ok(Some(text)) => {
                let ghost records = auditor.records();
                let decoded = decode(text);
                assert(decodes(decode, text@, decoded));
                match auditor.accept(decoded) {
                    Err(error) => {
                        return Err(error);
                    },
                    Ok(()) => {
                        assert(auditor.records().drop_last() =~= records);
                    },
                }
            },
        }
        start = end;
    }
    proof {
        assert(input@.skip(start as int) =~= Seq::empty());
        assert(stream.take(auditor.line_count() as int) =~= stream);
    }
    Ok(auditor.finish())
}

} // verus!
