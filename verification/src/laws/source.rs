//! Laws of the source: which events a stream of bytes holds, and what an audit of it returns.

use vstd::prelude::*;
use vstd::utf8::*;

use crate::error::AuditError;
use crate::event::Event;
use crate::finding::Report;
use crate::history::Record;
use crate::laws::{input, outcome, report};
use crate::{audit, error, history, lines, text};

verus! {

/// A line ends with a line feed, or with a carriage return and a line feed, and neither belongs to
/// its content. A carriage return anywhere else does.
pub proof fn law_line_ends_are_not_content(body: Seq<u8>)
    ensures
        lines::NEWLINE == 10,
        lines::CARRIAGE_RETURN == 13,
        lines::content(body + seq![13u8, 10u8]) == body,
        body.len() == 0 || body[body.len() - 1] != 13 ==> lines::content(body + seq![10u8])
            == body,
        body.len() == 0 || body[body.len() - 1] != 10 ==> lines::content(body) == body,
{
    assert(lines::content(body + seq![13u8, 10u8]) =~= body);
    if body.len() == 0 || body[body.len() - 1] != 13 {
        assert(lines::content(body + seq![10u8]) =~= body);
    }
}

/// The text of a line is the one whose UTF-8 encoding is the content of the line; a line has no
/// text exactly when its content encodes none.
pub proof fn law_line_text_is_what_the_line_encodes(line: Seq<u8>, shown: Seq<char>)
    ensures
        lines::line_text(line) == Some(shown) <==> encode_utf8(shown) == lines::content(line),
        lines::line_text(line) is None <==> forall|t: Seq<char>| #[trigger]
            encode_utf8(t) != lines::content(line),
{
    let body = lines::content(line);
    encode_utf8_decode_utf8(shown);
    encode_utf8_valid_utf8(shown);
    if valid_utf8(body) {
        decode_utf8_encode_utf8(body);
        assert(encode_utf8(decode_utf8(body)) == body);
    } else {
        assert forall|t: Seq<char>| #[trigger] encode_utf8(t) != body by {
            encode_utf8_valid_utf8(t);
        }
    }
}

/// A line holds an event exactly when it encodes a text and some character of that text is not
/// white space.
pub proof fn law_lines_that_hold_events(line: Seq<u8>)
    ensures
        audit::holds_event(line) <==> lines::line_text(line) is Some && exists|i: int|
            0 <= i < lines::line_text(line)->0.len() && !text::is_white_space(
                #[trigger] lines::line_text(line)->0[i],
            ),
{
}

/// The decoder is asked about the text of a line, and its answer is taken as it is.
pub proof fn law_decoding_is_the_decoder<D: Fn(&str) -> Result<Event, serde_json::Error>>(
    decode: D,
    shown: &str,
    decoded: Result<Event, serde_json::Error>,
)
    ensures
        call_ensures(decode, (shown,), decoded) ==> audit::decodes(decode, shown@, decoded),
        audit::decodes(decode, shown@, decoded) ==> exists|s: &str|
            s@ == shown@ && #[trigger] call_ensures(decode, (s,), decoded),
{
}

/// A decoder is consistent exactly when no two answers to the same text differ.
pub proof fn law_consistent_decoders<D: Fn(&str) -> Result<Event, serde_json::Error>>(decode: D)
    ensures
        input::consistent(decode) <==> forall|
            s: &str,
            t: &str,
            a: Result<Event, serde_json::Error>,
            b: Result<Event, serde_json::Error>,
        |
            s@ == t@ && #[trigger] call_ensures(decode, (s,), a) && #[trigger] call_ensures(
                decode,
                (t,),
                b,
            ) ==> a == b,
{
    if input::consistent(decode) {
        assert forall|
            s: &str,
            t: &str,
            a: Result<Event, serde_json::Error>,
            b: Result<Event, serde_json::Error>,
        |
            s@ == t@ && #[trigger] call_ensures(decode, (s,), a) && #[trigger] call_ensures(
                decode,
                (t,),
                b,
            ) implies a == b by {
            assert(audit::decodes(decode, s@, a));
            assert(audit::decodes(decode, s@, b));
        }
    }
}

/// The events of a stream, line by line: every line encodes a text; each line that holds an event
/// has its record and no other line has one; records come in the order of the lines, numbered from
/// 1 with blank lines counted; and each event is what the decoder made of the text of its line.
pub proof fn law_transcript_is_line_by_line<D: Fn(&str) -> Result<Event, serde_json::Error>>(
    decode: D,
    stream: Seq<Seq<u8>>,
    records: Seq<Record>,
)
    ensures
        audit::transcript(decode, stream, records) <==> {
            &&& forall|n: int|
                0 <= n < stream.len() ==> lines::line_text(#[trigger] stream[n]) is Some
            &&& forall|n: int|
                0 <= n < stream.len() && audit::holds_event(#[trigger] stream[n]) ==> exists|
                    i: int,
                |
                    0 <= i < records.len() && (#[trigger] records[i]).line == n + 1
            &&& forall|i: int, j: int|
                0 <= i < j < records.len() ==> (#[trigger] records[i]).line < (
                #[trigger] records[j]).line
            &&& forall|i: int|
                0 <= i < records.len() ==> {
                    &&& 1 <= (#[trigger] records[i]).line <= stream.len()
                    &&& audit::holds_event(stream[records[i].line - 1])
                    &&& audit::decodes(
                        decode,
                        lines::line_text(stream[records[i].line - 1])->0,
                        Ok(records[i].event),
                    )
                }
        },
    decreases stream.len(),
{
    if stream.len() == 0 {
        if records.len() > 0 {
            assert(!(1 <= records[0].line <= stream.len()));
        }
    } else {
        let shorter = stream.drop_last();
        let last = stream.len() - 1;
        assert forall|n: int| 0 <= n < last implies shorter[n] == stream[n] by {}
        if audit::holds_event(stream.last()) {
            let front = records.drop_last();
            law_transcript_is_line_by_line(decode, shorter, front);
            if audit::transcript(decode, stream, records) {
                lemma_followed_with_event(decode, stream, records);
            }
            if followed(decode, stream, records) {
                lemma_transcript_with_event(decode, stream, records);
            }
        } else {
            law_transcript_is_line_by_line(decode, shorter, records);
            if audit::transcript(decode, stream, records) {
                assert(followed(decode, shorter, records));
                assert forall|n: int| 0 <= n < stream.len() implies lines::line_text(
                    #[trigger] stream[n],
                ) is Some by {
                    if n < last {
                        assert(lines::line_text(shorter[n]) is Some);
                    }
                }
                assert forall|n: int|
                    0 <= n < stream.len() && audit::holds_event(
                        #[trigger] stream[n],
                    ) implies exists|i: int|
                    0 <= i < records.len() && (#[trigger] records[i]).line == n + 1 by {
                    assert(audit::holds_event(shorter[n]));
                }
                assert(followed(decode, stream, records));
            }
            if followed(decode, stream, records) {
                assert forall|i: int| 0 <= i < records.len() implies (
                #[trigger] records[i]).line <= last by {
                    assert(audit::holds_event(stream[records[i].line - 1]));
                }
                assert forall|i: int| 0 <= i < records.len() implies {
                    &&& 1 <= (#[trigger] records[i]).line <= shorter.len()
                    &&& audit::holds_event(shorter[records[i].line - 1])
                    &&& audit::decodes(
                        decode,
                        lines::line_text(shorter[records[i].line - 1])->0,
                        Ok(records[i].event),
                    )
                } by {
                    assert(shorter[records[i].line - 1] == stream[records[i].line - 1]);
                }
                assert(followed(decode, shorter, records));
                assert(lines::line_text(stream[last]) is Some);
            }
        }
    }
}

/// What [`law_transcript_is_line_by_line`] says of a stream and its records.
spec fn followed<D: Fn(&str) -> Result<Event, serde_json::Error>>(
    decode: D,
    stream: Seq<Seq<u8>>,
    records: Seq<Record>,
) -> bool {
    &&& forall|n: int| 0 <= n < stream.len() ==> lines::line_text(#[trigger] stream[n]) is Some
    &&& forall|n: int|
        0 <= n < stream.len() && audit::holds_event(#[trigger] stream[n]) ==> exists|i: int|
            0 <= i < records.len() && (#[trigger] records[i]).line == n + 1
    &&& forall|i: int, j: int|
        0 <= i < j < records.len() ==> (#[trigger] records[i]).line < (#[trigger] records[j]).line
    &&& forall|i: int|
        0 <= i < records.len() ==> {
            &&& 1 <= (#[trigger] records[i]).line <= stream.len()
            &&& audit::holds_event(stream[records[i].line - 1])
            &&& audit::decodes(
                decode,
                lines::line_text(stream[records[i].line - 1])->0,
                Ok(records[i].event),
            )
        }
}

/// A last line that holds an event keeps a stream followed.
proof fn lemma_followed_with_event<D: Fn(&str) -> Result<Event, serde_json::Error>>(
    decode: D,
    stream: Seq<Seq<u8>>,
    records: Seq<Record>,
)
    requires
        stream.len() > 0,
        audit::holds_event(stream.last()),
        audit::transcript(decode, stream, records),
        followed(decode, stream.drop_last(), records.drop_last()),
    ensures
        followed(decode, stream, records),
{
    let shorter = stream.drop_last();
    let front = records.drop_last();
    let last = stream.len() - 1;
    assert forall|n: int| 0 <= n < last implies shorter[n] == stream[n] by {}
    assert forall|i: int| 0 <= i < front.len() implies front[i] == records[i] by {}
    assert(records[records.len() - 1].line == stream.len());
    assert forall|n: int| 0 <= n < stream.len() implies lines::line_text(
        #[trigger] stream[n],
    ) is Some by {
        if n < last {
            assert(lines::line_text(shorter[n]) is Some);
        }
    }
    assert forall|n: int|
        0 <= n < stream.len() && audit::holds_event(#[trigger] stream[n]) implies exists|i: int|
        0 <= i < records.len() && (#[trigger] records[i]).line == n + 1 by {
        if n < last {
            assert(audit::holds_event(shorter[n]));
            let i = choose|i: int| 0 <= i < front.len() && (#[trigger] front[i]).line == n + 1;
            assert(records[i].line == n + 1);
        }
    }
    assert forall|i: int| 0 <= i < records.len() implies {
        &&& 1 <= (#[trigger] records[i]).line <= stream.len()
        &&& audit::holds_event(stream[records[i].line - 1])
        &&& audit::decodes(
            decode,
            lines::line_text(stream[records[i].line - 1])->0,
            Ok(records[i].event),
        )
    } by {
        if i < front.len() {
            assert(front[i] == records[i]);
            assert(shorter[front[i].line - 1] == stream[records[i].line - 1]);
        }
    }
    assert forall|i: int, j: int| 0 <= i < j < records.len() implies (#[trigger] records[i]).line
        < (#[trigger] records[j]).line by {
        assert(front[i] == records[i]);
        if j < front.len() {
            assert(front[j] == records[j]);
        }
    }
}

/// A followed stream whose last line holds an event ends with the record of that line.
proof fn lemma_transcript_with_event<D: Fn(&str) -> Result<Event, serde_json::Error>>(
    decode: D,
    stream: Seq<Seq<u8>>,
    records: Seq<Record>,
)
    requires
        stream.len() > 0,
        audit::holds_event(stream.last()),
        followed(decode, stream, records),
        followed(decode, stream.drop_last(), records.drop_last()) ==> audit::transcript(
            decode,
            stream.drop_last(),
            records.drop_last(),
        ),
    ensures
        audit::transcript(decode, stream, records),
{
    let shorter = stream.drop_last();
    let front = records.drop_last();
    let last = stream.len() - 1;
    assert(audit::holds_event(stream[last]));
    let i = choose|i: int| 0 <= i < records.len() && (#[trigger] records[i]).line == last + 1;
    if i < records.len() - 1 {
        assert(records[i].line < records[records.len() - 1].line);
    }
    assert(records.last().line == stream.len());
    assert forall|j: int| 0 <= j < front.len() implies front[j] == records[j] && (
    #[trigger] front[j]).line <= last by {
        assert(records[j].line < records[records.len() - 1].line);
    }
    assert forall|n: int| 0 <= n < shorter.len() implies lines::line_text(
        #[trigger] shorter[n],
    ) is Some by {
        assert(shorter[n] == stream[n]);
    }
    assert forall|n: int|
        0 <= n < shorter.len() && audit::holds_event(#[trigger] shorter[n]) implies exists|j: int|
        0 <= j < front.len() && (#[trigger] front[j]).line == n + 1 by {
        assert(audit::holds_event(stream[n]));
        let j = choose|j: int| 0 <= j < records.len() && (#[trigger] records[j]).line == n + 1;
        assert(front[j].line == n + 1);
    }
    assert forall|j: int| 0 <= j < front.len() implies {
        &&& 1 <= (#[trigger] front[j]).line <= shorter.len()
        &&& audit::holds_event(shorter[front[j].line - 1])
        &&& audit::decodes(
            decode,
            lines::line_text(shorter[front[j].line - 1])->0,
            Ok(front[j].event),
        )
    } by {
        assert(front[j] == records[j]);
        assert(shorter[front[j].line - 1] == stream[records[j].line - 1]);
    }
    assert(followed(decode, shorter, front));
}

/// The counts of a report are those of the stream: as many events as there are lines that hold one,
/// whatever the sequence numbers say, and as many resources as the events name different ones.
pub proof fn law_counts_are_those_of_the_stream<D: Fn(&str) -> Result<Event, serde_json::Error>>(
    decode: D,
    stream: Seq<Seq<u8>>,
    grace_ms: u64,
    report: Report,
)
    requires
        audit::audited(decode, stream, grace_ms, Ok(report)),
    ensures
        report.events_read == stream.filter(|line: Seq<u8>| audit::holds_event(line)).len(),
        exists|records: Seq<Record>| #[trigger]
            audit::transcript(decode, stream, records) && report.events_read == records.len()
                && report.resources_seen == records.map_values(
                |record: Record| record.event.resource@,
            ).to_set().len(),
{
    let records = choose|records: Seq<Record>| #[trigger]
        audit::transcript(decode, stream, records) && report@ == history::audit_report(
            records,
            grace_ms,
        );
    report::law_report_says_what_it_holds(report);
    outcome::law_report_holds_every_finding(records, grace_ms);
    input::law_records_follow_lines(decode, stream, records);
}

/// What an audit returns. Success means that every line encodes a text and that the report holds,
/// violation by violation, what is found in each event of the stream. A failure names the first
/// line at fault: all lines before it can be followed, and it holds an event that does not decode,
/// or it encodes no text at all.
pub proof fn law_result_is_that_of_the_stream<D: Fn(&str) -> Result<Event, serde_json::Error>>(
    decode: D,
    stream: Seq<Seq<u8>>,
    grace_ms: u64,
    result: Result<Report, AuditError>,
)
    requires
        audit::audited(decode, stream, grace_ms, result),
    ensures
        match result {
            Ok(report) => exists|records: Seq<Record>|
                {
                    &&& #[trigger] audit::transcript(decode, stream, records)
                    &&& report@.events_read == records.len()
                    &&& report@.resources_seen == records.map_values(
                        |record: Record| record.event.resource@,
                    ).to_set().len()
                    &&& report@.violations == Seq::new(
                        records.len(),
                        |i: int| history::record_findings(records.take(i), records[i], grace_ms),
                    ).flatten()
                },
            Err(AuditError::InvalidJson { line, source }) => {
                &&& 1 <= line <= stream.len()
                &&& exists|records: Seq<Record>| #[trigger]
                    audit::transcript(decode, stream.take(line - 1), records)
                &&& audit::holds_event(stream[line - 1])
                &&& exists|s: &str|
                    lines::line_text(stream[line - 1]) == Some(s@) && #[trigger] call_ensures(
                        decode,
                        (s,),
                        Err::<Event, serde_json::Error>(source),
                    )
            },
            Err(AuditError::Io(error)) => {
                &&& error == error::invalid_data_error("stream did not contain valid UTF-8"@)
                &&& exists|n: int, records: Seq<Record>|
                    1 <= n <= stream.len() && lines::line_text(stream[n - 1]) is None
                        && #[trigger] audit::transcript(decode, stream.take(n - 1), records)
            },
        },
{
    match result {
        Ok(report) => {
            let records = choose|records: Seq<Record>| #[trigger]
                audit::transcript(decode, stream, records) && report@ == history::audit_report(
                    records,
                    grace_ms,
                );
            outcome::law_report_holds_every_finding(records, grace_ms);
        },
        Err(AuditError::InvalidJson { line, source }) => {},
        Err(AuditError::Io(error)) => {
            let n = choose|n: int| #[trigger]
                audit::reaches(decode, stream, n) && lines::line_text(stream[n - 1]) is None;
            let records = choose|records: Seq<Record>| #[trigger]
                audit::transcript(decode, stream.take(n - 1), records);
            assert(audit::transcript(decode, stream.take(n - 1), records));
        },
    }
}

} // verus!
