//! The lines of a byte stream.

use vstd::prelude::*;
use vstd::utf8::*;

verus! {

/// The byte that ends a line.
pub const NEWLINE: u8 = 0x0a;

/// The byte that may stand before the end of a line.
pub const CARRIAGE_RETURN: u8 = 0x0d;

/// The lines of a stream, each with the newline that ends it; the last one may lack it.
pub open spec fn lines(bytes: Seq<u8>) -> Seq<Seq<u8>>
    decreases bytes.len(),
{
    if bytes.len() == 0 {
        Seq::empty()
    } else {
        match bytes.index_of_first(NEWLINE) {
            Some(i) => if 0 <= i < bytes.len() {
                seq![bytes.take(i + 1)] + lines(bytes.skip(i + 1))
            } else {
                Seq::empty()
            },
            None => seq![bytes],
        }
    }
}

/// The content of a line: the line without the newline, or the carriage return and newline, at its
/// end.
pub open spec fn content(line: Seq<u8>) -> Seq<u8> {
    if line.len() == 0 || line.last() != NEWLINE {
        line
    } else if line.len() >= 2 && line[line.len() - 2] == CARRIAGE_RETURN {
        line.take(line.len() - 2)
    } else {
        line.take(line.len() - 1)
    }
}

/// The text of a line, if it is UTF-8.
pub open spec fn line_text(line: Seq<u8>) -> Option<Seq<char>> {
    if valid_utf8(content(line)) {
        Some(decode_utf8(content(line)))
    } else {
        None
    }
}

/// The text that bytes encode.
///
/// Trusted: calls `core::str::from_utf8`. The contract claims that it accepts the valid UTF-8
/// sequences and no others, and that the text is the one that the bytes encode.
#[verifier::external_body]
fn decode_text(bytes: &[u8]) -> (text: Option<&str>)
    ensures
        match text {
            Some(text) => valid_utf8(bytes@) && text@ == decode_utf8(bytes@),
            None => !valid_utf8(bytes@),
        },
{
    std::str::from_utf8(bytes).ok()
}

/// The text of a line, without the end of the line.
pub fn read_text(line: &[u8]) -> (text: Option<&str>)
    ensures
        match text {
            Some(text) => line_text(line@) == Some(text@),
            None => line_text(line@) is None,
        },
{
    let mut end = line.len();
    if end > 0 && line[end - 1] == NEWLINE {
        end = end - 1;
        if end > 0 && line[end - 1] == CARRIAGE_RETURN {
            end = end - 1;
        }
    }
    let body = vstd::slice::slice_subrange(line, 0, end);
    assert(body@ =~= content(line@));
    decode_text(body)
}

/// The end of the line that begins at `start`.
pub fn line_end(bytes: &[u8], start: usize) -> (end: usize)
    requires
        start < bytes@.len(),
    ensures
        start < end <= bytes@.len(),
        lines(bytes@.skip(start as int)) == seq![bytes@.subrange(start as int, end as int)]
            + lines(bytes@.skip(end as int)),
{
    let ghost rest = bytes@.skip(start as int);
    proof {
        rest.index_of_first_ensures(NEWLINE);
    }
    let mut end = start;
    while end < bytes.len()
        invariant
            start <= end <= bytes@.len(),
            start < bytes@.len(),
            rest == bytes@.skip(start as int),
            forall|j: int| 0 <= j < end - start ==> rest[j] != NEWLINE,
        decreases bytes@.len() - end,
    {
        if bytes[end] == NEWLINE {
            proof {
                let i = end - start;
                rest.index_of_first_ensures(NEWLINE);
                assert(rest[i] == NEWLINE);
                assert(rest.contains(NEWLINE));
                assert(rest.index_of_first(NEWLINE) == Some(i));
                assert(rest.take(i + 1) =~= bytes@.subrange(start as int, end + 1));
                assert(rest.skip(i + 1) =~= bytes@.skip(end + 1));
            }
            return end + 1;
        }
        end = end + 1;
    }
    proof {
        rest.index_of_first_ensures(NEWLINE);
        assert(!rest.contains(NEWLINE));
        assert(bytes@.subrange(start as int, end as int) =~= rest);
        assert(bytes@.skip(end as int) =~= Seq::empty());
        assert(seq![rest] + lines(bytes@.skip(end as int)) =~= seq![rest]);
    }
    end
}

} // verus!
