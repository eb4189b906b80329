//! The wording of violation messages.

use vstd::prelude::*;
use vstd::string::*;

use crate::text;
use crate::text::{decimal, quoted};

verus! {

/// `head`, the number `x`, `joint`, the number `y`.
pub open spec fn numbers_text(head: Seq<char>, x: u64, joint: Seq<char>, y: u64) -> Seq<char> {
    head + text::decimal_text(x as nat) + joint + text::decimal_text(y as nat)
}

/// `head`, the owner named by an event, and the owner that holds the lease.
pub open spec fn owners_text(head: Seq<char>, owner: Seq<char>, active: Seq<char>) -> Seq<char> {
    head + text::debug_text(owner) + " does not match active owner "@
        + text::debug_text(active)
}

/// `head`, the time of an event, and the deadline with the grace that it came after.
pub open spec fn overdue_text(head: Seq<char>, at_ms: u64, until_ms: u64, grace_ms: u64) -> Seq<
    char,
> {
    head + text::decimal_text(at_ms as nat) + " is later than lease deadline "@
        + text::decimal_text(until_ms as nat) + " plus "@ + text::decimal_text(
        grace_ms as nat,
    ) + " ms grace"@
}

/// The name of a protected operation, followed by `tail`.
pub open spec fn operation_text(operation: Seq<char>, tail: Seq<char>) -> Seq<char> {
    "operation "@ + text::debug_text(operation) + tail
}

/// Builds [`numbers_text`].
pub(crate) fn numbers(head: String, x: u64, joint: &str, y: u64) -> (text: String)
    ensures
        text@ == numbers_text(head@, x, joint@, y),
{
    let mut text = head;
    text.append(decimal(x).as_str());
    text.append(joint);
    text.append(decimal(y).as_str());
    text
}

/// Builds [`owners_text`].
pub(crate) fn owners(head: String, owner: &str, active: &str) -> (text: String)
    ensures
        text@ == owners_text(head@, owner@, active@),
{
    let mut text = head;
    text.append(quoted(owner).as_str());
    text.append(" does not match active owner ");
    text.append(quoted(active).as_str());
    text
}

/// Builds [`overdue_text`].
pub(crate) fn overdue(head: String, at_ms: u64, until_ms: u64, grace_ms: u64) -> (text: String)
    ensures
        text@ == overdue_text(head@, at_ms, until_ms, grace_ms),
{
    let mut text = head;
    text.append(decimal(at_ms).as_str());
    text.append(" is later than lease deadline ");
    text.append(decimal(until_ms).as_str());
    text.append(" plus ");
    text.append(decimal(grace_ms).as_str());
    text.append(" ms grace");
    text
}

/// Builds [`operation_text`].
pub(crate) fn operation_head(operation: &str, tail: &str) -> (text: String)
    ensures
        text@ == operation_text(operation@, tail@),
{
    let mut text = "operation ".to_owned();
    text.append(quoted(operation).as_str());
    text.append(tail);
    text
}

} // verus!
