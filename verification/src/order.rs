//! The rules on the order of events in a stream.

use vstd::prelude::*;

use crate::event::Event;
use crate::finding::{push_finding, Finding, FindingCode, FindingModel};
use crate::message::numbers;
use crate::{finding, message, rules};

verus! {

/// The place of an event in its stream.
#[derive(Debug, Clone, Copy, PartialEq, Eq)]
pub struct Stamp {
    pub seq: u64,
    pub at_ms: u64,
}

/// The place that `event` claims.
pub open spec fn stamp(event: Event) -> Stamp {
    Stamp { seq: event.seq, at_ms: event.at_ms }
}

/// The rules of order that `event` breaks, coming after an event stamped `previous`: sequence
/// numbers increase, and time does not run backwards.
pub open spec fn order_findings(previous: Option<Stamp>, event: Event, line: nat) -> Seq<
    FindingModel,
> {
    match previous {
        None => Seq::empty(),
        Some(previous) => rules::when(
            event.seq <= previous.seq,
            finding::finding(
                FindingCode::SequenceNotIncreasing,
                event,
                line,
                message::numbers_text(
                    "sequence "@,
                    event.seq,
                    " is not greater than previous sequence "@,
                    previous.seq,
                ),
            ),
        ) + rules::when(
            event.at_ms < previous.at_ms,
            finding::finding(
                FindingCode::TimeWentBackwards,
                event,
                line,
                message::numbers_text(
                    "timestamp "@,
                    event.at_ms,
                    " is earlier than previous timestamp "@,
                    previous.at_ms,
                ),
            ),
        ),
    }
}

/// Checks an event against the stamp of the one before it.
pub fn check_order(
    previous: Option<Stamp>,
    event: &Event,
    line: usize,
    violations: &mut Vec<Finding>,
)
    ensures
        finding::contents(final(violations)@) == finding::contents(old(violations)@)
            + order_findings(previous, *event, line as nat),
{
    let ghost before = finding::contents(violations@);
    if let Some(previous) = previous {
        if event.seq <= previous.seq {
            push_finding(
                violations,
                event,
                line,
                FindingCode::SequenceNotIncreasing,
                numbers(
                    "sequence ".to_owned(),
                    event.seq,
                    " is not greater than previous sequence ",
                    previous.seq,
                ),
            );
        }
        if event.at_ms < previous.at_ms {
            push_finding(
                violations,
                event,
                line,
                FindingCode::TimeWentBackwards,
                numbers(
                    "timestamp ".to_owned(),
                    event.at_ms,
                    " is earlier than previous timestamp ",
                    previous.at_ms,
                ),
            );
        }
    }
    assert(finding::contents(violations@) =~= before + order_findings(
        previous,
        *event,
        line as nat,
    ));
}

} // verus!
