//! The state of an audit between two lines of the stream.

use vstd::hash_map::StringHashMap;
use vstd::prelude::*;

use crate::error::{invalid_data, AuditError};
use crate::event::Event;
use crate::finding::{Finding, Report};
use crate::history::Record;
use crate::laws::outcome;
use crate::lines::read_text;
use crate::order::{check_order, Stamp};
use crate::rules::{apply_event, ResourceState};
use crate::text::is_blank;
use crate::{error, finding, history, lines, rules, text};

verus! {

/// An audit of a stream that is read line by line.
///
/// Each line goes through [`Auditor::read_line`]; where that hands back a text, the event that the
/// text holds goes through [`Auditor::accept`].
pub struct Auditor {
    grace_ms: u64,
    lines_read: usize,
    events_read: usize,
    previous: Option<Stamp>,
    slots: StringHashMap<usize>,
    states: Vec<ResourceState>,
    violations: Vec<Finding>,
    records: Ghost<Seq<Record>>,
}

impl Auditor {
    /// The grace that extends deadlines.
    pub closed spec fn grace(&self) -> u64 {
        self.grace_ms
    }

    /// The number of lines read.
    pub closed spec fn line_count(&self) -> nat {
        self.lines_read as nat
    }

    /// The events accepted, each with its line.
    pub closed spec fn records(&self) -> Seq<Record> {
        self.records@
    }

    /// Each resource named by an event has a slot of its own, which holds its state.
    closed spec fn slots_hold(
        slots: Map<Seq<char>, usize>,
        states: Seq<ResourceState>,
        records: Seq<Record>,
        grace_ms: u64,
    ) -> bool {
        &&& slots.dom() == history::resources(records)
        &&& forall|r: Seq<char>|
            #![trigger slots[r]]
            slots.contains_key(r) ==> slots[r] < states.len() && states[slots[r] as int]@
                == history::resource_state(records, r, grace_ms)
        &&& forall|r1: Seq<char>, r2: Seq<char>|
            #![trigger slots[r1], slots[r2]]
            slots.contains_key(r1) && slots.contains_key(r2) && r1 != r2 ==> slots[r1] != slots[r2]
        &&& forall|r: Seq<char>|
            #![trigger history::resource_state(records, r, grace_ms)]
            !slots.contains_key(r) ==> history::resource_state(records, r, grace_ms)
                == rules::fresh_state()
    }

    /// The audit agrees with the events that it has accepted.
    pub closed spec fn well_formed(&self) -> bool {
        &&& self.events_read == self.records@.len()
        &&& self.records@.len() <= self.lines_read
        &&& self.previous == history::latest(self.records@)
        &&& Self::slots_hold(self.slots@, self.states@, self.records@, self.grace_ms)
        &&& finding::contents(self.violations@) == history::all_findings(
            self.records@,
            self.grace_ms,
        )
    }

    /// Begins an audit. `grace_ms` extends only the time allowed for renewals and actions.
    pub fn new(grace_ms: u64) -> (auditor: Self)
        ensures
            auditor.well_formed(),
            auditor.grace() == grace_ms,
            auditor.line_count() == 0,
            auditor.records() == Seq::<Record>::empty(),
    {
        let auditor = Auditor {
            grace_ms,
            lines_read: 0,
            events_read: 0,
            previous: None,
            slots: StringHashMap::new(),
            states: Vec::new(),
            violations: Vec::new(),
            records: Ghost(Seq::empty()),
        };
        proof {
            assert(auditor.slots@.dom() =~= history::resources(auditor.records@));
            assert(finding::contents(auditor.violations@) =~= Seq::empty());
        }
        auditor
    }

    /// Reads the next line of the stream, with or without the newline that ends it. Returns the
    /// text that holds an event, or nothing for a blank line.
    pub fn read_line<'a>(&mut self, line: &'a [u8]) -> (text: Result<Option<&'a str>, AuditError>)
        requires
            old(self).well_formed(),
            old(self).line_count() < usize::MAX,
        ensures
            final(self).well_formed(),
            final(self).grace() == old(self).grace(),
            final(self).line_count() == old(self).line_count() + 1,
            final(self).records() == old(self).records(),
            match text {
                Ok(Some(text)) => lines::line_text(line@) == Some(text@) && !text::blank(text@),
                Ok(None) => lines::line_text(line@) is Some && text::blank(
                    lines::line_text(line@)->0,
                ),
                Err(AuditError::Io(error)) => lines::line_text(line@) is None && error
                    == error::not_utf8_error(),
                Err(AuditError::InvalidJson { .. }) => false,
            },
    {
        self.lines_read = self.lines_read + 1;
        match read_text(line) {
            Some(text) => if is_blank(text) {
                Ok(None)
            } else {
                Ok(Some(text))
            },
            None => Err(AuditError::from(invalid_data("stream did not contain valid UTF-8"))),
        }
    }

    /// The slot of a resource; a resource that has none yet gets one, with nothing known of it.
    fn slot(&mut self, resource: &String) -> (slot: usize)
        ensures
            *final(self) == (Auditor {
                slots: final(self).slots,
                states: final(self).states,
                ..*old(self)
            }),
            match old(self).slots@.contains_key(resource@) {
                true => {
                    &&& final(self).slots@ == old(self).slots@
                    &&& final(self).states@ == old(self).states@
                    &&& slot == old(self).slots@[resource@]
                },
                false => {
                    &&& slot == old(self).states@.len()
                    &&& final(self).slots@ == old(self).slots@.insert(resource@, slot)
                    &&& final(self).states@.len() == slot + 1
                    &&& final(self).states@.drop_last() == old(self).states@
                    &&& final(self).states@.last()@ == rules::fresh_state()
                },
            },
    {
        match self.slots.get(resource.as_str()) {
            Some(slot) => *slot,
            None => {
                let slot = self.states.len();
                self.slots.insert(resource.clone(), slot);
                self.states.push(ResourceState::default());
                assert(self.states@.drop_last() =~= old(self).states@);
                slot
            },
        }
    }

    /// Checks an event that stands on the line read last.
    fn observe(&mut self, event: &Event)
        requires
            old(self).well_formed(),
            old(self).records().len() < old(self).line_count(),
        ensures
            final(self).well_formed(),
            final(self).grace() == old(self).grace(),
            final(self).line_count() == old(self).line_count(),
            final(self).records() == old(self).records().push(
                Record { line: old(self).line_count(), event: *event },
            ),
    {
        let ghost records = self.records@;
        let ghost record = Record { line: self.lines_read as nat, event: *event };
        let ghost after = records.push(record);
        let line = self.lines_read;
        self.events_read = self.events_read + 1;
        check_order(self.previous, event, line, &mut self.violations);
        self.previous = Some(Stamp { seq: event.seq, at_ms: event.at_ms });
        let slot = self.slot(&event.resource);
        apply_event(&mut self.states[slot], event, line, self.grace_ms, &mut self.violations);
        self.records = Ghost(after);
        proof {
            assert(after.drop_last() =~= records);
            assert(finding::contents(self.violations@) =~= history::all_findings(
                after,
                self.grace_ms,
            ));
            assert(self.slots@.dom() =~= history::resources(after));
            assert forall|r: Seq<char>|
                #![trigger self.slots@[r]]
                self.slots@.contains_key(r) implies self.slots@[r] < self.states@.len()
                && self.states@[self.slots@[r] as int]@ == history::resource_state(
                after,
                r,
                self.grace_ms,
            ) by {
                let before = history::resource_state(records, r, self.grace_ms);
                assert(old(self).slots@.contains_key(r) ==> old(self).states@[old(
                    self,
                ).slots@[r] as int]@ == before);
            }
            assert forall|r: Seq<char>|
                #![trigger history::resource_state(after, r, self.grace_ms)]
                !self.slots@.contains_key(r) implies history::resource_state(
                after,
                r,
                self.grace_ms,
            ) == rules::fresh_state() by {
                let before = history::resource_state(records, r, self.grace_ms);
            }
        }
    }

    /// Takes the result of decoding the text that [`Auditor::read_line`] handed back: an event is
    /// checked, and a failure ends the audit with the number of its line.
    pub fn accept(&mut self, decoded: Result<Event, serde_json::Error>) -> (result: Result<
        (),
        AuditError,
    >)
        requires
            old(self).well_formed(),
            old(self).records().len() < old(self).line_count(),
        ensures
            final(self).well_formed(),
            final(self).grace() == old(self).grace(),
            final(self).line_count() == old(self).line_count(),
            match decoded {
                Ok(event) => {
                    &&& result is Ok
                    &&& final(self).records() == old(self).records().push(
                        Record { line: old(self).line_count(), event },
                    )
                },
                Err(source) => {
                    &&& result == Err::<(), AuditError>(
                        AuditError::InvalidJson { line: old(self).line_count() as usize, source },
                    )
                    &&& final(self).records() == old(self).records()
                },
            },
    {
        match decoded {
            Ok(event) => {
                self.observe(&event);
                Ok(())
            },
            Err(source) => Err(AuditError::InvalidJson { line: self.lines_read, source }),
        }
    }

    /// Ends the audit and reports on the events accepted.
    pub fn finish(self) -> (report: Report)
        requires
            self.well_formed(),
        ensures
            report@ == history::audit_report(self.records(), self.grace()),
            report.events_read == self.records().len(),
            report.resources_seen == self.records().map_values(
                |record: Record| record.event.resource@,
            ).to_set().len(),
            finding::contents(report.violations@) == Seq::new(
                self.records().len(),
                |i: int|
                    history::record_findings(
                        self.records().take(i),
                        self.records()[i],
                        self.grace(),
                    ),
            ).flatten(),
    {
        proof {
            outcome::law_report_holds_every_finding(self.records@, self.grace_ms);
        }
        Report {
            events_read: self.events_read,
            resources_seen: self.slots.len(),
            violations: self.violations,
        }
    }
}

} // verus!
