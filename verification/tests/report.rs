use lease_lint::{human_report, Auditor, Event, EventKind, Finding, FindingCode, Report};

fn stale_owner_report() -> Report {
    let resource = "gateway/us-east";
    let mut auditor = Auditor::new(0);
    for event in [
        Event {
            seq: 1,
            at_ms: 100,
            resource: resource.to_owned(),
            kind: EventKind::Grant {
                owner: "node-a".to_owned(),
                epoch: 41,
                lease_until_ms: 900,
            },
        },
        Event {
            seq: 2,
            at_ms: 200,
            resource: resource.to_owned(),
            kind: EventKind::Grant {
                owner: "node-b".to_owned(),
                epoch: 42,
                lease_until_ms: 900,
            },
        },
        Event {
            seq: 3,
            at_ms: 300,
            resource: resource.to_owned(),
            kind: EventKind::Action {
                owner: "node-a".to_owned(),
                epoch: 41,
                operation: "dispatch-job-7".to_owned(),
            },
        },
    ] {
        let text = auditor.read_line(b"event\n").expect("a line of text");
        assert_eq!(text, Some("event"));
        auditor.accept(Ok(event)).expect("an event");
    }
    auditor.finish()
}

#[test]
fn human_report_shows_a_stale_owner() {
    let report = stale_owner_report();
    assert_eq!(report.exit_code(), 2);
    assert_eq!(
        human_report(&report),
        vec![
            "2 violations: 3 events across 1 resources".to_owned(),
            "line 3 seq 3 resource \"gateway/us-east\" [ACTION_WRONG_OWNER] operation \"dispatch-job-7\" owner \"node-a\" does not match active owner \"node-b\"".to_owned(),
            "line 3 seq 3 resource \"gateway/us-east\" [ACTION_STALE_EPOCH] operation \"dispatch-job-7\" epoch 41 is stale; active epoch is 42".to_owned(),
        ]
    );
}

#[test]
fn human_report_of_a_clean_stream_is_one_line() {
    let report = Report { events_read: 5, resources_seen: 1, violations: vec![] };
    assert!(report.is_clean());
    assert_eq!(report.exit_code(), 0);
    assert_eq!(human_report(&report), vec!["clean: 5 events across 1 resources".to_owned()]);
}

#[test]
fn report_with_a_violation_is_not_clean() {
    let report = Report {
        events_read: 10,
        resources_seen: 2,
        violations: vec![Finding {
            code: FindingCode::TimeWentBackwards,
            line: 120,
            seq: 7,
            resource: "tab\there".to_owned(),
            message: "late".to_owned(),
        }],
    };
    assert!(!report.is_clean());
    assert_eq!(
        human_report(&report),
        vec![
            "1 violations: 10 events across 2 resources".to_owned(),
            "line 120 seq 7 resource \"tab\\there\" [TIME_WENT_BACKWARDS] late".to_owned(),
        ]
    );
}

#[test]
fn blank_and_unreadable_lines_hold_no_event() {
    let mut auditor = Auditor::new(7);
    assert_eq!(auditor.read_line(b" \r\n").expect("text"), None);
    assert_eq!(auditor.read_line(b"").expect("text"), None);
    assert!(auditor.read_line(b"\x80\n").is_err());
    let report = auditor.finish();
    assert_eq!(report.events_read, 0);
}

#[test]
fn code_names_are_stable_and_distinct() {
    let names = [
        (FindingCode::SequenceNotIncreasing, "SEQUENCE_NOT_INCREASING"),
        (FindingCode::TimeWentBackwards, "TIME_WENT_BACKWARDS"),
        (FindingCode::EpochNotIncreasing, "EPOCH_NOT_INCREASING"),
        (FindingCode::GrantAlreadyExpired, "GRANT_ALREADY_EXPIRED"),
        (FindingCode::RenewWithoutLease, "RENEW_WITHOUT_LEASE"),
        (FindingCode::RenewWrongOwner, "RENEW_WRONG_OWNER"),
        (FindingCode::RenewWrongEpoch, "RENEW_WRONG_EPOCH"),
        (FindingCode::RenewAfterExpiry, "RENEW_AFTER_EXPIRY"),
        (FindingCode::RenewDidNotExtend, "RENEW_DID_NOT_EXTEND"),
        (FindingCode::RenewDeadlineNotFuture, "RENEW_DEADLINE_NOT_FUTURE"),
        (FindingCode::RevokeWithoutLease, "REVOKE_WITHOUT_LEASE"),
        (FindingCode::RevokeWrongOwner, "REVOKE_WRONG_OWNER"),
        (FindingCode::RevokeWrongEpoch, "REVOKE_WRONG_EPOCH"),
        (FindingCode::ActionWithoutLease, "ACTION_WITHOUT_LEASE"),
        (FindingCode::ActionWrongOwner, "ACTION_WRONG_OWNER"),
        (FindingCode::ActionStaleEpoch, "ACTION_STALE_EPOCH"),
        (FindingCode::ActionFutureEpoch, "ACTION_FUTURE_EPOCH"),
        (FindingCode::ActionAfterExpiry, "ACTION_AFTER_EXPIRY"),
    ];
    for (i, (code, name)) in names.iter().enumerate() {
        assert_eq!(code.as_str(), *name);
        for (_, other) in &names[i + 1..] {
            assert_ne!(name, other);
        }
    }
}
