use lease_lint::{audit, AuditError, Event, EventKind, FindingCode, Report};
use serde_json::Value;

fn missing(field: &'static str) -> serde_json::Error {
    <serde_json::Error as serde::de::Error>::missing_field(field)
}

fn number(value: &Value, field: &'static str) -> Result<u64, serde_json::Error> {
    value.get(field).and_then(Value::as_u64).ok_or_else(|| missing(field))
}

fn text(value: &Value, field: &'static str) -> Result<String, serde_json::Error> {
    value.get(field).and_then(Value::as_str).map(str::to_owned).ok_or_else(|| missing(field))
}

fn decode(line: &str) -> Result<Event, serde_json::Error> {
    let value: Value = serde_json::from_str(line)?;
    let kind = match text(&value, "type")?.as_str() {
        "grant" => EventKind::Grant {
            owner: text(&value, "owner")?,
            epoch: number(&value, "epoch")?,
            lease_until_ms: number(&value, "lease_until_ms")?,
        },
        "renew" => EventKind::Renew {
            owner: text(&value, "owner")?,
            epoch: number(&value, "epoch")?,
            lease_until_ms: number(&value, "lease_until_ms")?,
        },
        "revoke" => EventKind::Revoke {
            owner: text(&value, "owner")?,
            epoch: number(&value, "epoch")?,
        },
        "action" => EventKind::Action {
            owner: text(&value, "owner")?,
            epoch: number(&value, "epoch")?,
            operation: text(&value, "operation")?,
        },
        _ => return Err(missing("type")),
    };
    Ok(Event {
        seq: number(&value, "seq")?,
        at_ms: number(&value, "at_ms")?,
        resource: text(&value, "resource")?,
        kind,
    })
}

fn audit_text(input: &str) -> Report {
    audit(input.as_bytes(), 0, decode).expect("fixture should parse")
}

fn codes(report: &Report) -> Vec<FindingCode> {
    report.violations.iter().map(|finding| finding.code).collect()
}

#[test]
fn accepts_clean_failover_stream() {
    let report = audit_text(
        r#"{"seq":1,"at_ms":100,"resource":"gateway","type":"grant","owner":"a","epoch":7,"lease_until_ms":200}
{"seq":2,"at_ms":120,"resource":"gateway","type":"action","owner":"a","epoch":7,"operation":"dispatch"}
{"seq":3,"at_ms":150,"resource":"gateway","type":"renew","owner":"a","epoch":7,"lease_until_ms":260}
{"seq":4,"at_ms":180,"resource":"gateway","type":"grant","owner":"b","epoch":8,"lease_until_ms":300}
{"seq":5,"at_ms":190,"resource":"gateway","type":"action","owner":"b","epoch":8,"operation":"dispatch"}
"#,
    );

    assert!(report.is_clean());
    assert_eq!(report.events_read, 5);
    assert_eq!(report.resources_seen, 1);
}

#[test]
fn catches_stale_owner_after_failover() {
    let report = audit_text(
        r#"{"seq":1,"at_ms":100,"resource":"gateway","type":"grant","owner":"a","epoch":1,"lease_until_ms":200}
{"seq":2,"at_ms":150,"resource":"gateway","type":"grant","owner":"b","epoch":2,"lease_until_ms":250}
{"seq":3,"at_ms":160,"resource":"gateway","type":"action","owner":"a","epoch":1,"operation":"commit"}
"#,
    );

    let codes: Vec<_> = report
        .violations
        .iter()
        .map(|finding| finding.code)
        .collect();
    assert_eq!(
        codes,
        vec![FindingCode::ActionWrongOwner, FindingCode::ActionStaleEpoch]
    );
}

#[test]
fn catches_action_after_expiry() {
    let report = audit_text(
        r#"{"seq":1,"at_ms":10,"resource":"r","type":"grant","owner":"a","epoch":1,"lease_until_ms":20}
{"seq":2,"at_ms":21,"resource":"r","type":"action","owner":"a","epoch":1,"operation":"write"}
"#,
    );
    assert_eq!(report.violations[0].code, FindingCode::ActionAfterExpiry);
}

#[test]
fn grace_window_is_explicit_and_saturating() {
    let input = r#"{"seq":1,"at_ms":10,"resource":"r","type":"grant","owner":"a","epoch":1,"lease_until_ms":20}
{"seq":2,"at_ms":25,"resource":"r","type":"action","owner":"a","epoch":1,"operation":"write"}
"#;
    assert!(!audit(input.as_bytes(), 4, decode).expect("valid input").is_clean());
    assert!(audit(input.as_bytes(), 5, decode).expect("valid input").is_clean());
}

#[test]
fn rejects_non_increasing_epoch_without_replacing_active_lease() {
    let report = audit_text(
        r#"{"seq":1,"at_ms":10,"resource":"r","type":"grant","owner":"a","epoch":4,"lease_until_ms":30}
{"seq":2,"at_ms":12,"resource":"r","type":"grant","owner":"b","epoch":4,"lease_until_ms":40}
{"seq":3,"at_ms":13,"resource":"r","type":"action","owner":"a","epoch":4,"operation":"write"}
"#,
    );
    assert_eq!(report.violations.len(), 1);
    assert_eq!(report.violations[0].code, FindingCode::EpochNotIncreasing);
}

#[test]
fn invalid_renewal_does_not_extend_lease() {
    let report = audit_text(
        r#"{"seq":1,"at_ms":10,"resource":"r","type":"grant","owner":"a","epoch":1,"lease_until_ms":20}
{"seq":2,"at_ms":15,"resource":"r","type":"renew","owner":"b","epoch":1,"lease_until_ms":30}
{"seq":3,"at_ms":25,"resource":"r","type":"action","owner":"a","epoch":1,"operation":"write"}
"#,
    );
    let codes: Vec<_> = report
        .violations
        .iter()
        .map(|finding| finding.code)
        .collect();
    assert!(codes.contains(&FindingCode::RenewWrongOwner));
    assert!(codes.contains(&FindingCode::ActionAfterExpiry));
}

#[test]
fn revoke_removes_active_lease_but_preserves_epoch_fence() {
    let report = audit_text(
        r#"{"seq":1,"at_ms":10,"resource":"r","type":"grant","owner":"a","epoch":2,"lease_until_ms":40}
{"seq":2,"at_ms":15,"resource":"r","type":"revoke","owner":"a","epoch":2}
{"seq":3,"at_ms":16,"resource":"r","type":"action","owner":"a","epoch":2,"operation":"write"}
{"seq":4,"at_ms":17,"resource":"r","type":"grant","owner":"b","epoch":2,"lease_until_ms":50}
"#,
    );
    assert_eq!(
        report
            .violations
            .iter()
            .map(|finding| finding.code)
            .collect::<Vec<_>>(),
        vec![
            FindingCode::ActionWithoutLease,
            FindingCode::EpochNotIncreasing
        ]
    );
}

#[test]
fn resources_have_independent_lease_state() {
    let report = audit_text(
        r#"{"seq":1,"at_ms":10,"resource":"a","type":"grant","owner":"node","epoch":1,"lease_until_ms":50}
{"seq":2,"at_ms":11,"resource":"b","type":"grant","owner":"node","epoch":1,"lease_until_ms":50}
{"seq":3,"at_ms":12,"resource":"a","type":"action","owner":"node","epoch":1,"operation":"write"}
{"seq":4,"at_ms":13,"resource":"b","type":"action","owner":"node","epoch":1,"operation":"write"}
"#,
    );
    assert!(report.is_clean());
    assert_eq!(report.resources_seen, 2);
}

#[test]
fn reports_sequence_and_clock_regressions() {
    let report = audit_text(
        r#"{"seq":2,"at_ms":20,"resource":"r","type":"grant","owner":"a","epoch":1,"lease_until_ms":30}
{"seq":2,"at_ms":19,"resource":"r","type":"action","owner":"a","epoch":1,"operation":"write"}
"#,
    );
    assert_eq!(
        report
            .violations
            .iter()
            .map(|finding| finding.code)
            .collect::<Vec<_>>(),
        vec![
            FindingCode::SequenceNotIncreasing,
            FindingCode::TimeWentBackwards
        ]
    );
    assert_eq!(report.violations[0].message, "sequence 2 is not greater than previous sequence 2");
    assert_eq!(report.violations[1].message, "timestamp 19 is earlier than previous timestamp 20");
}

#[test]
fn malformed_json_reports_physical_line_number() {
    let error = audit("\n{}\n".as_bytes(), 0, decode).expect_err("event is incomplete");
    assert!(error.describe().contains("line 2"));
}

#[test]
fn malformed_json_carries_the_decoder_error() {
    let error = audit("not-json\n".as_bytes(), 0, decode).expect_err("not JSON");
    let description = error.describe();
    assert!(description.starts_with("invalid JSON on non-empty line 1: "));
    match error {
        AuditError::InvalidJson { line, source } => {
            assert_eq!(line, 1);
            assert!(source.is_syntax());
            assert!(description.ends_with(&source.to_string()));
        }
        AuditError::Io(_) => panic!("not an I/O error"),
    }
}

#[test]
fn bytes_that_are_not_text_are_an_io_error() {
    let error = audit(b"\n\xff\xfe\n{}\n", 0, decode).expect_err("not UTF-8");
    assert_eq!(
        error.describe(),
        "could not read event stream: stream did not contain valid UTF-8"
    );
    match error {
        AuditError::Io(error) => assert_eq!(error.kind(), std::io::ErrorKind::InvalidData),
        AuditError::InvalidJson { .. } => panic!("not a decoding error"),
    }
}

#[test]
fn first_fault_decides() {
    let error = audit(b"{}\n\xff\n", 0, decode).expect_err("two faults");
    assert!(matches!(error, AuditError::InvalidJson { line: 1, .. }));
    let error = audit(b"\xff\n{}\n", 0, decode).expect_err("two faults");
    assert!(matches!(error, AuditError::Io(_)));
}

#[test]
fn empty_input_is_clean() {
    let report = audit_text("");
    assert!(report.is_clean());
    assert_eq!(report.events_read, 0);
    assert_eq!(report.resources_seen, 0);
    assert_eq!(report.exit_code(), 0);
}

const GRANT: &str = r#"{"seq":1,"at_ms":10,"resource":"r","type":"grant","owner":"a","epoch":1,"lease_until_ms":20}"#;
const LATE: &str = r#"{"seq":2,"at_ms":21,"resource":"r","type":"action","owner":"a","epoch":1,"operation":"write"}"#;

#[test]
fn blank_lines_only_move_line_numbers() {
    let plain = audit_text(&format!("{GRANT}\n{LATE}\n"));
    let spaced = audit_text(&format!("\r\n \t\n{GRANT}\r\n\u{3000}\n{LATE}"));
    assert_eq!(plain.events_read, spaced.events_read);
    assert_eq!(plain.violations.len(), 1);
    assert_eq!(spaced.violations.len(), 1);
    assert_eq!(plain.violations[0].line, 2);
    assert_eq!(spaced.violations[0].line, 5);
    assert_eq!(plain.violations[0].message, spaced.violations[0].message);
    assert_eq!(plain.violations[0].code, spaced.violations[0].code);
}

#[test]
fn last_line_keeps_a_carriage_return() {
    let mut seen = Vec::new();
    let input = b"a\r\nb\r";
    let lines = std::cell::RefCell::new(&mut seen);
    let result = audit(input, 0, |line: &str| {
        lines.borrow_mut().push(line.to_owned());
        decode(GRANT)
    });
    assert!(result.is_ok());
    assert_eq!(seen, vec!["a".to_owned(), "b\r".to_owned()]);
}

#[test]
fn largest_grace_forgives_lateness() {
    let input = format!("{GRANT}\n{}\n", LATE.replace("21", "18446744073709551615"));
    assert!(audit(input.as_bytes(), u64::MAX, decode).expect("valid input").is_clean());
    assert_eq!(
        codes(&audit(input.as_bytes(), u64::MAX - 21, decode).expect("valid input")),
        vec![FindingCode::ActionAfterExpiry]
    );
}

#[test]
fn grace_does_not_relax_owner_or_epoch() {
    let input = format!("{GRANT}\n{}\n", LATE.replace("\"a\"", "\"b\"").replace("\"epoch\":1", "\"epoch\":2"));
    assert_eq!(
        codes(&audit(input.as_bytes(), u64::MAX, decode).expect("valid input")),
        vec![FindingCode::ActionWrongOwner, FindingCode::ActionFutureEpoch]
    );
    assert_eq!(
        codes(&audit(input.as_bytes(), 0, decode).expect("valid input")),
        vec![
            FindingCode::ActionWrongOwner,
            FindingCode::ActionFutureEpoch,
            FindingCode::ActionAfterExpiry
        ]
    );
}

#[test]
fn fencing_outlives_a_revocation() {
    let report = audit_text(
        r#"{"seq":1,"at_ms":10,"resource":"r","type":"grant","owner":"a","epoch":1,"lease_until_ms":90}
{"seq":2,"at_ms":11,"resource":"r","type":"grant","owner":"b","epoch":2,"lease_until_ms":90}
{"seq":3,"at_ms":12,"resource":"r","type":"revoke","owner":"b","epoch":2}
{"seq":4,"at_ms":13,"resource":"r","type":"action","owner":"a","epoch":1,"operation":"write"}
{"seq":5,"at_ms":14,"resource":"r","type":"grant","owner":"c","epoch":3,"lease_until_ms":90}
{"seq":6,"at_ms":15,"resource":"r","type":"action","owner":"c","epoch":1,"operation":"write"}
"#,
    );
    assert_eq!(
        codes(&report),
        vec![FindingCode::ActionWithoutLease, FindingCode::ActionStaleEpoch]
    );
}

#[test]
fn expired_grant_raises_the_fence_and_keeps_the_lease() {
    let report = audit_text(
        r#"{"seq":1,"at_ms":10,"resource":"r","type":"grant","owner":"a","epoch":1,"lease_until_ms":90}
{"seq":2,"at_ms":11,"resource":"r","type":"grant","owner":"b","epoch":5,"lease_until_ms":11}
{"seq":3,"at_ms":12,"resource":"r","type":"action","owner":"a","epoch":1,"operation":"write"}
{"seq":4,"at_ms":13,"resource":"r","type":"grant","owner":"c","epoch":5,"lease_until_ms":90}
"#,
    );
    assert_eq!(
        codes(&report),
        vec![FindingCode::GrantAlreadyExpired, FindingCode::EpochNotIncreasing]
    );
    assert_eq!(
        report.violations[0].message,
        "grant deadline 11 is not later than event time 11"
    );
    assert_eq!(
        report.violations[1].message,
        "grant epoch 5 is not greater than highest epoch 5"
    );
}

#[test]
fn renewal_rules_are_checked_one_by_one() {
    let report = audit_text(
        r#"{"seq":1,"at_ms":5,"resource":"r","type":"renew","owner":"a","epoch":1,"lease_until_ms":20}
{"seq":2,"at_ms":10,"resource":"r","type":"grant","owner":"a","epoch":1,"lease_until_ms":20}
{"seq":3,"at_ms":30,"resource":"r","type":"renew","owner":"b","epoch":2,"lease_until_ms":20}
{"seq":4,"at_ms":30,"resource":"r","type":"renew","owner":"a","epoch":1,"lease_until_ms":40}
"#,
    );
    assert_eq!(
        codes(&report),
        vec![
            FindingCode::RenewWithoutLease,
            FindingCode::RenewWrongOwner,
            FindingCode::RenewWrongEpoch,
            FindingCode::RenewAfterExpiry,
            FindingCode::RenewDidNotExtend,
            FindingCode::RenewDeadlineNotFuture,
            FindingCode::RenewAfterExpiry
        ]
    );
    let messages: Vec<&str> =
        report.violations.iter().map(|finding| finding.message.as_str()).collect();
    assert_eq!(
        messages,
        vec![
            "renewal has no active lease",
            "owner \"b\" does not match active owner \"a\"",
            "epoch 2 does not match active epoch 1",
            "renewal at 30 is later than lease deadline 20 plus 0 ms grace",
            "renewal deadline 20 does not extend active deadline 20",
            "renewal deadline 20 is not later than event time 30",
            "renewal at 30 is later than lease deadline 20 plus 0 ms grace"
        ]
    );
}

#[test]
fn revocation_and_action_messages() {
    let report = audit_text(
        r#"{"seq":1,"at_ms":5,"resource":"r","type":"revoke","owner":"a","epoch":1}
{"seq":2,"at_ms":10,"resource":"r","type":"grant","owner":"a","epoch":3,"lease_until_ms":20}
{"seq":3,"at_ms":11,"resource":"r","type":"revoke","owner":"b","epoch":2}
{"seq":4,"at_ms":30,"resource":"r","type":"action","owner":"b","epoch":9,"operation":"w\"1"}
{"seq":5,"at_ms":31,"resource":"s","type":"action","owner":"b","epoch":9,"operation":"w"}
"#,
    );
    let shown: Vec<(FindingCode, &str)> = report
        .violations
        .iter()
        .map(|finding| (finding.code, finding.message.as_str()))
        .collect();
    assert_eq!(
        shown,
        vec![
            (FindingCode::RevokeWithoutLease, "revocation has no active lease"),
            (
                FindingCode::RevokeWrongOwner,
                "owner \"b\" does not match active owner \"a\""
            ),
            (FindingCode::RevokeWrongEpoch, "epoch 2 does not match active epoch 3"),
            (
                FindingCode::ActionWrongOwner,
                "operation \"w\\\"1\" owner \"b\" does not match active owner \"a\""
            ),
            (
                FindingCode::ActionFutureEpoch,
                "operation \"w\\\"1\" epoch 9 is ahead of active epoch 3"
            ),
            (
                FindingCode::ActionAfterExpiry,
                "operation \"w\\\"1\" at 30 is later than lease deadline 20 plus 0 ms grace"
            ),
            (FindingCode::ActionWithoutLease, "operation \"w\" has no active lease")
        ]
    );
}

#[test]
fn findings_stand_whatever_follows() {
    let first = audit_text(&format!("{GRANT}\n{LATE}\n"));
    let longer = audit_text(&format!("{GRANT}\n{LATE}\n{LATE}\n"));
    assert_eq!(first.violations[..], longer.violations[..first.violations.len()]);
    assert!(longer.violations.len() > first.violations.len());
    assert!(longer.violations.windows(2).all(|pair| pair[0].line <= pair[1].line));
}

#[test]
fn other_resources_do_not_matter_to_a_lease() {
    let interleaved = audit_text(
        r#"{"seq":1,"at_ms":10,"resource":"a","type":"grant","owner":"x","epoch":9,"lease_until_ms":50}
{"seq":2,"at_ms":11,"resource":"b","type":"grant","owner":"y","epoch":1,"lease_until_ms":12}
{"seq":3,"at_ms":12,"resource":"a","type":"revoke","owner":"x","epoch":9}
{"seq":4,"at_ms":13,"resource":"b","type":"action","owner":"y","epoch":1,"operation":"write"}
"#,
    );
    let alone = audit_text(
        r#"{"seq":2,"at_ms":11,"resource":"b","type":"grant","owner":"y","epoch":1,"lease_until_ms":12}

{"seq":4,"at_ms":13,"resource":"b","type":"action","owner":"y","epoch":1,"operation":"write"}
"#,
    );
    assert_eq!(codes(&interleaved), vec![FindingCode::ActionAfterExpiry]);
    assert_eq!(codes(&alone), codes(&interleaved));
    assert_eq!(alone.violations[0].message, interleaved.violations[0].message);
    assert_eq!(interleaved.violations[0].line, 4);
    assert_eq!(interleaved.violations[0].seq, 4);
    assert_eq!(interleaved.violations[0].resource, "b");
    assert_eq!(interleaved.resources_seen, 2);
    assert_eq!(alone.resources_seen, 1);
}

#[test]
fn audits_are_deterministic() {
    let input = format!("{GRANT}\n{LATE}\n{LATE}\n");
    assert_eq!(audit_text(&input), audit_text(&input));
}

#[test]
fn epochs_are_held_against_every_earlier_grant() {
    let report = audit_text(
        r#"{"seq":1,"at_ms":10,"resource":"r","type":"grant","owner":"a","epoch":9,"lease_until_ms":50}
{"seq":2,"at_ms":11,"resource":"r","type":"grant","owner":"b","epoch":3,"lease_until_ms":50}
{"seq":3,"at_ms":12,"resource":"r","type":"grant","owner":"c","epoch":4,"lease_until_ms":50}
{"seq":4,"at_ms":13,"resource":"r","type":"grant","owner":"d","epoch":10,"lease_until_ms":50}
"#,
    );
    assert_eq!(
        codes(&report),
        vec![FindingCode::EpochNotIncreasing, FindingCode::EpochNotIncreasing]
    );
    assert_eq!(
        report.violations[1].message,
        "grant epoch 4 is not greater than highest epoch 9"
    );
}
