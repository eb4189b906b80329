use lease_lint::error::{describe_invalid_json, describe_unreadable};
use lease_lint::lines::{line_end, read_text};
use lease_lint::rules::{apply_event, Lease, ResourceState};
use lease_lint::text::{decimal, is_blank, same_text};
use lease_lint::{AuditError, Event, EventKind};

#[test]
fn decimal_agrees_with_formatting() {
    for n in [0, 7, 9, 10, 11, 99, 100, 1000, 4294967296, u64::MAX - 1, u64::MAX] {
        assert_eq!(decimal(n), n.to_string());
    }
}

#[test]
fn blank_agrees_with_unicode_white_space() {
    for c in '\0'..=char::MAX {
        let line = c.to_string();
        assert_eq!(is_blank(&line), line.trim().is_empty(), "{:?}", c);
    }
    assert!(is_blank(""));
    assert!(is_blank(" \t\u{a0}\u{2029}"));
    assert!(!is_blank("  x "));
}

#[test]
fn same_text_compares_all_characters() {
    assert!(same_text("", ""));
    assert!(same_text("n\u{f6}de-a", "n\u{f6}de-a"));
    assert!(!same_text("node-a", "node-b"));
    assert!(!same_text("node-a", "node-ab"));
}

#[test]
fn lines_end_after_newlines() {
    let bytes = b"ab\n\ncd";
    assert_eq!(line_end(bytes, 0), 3);
    assert_eq!(line_end(bytes, 3), 4);
    assert_eq!(line_end(bytes, 4), 6);
}

#[test]
fn text_of_a_line_lacks_its_end() {
    assert_eq!(read_text(b"ab\n"), Some("ab"));
    assert_eq!(read_text(b"ab\r\n"), Some("ab"));
    assert_eq!(read_text(b"ab\r\r\n"), Some("ab\r"));
    assert_eq!(read_text(b"ab\r"), Some("ab\r"));
    assert_eq!(read_text(b"\n"), Some(""));
    assert_eq!(read_text(b""), Some(""));
    assert_eq!(read_text("\u{20ac}\n".as_bytes()), Some("\u{20ac}"));
    assert_eq!(read_text(b"\xe2\x82\n"), None);
    assert_eq!(read_text(b"\xc0\x80"), None);
    assert_eq!(read_text(b"\xed\xa0\x80"), None);
}

#[test]
fn errors_describe_their_cause() {
    assert_eq!(describe_unreadable("gone"), "could not read event stream: gone");
    assert_eq!(
        describe_invalid_json(12, "missing field"),
        "invalid JSON on non-empty line 12: missing field"
    );
    let error = AuditError::from(std::io::Error::new(std::io::ErrorKind::Other, "broken pipe"));
    assert_eq!(error.describe(), "could not read event stream: broken pipe");
}

#[test]
fn lawful_events_move_the_lease() {
    let mut state = ResourceState::default();
    let mut violations = Vec::new();
    let event = |seq: u64, kind: EventKind| Event {
        seq,
        at_ms: 10 * seq,
        resource: "r".to_owned(),
        kind,
    };
    let owner = || "a".to_owned();
    let grant = EventKind::Grant { owner: owner(), epoch: 3, lease_until_ms: 50 };
    apply_event(&mut state, &event(1, grant), 1, 0, &mut violations);
    assert_eq!(state.highest_epoch, Some(3));
    assert_eq!(state.active, Some(Lease { owner: owner(), epoch: 3, until_ms: 50 }));
    let renew = EventKind::Renew { owner: owner(), epoch: 3, lease_until_ms: 80 };
    apply_event(&mut state, &event(2, renew), 2, 0, &mut violations);
    assert_eq!(state.active, Some(Lease { owner: owner(), epoch: 3, until_ms: 80 }));
    let action = EventKind::Action { owner: owner(), epoch: 3, operation: "w".to_owned() };
    apply_event(&mut state, &event(8, action), 3, 0, &mut violations);
    assert_eq!(state.active, Some(Lease { owner: owner(), epoch: 3, until_ms: 80 }));
    let revoke = EventKind::Revoke { owner: owner(), epoch: 3 };
    apply_event(&mut state, &event(9, revoke), 4, 0, &mut violations);
    assert_eq!(state.active, None);
    assert_eq!(state.highest_epoch, Some(3));
    assert!(violations.is_empty());
}
