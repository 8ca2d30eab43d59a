//! Registry lifecycle, cancellation signaling, and the send operation's
//! synchronous checks.

use copilot_desktop::error::AppError;
use copilot_desktop::registry::{SessionInfo, SessionRegistry};
use copilot_desktop::send::{prepare_send, validate_message, MAX_MESSAGE_SIZE};
use tokio_util::sync::CancellationToken;

fn entry(id: &str, handle: u64, model: Option<&str>) -> SessionInfo<u64> {
    SessionInfo {
        id: id.to_string(),
        session: handle,
        model: model.map(|m| m.to_string()),
        system_prompt: None,
        cancel_token: CancellationToken::new(),
    }
}

#[test]
fn insert_then_get_returns_the_entry() {
    let mut reg: SessionRegistry<u64> = SessionRegistry::new();
    assert!(!reg.contains("s1"));
    reg.insert(entry("s1", 41, Some("gpt-4o")));
    assert!(reg.contains("s1"));
    let found = reg.get("s1").expect("the session should be registered");
    assert_eq!(found.id, "s1");
    assert_eq!(found.session, 41);
    assert_eq!(found.model.as_deref(), Some("gpt-4o"));
    assert!(found.system_prompt.is_none());
    assert!(reg.get("s2").is_none());
}

#[test]
fn destroy_removes_and_signals_cancellation() {
    let mut reg: SessionRegistry<u64> = SessionRegistry::new();
    let token = CancellationToken::new();
    reg.insert(SessionInfo {
        id: "s1".to_string(),
        session: 7,
        model: None,
        system_prompt: None,
        cancel_token: token.clone(),
    });
    assert!(!token.is_cancelled());
    reg.destroy("s1");
    assert!(!reg.contains("s1"));
    // The registry held a clone sharing the same signal.
    assert!(token.is_cancelled());
}

#[test]
fn destroy_is_idempotent_and_tolerates_unknown_ids() {
    let mut reg: SessionRegistry<u64> = SessionRegistry::new();
    reg.destroy("never-created");
    reg.insert(entry("s1", 1, None));
    reg.destroy("s1");
    reg.destroy("s1");
    assert!(!reg.contains("s1"));
    assert_eq!(reg.len(), 0);
}

#[test]
fn destroy_leaves_other_sessions_alone() {
    let mut reg: SessionRegistry<u64> = SessionRegistry::new();
    reg.insert(entry("s1", 1, None));
    reg.insert(entry("s2", 2, None));
    reg.insert(entry("s3", 3, None));
    assert_eq!(reg.len(), 3);
    reg.destroy("s2");
    assert_eq!(reg.len(), 2);
    assert!(reg.contains("s1"));
    assert!(!reg.contains("s2"));
    assert!(reg.contains("s3"));
    assert_eq!(reg.get("s3").unwrap().session, 3);
}

#[test]
fn remove_entry_hands_the_entry_back() {
    let mut reg: SessionRegistry<u64> = SessionRegistry::new();
    reg.insert(entry("s1", 9, Some("m")));
    let removed = reg.remove_entry("s1").expect("the entry should be there");
    assert_eq!(removed.session, 9);
    assert!(reg.remove_entry("s1").is_none());
}

#[test]
fn validate_message_accepts_ordinary_content() {
    assert!(validate_message("hello").is_ok());
    assert!(validate_message("  padded  ").is_ok());
}

#[test]
fn validate_message_rejects_empty_after_trim() {
    for content in ["", "   ", "\t\n  \r", "\u{00A0}\u{3000}"] {
        match validate_message(content) {
            Err(AppError::Validation(m)) => assert_eq!(m, "Message cannot be empty."),
            other => panic!("expected a validation error, got {:?}", other),
        }
    }
}

#[test]
fn validate_message_rejects_oversized_content() {
    let content = "x".repeat(MAX_MESSAGE_SIZE + 1);
    match validate_message(&content) {
        Err(AppError::Validation(m)) => {
            assert_eq!(m, "Message is too large. Please shorten your message.")
        }
        other => panic!("expected a validation error, got {:?}", other),
    }
    let at_bound = "x".repeat(MAX_MESSAGE_SIZE);
    assert!(validate_message(&at_bound).is_ok());
}

#[test]
fn validate_message_measures_encoded_bytes() {
    // Two bytes per character: half as many characters reach the bound.
    let over = "é".repeat(MAX_MESSAGE_SIZE / 2) + "é";
    match validate_message(&over) {
        Err(AppError::Validation(m)) => {
            assert_eq!(m, "Message is too large. Please shorten your message.")
        }
        other => panic!("expected a validation error, got {:?}", other),
    }
    let at_bound = "é".repeat(MAX_MESSAGE_SIZE / 2);
    assert!(validate_message(&at_bound).is_ok());
}

#[test]
fn prepare_send_runs_all_checks_in_order() {
    let mut reg: SessionRegistry<u64> = SessionRegistry::new();
    reg.insert(entry("s1", 1, None));

    let ok = prepare_send(&reg, "s1", "hello").expect("the send should be allowed");
    assert_eq!(ok.id, "s1");

    match prepare_send(&reg, "s1", "   ") {
        Err(AppError::Validation(m)) => assert_eq!(m, "Message cannot be empty."),
        other => panic!("expected a validation error, got {:?}", other.map(|e| e.id.clone())),
    }

    match prepare_send(&reg, "missing", "hello") {
        Err(AppError::NotFound(m)) => assert_eq!(m, "Session not found"),
        other => panic!("expected a not-found error, got {:?}", other.map(|e| e.id.clone())),
    }

    // Validation comes before the lookup: bad content on an unknown
    // session reports the validation failure.
    match prepare_send(&reg, "missing", "") {
        Err(AppError::Validation(m)) => assert_eq!(m, "Message cannot be empty."),
        other => panic!("expected a validation error, got {:?}", other.map(|e| e.id.clone())),
    }
}

#[test]
fn error_kinds_and_messages_are_exposed() {
    let e = AppError::Network("transport failed".to_string());
    assert_eq!(e.kind_name(), "Network");
    assert_eq!(e.message(), "transport failed");
    assert_eq!(AppError::Auth("a".to_string()).kind_name(), "Auth");
    assert_eq!(AppError::Validation("v".to_string()).kind_name(), "Validation");
    assert_eq!(AppError::Internal("i".to_string()).kind_name(), "Internal");
    assert_eq!(AppError::NotFound("n".to_string()).kind_name(), "NotFound");
}
