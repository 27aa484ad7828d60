use harnel::runtime::{created_session_id, shutdown_result};
use harnel::session::{collect_text, login_preparing, login_running, printable_text, MessageChunk, MAX_ANSWER};
use harnel::Error;

fn chunk(session: &str, kind: &str, text: &str) -> MessageChunk {
    MessageChunk { session_id: Some(session.into()), kind: Some(kind.into()), text: Some(text.into()) }
}

#[test]
fn collects_only_this_sessions_message_chunks() {
    let mut text = String::new();
    collect_text(&mut text, "s1", &chunk("s1", "agent_message_chunk", "hello ")).unwrap();
    collect_text(&mut text, "s1", &chunk("s2", "agent_message_chunk", "other")).unwrap();
    collect_text(&mut text, "s1", &chunk("s1", "agent_thought_chunk", "thinking")).unwrap();
    collect_text(&mut text, "s1", &MessageChunk { text: None, ..chunk("s1", "agent_message_chunk", "") }).unwrap();
    collect_text(&mut text, "s1", &chunk("s1", "agent_message_chunk", "world")).unwrap();
    assert_eq!(text, "hello world");
}

#[test]
fn collected_answer_is_bounded() {
    let mut text = "a".repeat(MAX_ANSWER - 2);
    collect_text(&mut text, "s", &chunk("s", "agent_message_chunk", "bb")).unwrap();
    assert_eq!(text.len(), MAX_ANSWER);
    match collect_text(&mut text, "s", &chunk("s", "agent_message_chunk", "c")) {
        Err(Error::Invalid(m)) => assert_eq!(m, "collected answer exceeds 8 MiB; use streaming"),
        _ => panic!("expected refusal"),
    }
    assert_eq!(text.len(), MAX_ANSWER);
}

#[test]
fn answer_limit_counts_utf8_bytes() {
    let mut text = "a".repeat(MAX_ANSWER - 1);
    assert!(collect_text(&mut text, "s", &chunk("s", "agent_message_chunk", "é")).is_err());
}

#[test]
fn printable_chunks() {
    let c = chunk("any", "agent_message_chunk", "out");
    assert_eq!(printable_text(&c).map(|s| s.as_str()), Some("out"));
    assert!(printable_text(&chunk("any", "tool_call", "out")).is_none());
}

#[test]
fn login_states() {
    assert!(login_preparing(Some("preparing")));
    assert!(!login_preparing(Some("polling")));
    assert!(!login_preparing(None));
    assert!(login_running(Some("polling")));
    assert!(login_running(Some("preparing")));
    assert!(!login_running(Some("succeeded")));
    assert!(!login_running(None));
}

#[test]
fn session_creation_and_shutdown_outcomes() {
    assert_eq!(created_session_id(Some("abc".into())).unwrap(), "abc");
    match created_session_id(None) {
        Err(Error::Invalid(m)) => assert_eq!(m, "native session response lacks sessionId"),
        _ => panic!(),
    }
    assert!(shutdown_result(0).is_ok());
    match shutdown_result(2) {
        Err(Error::Invalid(m)) => assert_eq!(m, "native engine exited with an error"),
        _ => panic!(),
    }
}
