use artefact_runtime::session::{ChatSession, SessionManager};

#[test]
fn bounded_history_sliding_window() {
    // Appending H + 3 messages to a fresh session leaves exactly H,
    // the most recent ones, in original order.
    let h = 10;
    let mut session = ChatSession::new(h);
    for k in 0..h + 3 {
        session.add_message("user", &format!("m{}", k));
    }
    assert_eq!(session.history.len(), h);
    for (slot, msg) in session.history.iter().enumerate() {
        assert_eq!(msg.role, "user");
        assert_eq!(msg.content, format!("m{}", slot + 3));
    }
}

#[test]
fn history_under_bound_keeps_everything() {
    let mut session = ChatSession::new(10);
    session.add_message("user", "hi");
    session.add_message("assistant", "hello");
    assert_eq!(session.history.len(), 2);
    assert_eq!(session.history[0].content, "hi");
    assert_eq!(session.history[1].content, "hello");
}

#[test]
fn prompt_renders_one_line_per_message() {
    let mut session = ChatSession::new(10);
    session.add_message("user", "hi");
    session.add_message("assistant", "hello");
    assert_eq!(session.get_prompt(), "user: hi\nassistant: hello\n");
}

#[test]
fn empty_session_renders_empty_prompt() {
    let session = ChatSession::new(10);
    assert_eq!(session.get_prompt(), "");
}

#[test]
fn registry_starts_with_default_session() {
    let mut manager = SessionManager::new();
    assert_eq!(manager.sessions.len(), 1);
    assert_eq!(manager.sessions[0].0, "default");
    let idx = manager.get_session_mut(None);
    assert_eq!(idx, 0);
    assert_eq!(manager.sessions.len(), 1);
}

#[test]
fn registry_creates_sessions_lazily() {
    let mut manager = SessionManager::new();
    let idx = manager.get_session_mut(Some("s1".to_string()));
    assert_eq!(idx, 1);
    assert_eq!(manager.sessions.len(), 2);
    assert_eq!(manager.sessions[1].0, "s1");
    assert!(manager.sessions[1].1.history.is_empty());
    // A second lookup lands on the same session instead of creating one.
    let again = manager.get_session_mut(Some("s1".to_string()));
    assert_eq!(again, 1);
    assert_eq!(manager.sessions.len(), 2);
}

#[test]
fn registry_appends_through_handle() {
    let mut manager = SessionManager::new();
    let idx = manager.get_session_mut(Some("s1".to_string()));
    manager.add_message_to(idx, "user", "hey");
    assert_eq!(manager.sessions[idx].1.history.len(), 1);
    assert_eq!(manager.sessions[idx].1.history[0].role, "user");
    assert_eq!(manager.sessions[idx].1.history[0].content, "hey");
    // The default session is untouched.
    assert!(manager.sessions[0].1.history.is_empty());
    assert_eq!(manager.prompt_of_session(idx), "user: hey\n");
}
