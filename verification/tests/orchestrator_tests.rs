use artefact_runtime::embedding::Embedding;
use artefact_runtime::errors::ChatError;
use artefact_runtime::orchestrator::OnnxSystem;

fn zero_embedding() -> Embedding {
    Embedding::new(vec![0, 0, 0]).unwrap()
}

fn history_of<'a>(system: &'a OnnxSystem, id: &str) -> &'a Vec<artefact_runtime::session::Message> {
    let pair = system.sessions.sessions.iter().find(|p| p.0 == id).unwrap();
    &pair.1.history
}

#[test]
fn turn_against_empty_store_skips_context_preamble() {
    let mut system = OnnxSystem::new();
    // Stub embedding extractor: a zero vector against an empty store.
    let (_, prompt) = system.prepare_turn("hello", Some("s1".to_string()), &zero_embedding());
    // Only the raw session prompt reaches generation.
    assert_eq!(prompt, "user: hello\n");
}

#[test]
fn successful_turn_records_messages_and_memory() {
    let mut system = OnnxSystem::new();
    let (_, _prompt) = system.prepare_turn("hello", Some("s1".to_string()), &zero_embedding());
    let result = system.finish_turn(
        "hello",
        Some("s1".to_string()),
        zero_embedding(),
        Ok("hi there".to_string()),
    );
    assert_eq!(result.unwrap(), "hi there");

    let history = history_of(&system, "s1");
    assert_eq!(history.len(), 2);
    assert_eq!(history[0].role, "user");
    assert_eq!(history[0].content, "hello");
    assert_eq!(history[1].role, "assistant");
    assert_eq!(history[1].content, "hi there");

    assert_eq!(system.memory.len(), 1);
    assert_eq!(system.memory.entries[0].text, "hello");
}

#[test]
fn failed_generation_leaves_no_partial_state() {
    let mut system = OnnxSystem::new();
    let (_, _prompt) = system.prepare_turn("hello", Some("s1".to_string()), &zero_embedding());
    let result = system.finish_turn(
        "hello",
        Some("s1".to_string()),
        zero_embedding(),
        Err(ChatError::Inference),
    );
    assert_eq!(result.unwrap_err(), ChatError::Inference);

    // No assistant message was appended and no memory entry recorded.
    let history = history_of(&system, "s1");
    assert_eq!(history.len(), 1);
    assert_eq!(history[0].role, "user");
    assert_eq!(history[0].content, "hello");
    assert_eq!(system.memory.len(), 0);
}

#[test]
fn retrieved_context_precedes_session_prompt() {
    let mut system = OnnxSystem::new();
    let east = Embedding::new(vec![1000, 0]).unwrap();
    system
        .memory
        .add("old note".to_string(), Embedding::new(vec![1000, 0]).unwrap());
    let (_, prompt) = system.prepare_turn("hello", None, &east);
    assert_eq!(
        prompt,
        "Context from memory:\n- old note\n\nuser: hello\n"
    );
}

#[test]
fn missing_session_id_uses_default_session() {
    let mut system = OnnxSystem::new();
    let (idx, _) = system.prepare_turn("hey", None, &zero_embedding());
    assert_eq!(idx, 0);
    assert_eq!(system.sessions.sessions[0].0, "default");
    assert_eq!(system.sessions.sessions[0].1.history.len(), 1);
}
