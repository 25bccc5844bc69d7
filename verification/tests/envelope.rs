use agent_runtime::envelope::{compose_prompt, EnvelopeInput};

#[test]
fn empty_inputs_yield_only_user_message() {
    let (body, sections) = compose_prompt(&EnvelopeInput { user_message: "hello", ..Default::default() });
    assert_eq!(sections.len(), 1);
    assert_eq!(sections[0].name, "user_message");
    assert!(body.contains("=== User message ==="));
    assert!(body.contains("hello"));
}

#[test]
fn full_envelope_orders_sections() {
    let (body, sections) = compose_prompt(&EnvelopeInput {
        bootstrap_memory: "Bootstrap memory:\n- [fact / high] a",
        turn_memory: "Relevant memory:\n- [note / medium] b",
        runtime_context: "=== System: Local time context ===\nCurrent local time: x",
        user_message: "hi",
    });
    let names: Vec<_> = sections.iter().map(|s| s.name.as_str()).collect();
    assert_eq!(names, vec!["bootstrap_memory", "turn_memory", "runtime_context", "user_message"]);
    assert!(body.find("Bootstrap memory").unwrap() < body.find("Relevant memory").unwrap());
    assert!(body.find("Relevant memory").unwrap() < body.find("Local time context").unwrap());
    assert!(body.find("Local time context").unwrap() < body.find("=== User message ===").unwrap());
}

#[test]
fn empty_memory_sections_skipped() {
    let (_, sections) = compose_prompt(&EnvelopeInput {
        bootstrap_memory: "  ",
        turn_memory: "",
        user_message: "hi",
        ..Default::default()
    });
    let names: Vec<_> = sections.iter().map(|s| s.name.as_str()).collect();
    assert_eq!(names, vec!["user_message"]);
}

#[test]
fn runtime_context_precedes_user_message() {
    let (body, sections) = compose_prompt(&EnvelopeInput {
        runtime_context: "=== System: Local time context ===\nCurrent local time: x",
        user_message: "hi",
        ..Default::default()
    });
    let names: Vec<_> = sections.iter().map(|s| s.name.as_str()).collect();
    assert_eq!(names, vec!["runtime_context", "user_message"]);
    assert!(body.find("Local time context").unwrap() < body.find("=== User message ===").unwrap());
}

#[test]
fn whitespace_only_user_message_still_emits_delimiter() {
    let (body, sections) = compose_prompt(&EnvelopeInput { user_message: "", ..Default::default() });
    assert_eq!(sections.len(), 1);
    assert!(body.contains("=== User message ==="));
}

#[test]
fn envelope_body_joins_sections_with_blank_lines() {
    let (body, sections) = compose_prompt(&EnvelopeInput { turn_memory: " m ", user_message: "u", ..Default::default() });
    assert_eq!(body, "m\n\n=== User message ===\nu");
    assert!(sections.iter().all(|s| !s.exempt_reason.is_empty()));
}
