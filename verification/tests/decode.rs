use agent_runtime::decode::{
    decode_claude_stream_line_events, decode_codex_event_line_events, decode_ndjson_line_events,
    extract_codex_json_final_text, extract_copilot_json_final_text,
    extract_opencode_json_final_text, emitted_flags, ProviderRuntimeEvent,
};
use agent_runtime::json::{JsonNumber, JsonValue};

fn convert(v: &serde_json::Value) -> JsonValue {
    match v {
        serde_json::Value::Null => JsonValue::Null,
        serde_json::Value::Bool(b) => JsonValue::Bool(*b),
        serde_json::Value::Number(n) => JsonValue::Number(if let Some(u) = n.as_u64() {
            JsonNumber::PosInt(u)
        } else if let Some(i) = n.as_i64() {
            JsonNumber::NegInt(i)
        } else {
            JsonNumber::Float(n.to_string())
        }),
        serde_json::Value::String(s) => JsonValue::String(s.clone()),
        serde_json::Value::Array(items) => JsonValue::Array(items.iter().map(convert).collect()),
        serde_json::Value::Object(map) => {
            JsonValue::Object(map.iter().map(|(k, v)| (k.clone(), convert(v))).collect())
        }
    }
}

fn line(text: &str) -> Option<JsonValue> {
    serde_json::from_str::<serde_json::Value>(text).ok().map(|v| convert(&v))
}

fn json_lines(stdout: &str) -> Vec<JsonValue> {
    stdout.lines().filter_map(line).collect()
}

fn texts(events: &[ProviderRuntimeEvent]) -> Vec<(String, bool)> {
    events
        .iter()
        .filter_map(|e| match e {
            ProviderRuntimeEvent::Text { content, is_partial } => Some((content.clone(), *is_partial)),
            _ => None,
        })
        .collect()
}

#[test]
fn copilot_json_final_text_picks_last_root_assistant_message() {
    let stdout = r#"{"type":"assistant.message","data":{"messageId":"m1","content":"I will inspect it.","toolRequests":[{"name":"shell"}]}}
{"type":"tool.completed","data":{"toolCallId":"t1","content":"done"}}
{"type":"assistant.message","data":{"messageId":"m2","content":"Final answer\n"}}
"#;
    assert_eq!(extract_copilot_json_final_text(&json_lines(stdout)), Some("Final answer".into()));
}

#[test]
fn copilot_json_final_text_ignores_subagent_messages() {
    let stdout = r#"{"agentId":"sub_1","type":"assistant.message","data":{"messageId":"m1","content":"Sub-agent detail"}}
{"type":"assistant.message","data":{"messageId":"m2","content":"Root answer"}}
"#;
    assert_eq!(extract_copilot_json_final_text(&json_lines(stdout)), Some("Root answer".into()));
}

#[test]
fn copilot_json_final_text_ignores_hidden_phases() {
    let stdout = r#"{"type":"assistant.message","data":{"messageId":"m1","phase":"thinking","content":"Private reasoning"}}
{"agentId":null,"type":"assistant.message","data":{"messageId":"m2","content":"Visible answer"}}
"#;
    assert_eq!(extract_copilot_json_final_text(&json_lines(stdout)), Some("Visible answer".into()));
}

#[test]
fn copilot_json_final_text_falls_back_to_deltas() {
    let stdout = r#"{"type":"assistant.message_delta","data":{"messageId":"m1","deltaContent":"hello"}}
{"type":"assistant.message_delta","data":{"messageId":"m1","deltaContent":" world"}}
"#;
    assert_eq!(extract_copilot_json_final_text(&json_lines(stdout)), Some("hello world".into()));
}

#[test]
fn copilot_json_final_text_skips_parent_tool_call_messages() {
    let stdout = r#"{"type":"assistant.message","data":{"parentToolCallId":"c1","content":"nested"}}
{"type":"assistant.message","data":{"phase":"REASONING","content":"hidden"}}
"#;
    assert_eq!(extract_copilot_json_final_text(&json_lines(stdout)), None);
}

#[test]
fn codex_json_final_text_picks_task_complete_message() {
    let stdout = r#"{"type":"session_configured","session_id":"s1"}
{"type":"agent_message_content_delta","delta":"draft"}
{"type":"task_complete","last_agent_message":"Final answer\n"}
"#;
    assert_eq!(extract_codex_json_final_text(&json_lines(stdout)), Some("Final answer".into()));
}

#[test]
fn codex_json_final_text_reads_completed_message_item() {
    let stdout = r#"{"type":"item_completed","item":{"type":"message","role":"assistant","content":[{"type":"output_text","text":"Hello"},{"type":"output_text","text":" world"}]}}
"#;
    assert_eq!(extract_codex_json_final_text(&json_lines(stdout)), Some("Hello world".into()));
}

#[test]
fn codex_json_final_text_reads_codex_0130_item_completed() {
    let stdout = r#"Reading additional input from stdin...
{"type":"thread.started","thread_id":"019e1a84-3d53-7512-b9ef-c7cfb437ae6b"}
{"type":"turn.started"}
{"type":"item.completed","item":{"id":"item_0","type":"agent_message","text":"OK"}}
{"type":"turn.completed","usage":{"input_tokens":1,"cached_input_tokens":0,"output_tokens":1,"reasoning_output_tokens":0}}
"#;
    assert_eq!(extract_codex_json_final_text(&json_lines(stdout)), Some("OK".into()));
}

#[test]
fn codex_json_final_text_reads_nested_agent_message() {
    let stdout = r#"{"type":"agent_message","message":{"type":"message","role":"assistant","content":[{"type":"output_text","text":"Nested answer"}]}}
"#;
    assert_eq!(extract_codex_json_final_text(&json_lines(stdout)), Some("Nested answer".into()));
}

#[test]
fn codex_json_final_text_falls_back_to_deltas() {
    let stdout = r#"{"type":"agent_message_content_delta","delta":"hello"}
{"type":"agent_message_content_delta","delta":" world"}
"#;
    assert_eq!(extract_codex_json_final_text(&json_lines(stdout)), Some("hello world".into()));
}

#[test]
fn codex_json_final_text_ignores_user_role_items() {
    let stdout = r#"{"type":"item.completed","item":{"type":"message","role":"user","text":"question"}}
"#;
    assert_eq!(extract_codex_json_final_text(&json_lines(stdout)), None);
}

#[test]
fn opencode_json_final_text_prefers_assistant_message() {
    let stdout = r#"{"type":"message.part.updated","properties":{"part":{"id":"p1","type":"text","text":"partial"}}}
{"type":"message.updated","properties":{"info":{"role":"user","text":"question"}}}
{"type":"message.updated","properties":{"info":{"role":"assistant","parts":[{"type":"text","text":"Full "},{"type":"text","text":"answer"}]}}}
"#;
    assert_eq!(extract_opencode_json_final_text(&json_lines(stdout)), Some("Full answer".into()));
}

#[test]
fn opencode_json_final_text_joins_latest_part_texts() {
    let stdout = r#"{"type":"message.part.updated","part":{"id":"a","type":"text","text":"one"}}
{"type":"message.part.updated","part":{"id":"b","type":"text","text":" two"}}
{"type":"message.part.updated","part":{"id":"a","type":"text","text":"ONE"}}
{"type":"message.part.updated","part":{"type":"reasoning","text":"hidden"}}
"#;
    assert_eq!(extract_opencode_json_final_text(&json_lines(stdout)), Some("ONE two".into()));
}

#[test]
fn opencode_json_final_text_falls_back_to_deltas() {
    let stdout = r#"{"type":"message.part.delta","part":{"delta":"hel"}}
{"type":"message.part.delta","part":{"textDelta":"lo"}}
"#;
    assert_eq!(extract_opencode_json_final_text(&json_lines(stdout)), Some("hello".into()));
}

#[test]
fn claude_stream_assistant_text_is_a_complete_message() {
    let l = r#"{"type":"assistant","message":{"content":[{"type":"text","text":"I'll inspect it."}]}}"#;
    let events = decode_claude_stream_line_events(line(l));
    assert_eq!(texts(&events), vec![("I'll inspect it.".to_string(), false)]);
}

#[test]
fn claude_stream_tool_use_and_other_frames() {
    let l = r#"{"type":"assistant","message":{"content":[{"type":"tool_use","name":"Bash","input":{"cmd":"ls"}},{"type":"thinking","text":"x"}]}}"#;
    let events = decode_claude_stream_line_events(line(l));
    assert_eq!(events.len(), 1);
    match &events[0] {
        ProviderRuntimeEvent::ToolUse { tool_name, input } => {
            assert_eq!(tool_name, "Bash");
            assert!(matches!(input, JsonValue::Object(fields) if fields.len() == 1 && fields[0].0 == "cmd"));
        }
        other => panic!("unexpected event: {other:?}"),
    }
    assert!(decode_claude_stream_line_events(line(r#"{"type":"result","result":"done"}"#)).is_empty());
    assert!(decode_claude_stream_line_events(None).is_empty());
}

#[test]
fn codex_stream_item_completed_emits_complete_messages() {
    let first = r#"{"type":"item.completed","item":{"id":"item_1","type":"agent_message","text":"First"}}"#;
    let final_msg = r#"{"type":"item.completed","item":{"id":"item_2","type":"agent_message","text":"Final"}}"#;
    let mut messages = Vec::new();
    for l in [first, final_msg] {
        for (content, partial) in texts(&decode_codex_event_line_events(line(l))) {
            assert!(!partial);
            messages.push(content);
        }
    }
    assert_eq!(messages, vec!["First", "Final"]);
}

#[test]
fn codex_stream_errors_and_tool_calls() {
    let err = decode_codex_event_line_events(line(r#"{"type":"stream_error","error":{"message":"boom"}}"#));
    assert!(matches!(&err[..], [ProviderRuntimeEvent::Error { message }] if message == "boom"));
    let err = decode_codex_event_line_events(line(r#"{"type":"stream_error"}"#));
    assert!(matches!(&err[..], [ProviderRuntimeEvent::Error { message }] if message == "codex stream error"));
    let tool = decode_codex_event_line_events(line(r#"{"type":"tool_call","name":"shell"}"#));
    assert!(matches!(&tool[..], [ProviderRuntimeEvent::ToolUse { tool_name, input: JsonValue::Null }] if tool_name == "shell"));
}

#[test]
fn ndjson_frames_decode_to_runtime_events() {
    let text = decode_ndjson_line_events(line(r#"{"type":"text","text":"hi"}"#));
    assert_eq!(texts(&text), vec![("hi".to_string(), true)]);
    let status = decode_ndjson_line_events(line(r#"{"type":"status","status":"working"}"#));
    assert!(matches!(&status[..], [ProviderRuntimeEvent::Status { status }] if status == "working"));
    let err = decode_ndjson_line_events(line(r#"{"type":"error"}"#));
    assert!(matches!(&err[..], [ProviderRuntimeEvent::Error { message }] if message == "ndjson error frame"));
    let tool = decode_ndjson_line_events(line(r#"{"type":"tool","name":"grep","input":[1]}"#));
    assert!(matches!(&tool[..], [ProviderRuntimeEvent::ToolUse { tool_name, input: JsonValue::Array(items) }] if tool_name == "grep" && items.len() == 1));
    assert!(decode_ndjson_line_events(line(r#"{"type":"done"}"#)).is_empty());
    assert!(decode_ndjson_line_events(line("not json")).is_empty());
}

#[test]
fn emitted_flags_report_text_and_finish() {
    let events = vec![
        ProviderRuntimeEvent::Status { status: "s".into() },
        ProviderRuntimeEvent::Text { content: "t".into(), is_partial: true },
    ];
    let f = emitted_flags(&events);
    assert!(f.emitted_text && !f.emitted_finish);
    let f = emitted_flags(&vec![ProviderRuntimeEvent::Finished { success: true, summary: String::new() }]);
    assert!(!f.emitted_text && f.emitted_finish);
    let f = emitted_flags(&Vec::new());
    assert!(!f.emitted_text && !f.emitted_finish);
}
