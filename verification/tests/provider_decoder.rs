use agent_runtime::decode::ProviderRuntimeEvent;
use agent_runtime::json::{JsonCondition, JsonNumber, JsonValue};
use agent_runtime::outcome::CommandOutputFormat;
use agent_runtime::provider_decoder::{
    capture_decoder_session_id, decode_decoder_event_line, extract_decoder_final_text,
    output_format, reduce_with_fallback, validate_decoder_spec, ProviderDecoderCaptureSpec,
    ProviderDecoderEmitSpec, ProviderDecoderEventSpec, ProviderDecoderSpec, ProviderJsonlReduceSpec,
    ProviderJsonlTextReducerSpec,
};

fn convert(v: &serde_json::Value) -> JsonValue {
    match v {
        serde_json::Value::Null => JsonValue::Null,
        serde_json::Value::Bool(b) => JsonValue::Bool(*b),
        serde_json::Value::Number(n) => JsonValue::Number(if let Some(u) = n.as_u64() {
            JsonNumber::PosInt(u)
        } else if let Some(i) = n.as_i64() {
            JsonNumber::NegInt(i)
        } else {
            JsonNumber::Float(n.to_string())
        }),
        serde_json::Value::String(s) => JsonValue::String(s.clone()),
        serde_json::Value::Array(items) => JsonValue::Array(items.iter().map(convert).collect()),
        serde_json::Value::Object(map) => {
            JsonValue::Object(map.iter().map(|(k, v)| (k.clone(), convert(v))).collect())
        }
    }
}

fn parse(text: &str) -> Option<JsonValue> {
    serde_json::from_str::<serde_json::Value>(text).ok().map(|v| convert(&v))
}

fn jsonl(stdout: &str) -> Vec<JsonValue> {
    stdout.lines().filter_map(parse).collect()
}

fn whole(stdout: &str) -> Vec<JsonValue> {
    parse(stdout).into_iter().collect()
}

fn condition(path: &str) -> JsonCondition {
    JsonCondition {
        all: Vec::new(),
        any: Vec::new(),
        not: None,
        path: Some(path.into()),
        exists: None,
        absent_or_null: None,
        not_empty: None,
        equals: None,
        not_equals: None,
        in_values: None,
        not_in: None,
    }
}

fn equals(path: &str, value: &str) -> JsonCondition {
    let mut c = condition(path);
    c.equals = Some(JsonValue::String(value.into()));
    c
}

fn emit(emit_type: &str) -> ProviderDecoderEmitSpec {
    ProviderDecoderEmitSpec {
        emit_type: emit_type.into(),
        text: None,
        tool_name: None,
        input: None,
        input_literal: None,
        status: None,
        message: None,
        summary: None,
        partial: None,
        success: None,
    }
}

fn reducer(mode: &str, path: &str) -> ProviderJsonlTextReducerSpec {
    ProviderJsonlTextReducerSpec { mode: mode.into(), path: path.into(), when: None, fallback: None }
}

fn decoder(format: &str) -> ProviderDecoderSpec {
    ProviderDecoderSpec { format: format.into(), name: None, events: Vec::new(), reduce: None, capture: None }
}

fn rules_decoder() -> ProviderDecoderSpec {
    let mut d = decoder("jsonl");
    let mut text = emit("text");
    text.text = Some("$.text".into());
    text.partial = Some(false);
    let mut status = emit("status");
    status.status = Some("$.status".into());
    let mut tool = emit("tool_use");
    tool.tool_name = Some("$.name".into());
    tool.input = Some("$.input".into());
    let mut error = emit("error");
    error.message = Some("$.message".into());
    let mut finish = emit("finish");
    finish.success = Some(true);
    finish.summary = Some("$.summary".into());
    d.events = vec![
        ProviderDecoderEventSpec { when: Some(equals("$.type", "text")), emit: text },
        ProviderDecoderEventSpec { when: Some(equals("$.type", "status")), emit: status },
        ProviderDecoderEventSpec { when: Some(equals("$.type", "tool")), emit: tool },
        ProviderDecoderEventSpec { when: Some(equals("$.type", "error")), emit: error },
        ProviderDecoderEventSpec { when: Some(equals("$.type", "done")), emit: finish },
    ];
    d
}

fn decode_one(d: &ProviderDecoderSpec, line: &str) -> Vec<ProviderRuntimeEvent> {
    decode_decoder_event_line(d, parse(line).as_ref()).expect("decoder has rules")
}

#[test]
fn provider_jsonl_events_emit_text_status_tool_error_and_finish() {
    let d = rules_decoder();
    let text = decode_one(&d, r#"{"type":"text","text":"hello"}"#);
    assert!(matches!(&text[..], [ProviderRuntimeEvent::Text { content, is_partial: false }] if content == "hello"));
    let status = decode_one(&d, r#"{"type":"status","status":"working"}"#);
    assert!(matches!(&status[..], [ProviderRuntimeEvent::Status { status }] if status == "working"));
    let tool = decode_one(&d, r#"{"type":"tool","name":"shell","input":{"cmd":"ls"}}"#);
    match &tool[..] {
        [ProviderRuntimeEvent::ToolUse { tool_name, input: JsonValue::Object(fields) }] => {
            assert_eq!(tool_name, "shell");
            assert!(matches!(&fields[..], [(k, JsonValue::String(v))] if k == "cmd" && v == "ls"));
        }
        other => panic!("unexpected events: {other:?}"),
    }
    let error = decode_one(&d, r#"{"type":"error","message":"bad"}"#);
    assert!(matches!(&error[..], [ProviderRuntimeEvent::Error { message }] if message == "bad"));
    let finish = decode_one(&d, r#"{"type":"done","summary":"ok"}"#);
    assert!(matches!(&finish[..], [ProviderRuntimeEvent::Finished { success: true, summary }] if summary == "ok"));
}

#[test]
fn provider_decoder_without_rules_or_json_gives_nothing() {
    assert!(decode_decoder_event_line(&decoder("jsonl"), parse(r#"{"a":1}"#).as_ref()).is_none());
    assert!(decode_decoder_event_line(&rules_decoder(), None).is_none());
    assert!(decode_one(&rules_decoder(), r#"{"type":"other"}"#).is_empty());
}

#[test]
fn provider_decoder_literal_templates_and_defaults() {
    let mut d = decoder("jsonl");
    let mut tool = emit("tool");
    tool.tool_name = Some("bash".into());
    tool.input = Some("plain words".into());
    let error = emit("error");
    let mut finish = emit("finished");
    finish.message = Some("$.why".into());
    d.events = vec![
        ProviderDecoderEventSpec { when: None, emit: tool },
        ProviderDecoderEventSpec { when: None, emit: error },
        ProviderDecoderEventSpec { when: None, emit: finish },
    ];
    let events = decode_one(&d, r#"{"why":"all good"}"#);
    assert_eq!(events.len(), 3);
    assert!(matches!(&events[0], ProviderRuntimeEvent::ToolUse { tool_name, input: JsonValue::String(s) } if tool_name == "bash" && s == "plain words"));
    assert!(matches!(&events[1], ProviderRuntimeEvent::Error { message } if message == "provider error frame"));
    assert!(matches!(&events[2], ProviderRuntimeEvent::Finished { success: true, summary } if summary == "all good"));
}

#[test]
fn provider_jsonl_reducer_concats_wildcard_values() {
    let r = reducer("concat", "$.items[*].text");
    let stdout = r#"{"items":[{"text":"hello "},{"text":"world"}]}"#;
    assert_eq!(reduce_with_fallback(&jsonl(stdout), &r), Some("hello world".into()));
}

#[test]
fn provider_jsonl_reducer_first_last_and_fallback() {
    let stdout = "{\"t\":\" \"}\n{\"t\":\"one\"}\n{\"t\":\"two \"}\n";
    assert_eq!(reduce_with_fallback(&jsonl(stdout), &reducer("firstNonEmpty", "$.t")), Some("one".into()));
    assert_eq!(reduce_with_fallback(&jsonl(stdout), &reducer("lastNonEmpty", "$.t")), Some("two".into()));
    let mut r = reducer("lastNonEmpty", "$.missing");
    r.fallback = Some(Box::new(reducer("first_non_empty", "$.t")));
    assert_eq!(reduce_with_fallback(&jsonl(stdout), &r), Some("one".into()));
    assert_eq!(reduce_with_fallback(&jsonl(stdout), &reducer("concat", "  ")), None);
}

#[test]
fn provider_json_decoder_reads_pretty_json_final_text() {
    let mut d = decoder("json");
    d.reduce = Some(ProviderJsonlReduceSpec { final_text: Some(reducer("lastNonEmpty", "$.result.message")) });
    let stdout = "{\n  \"result\": {\n    \"message\": \"JSON answer\"\n  }\n}";
    assert_eq!(extract_decoder_final_text(Some(&d), &whole(stdout)), Some("JSON answer".into()));
    assert_eq!(extract_decoder_final_text(None, &whole(stdout)), None);
}

#[test]
fn provider_json_decoder_captures_session_from_pretty_json() {
    let mut d = decoder("json");
    d.capture = Some(ProviderDecoderCaptureSpec { session: Some(reducer("lastNonEmpty", "$.meta.session_id")) });
    let stdout = "{\n  \"meta\": {\n    \"session_id\": \"sid_json\"\n  }\n}";
    assert_eq!(capture_decoder_session_id(Some(&d), &whole(stdout)), Some("sid_json".into()));
}

#[test]
fn decoder_capture_session_picks_last_matching_jsonl_value() {
    let mut d = decoder("jsonl");
    let mut r = reducer("lastNonEmpty", "$.session_id");
    let mut when = condition("$.type");
    when.in_values = Some(vec![JsonValue::String("system".into()), JsonValue::String("result".into())]);
    r.when = Some(when);
    d.capture = Some(ProviderDecoderCaptureSpec { session: Some(r) });
    let stdout = "{\"type\":\"debug\",\"session_id\":\"ignored\"}\n\
                  {\"type\":\"system\",\"session_id\":\"first\"}\n\
                  {\"type\":\"result\",\"session_id\":\"second\"}\n";
    assert_eq!(capture_decoder_session_id(Some(&d), &jsonl(stdout)), Some("second".into()));
}

#[test]
fn decoder_formats_map_to_output_formats() {
    let mut d = decoder("builtin");
    d.name = Some("codex_stream_json".into());
    assert_eq!(output_format(&d), Ok(CommandOutputFormat::CodexStreamJson));
    d.name = Some("mystery".into());
    assert_eq!(output_format(&d), Err("unknown builtin decoder `mystery`".into()));
    assert_eq!(output_format(&decoder("json")), Ok(CommandOutputFormat::Text));
    assert_eq!(output_format(&decoder("jsonl")), Ok(CommandOutputFormat::NdjsonLines));
}

#[test]
fn decoder_validation_reports_rule_conditions_and_required_templates() {
    let mut d = decoder("jsonl");
    let mut bad_cond = condition("$.ok");
    bad_cond.all = vec![condition("$..bad")];
    d.events = vec![
        ProviderDecoderEventSpec { when: None, emit: { let mut e = emit("text"); e.text = Some("$.t".into()); e } },
        ProviderDecoderEventSpec { when: Some(bad_cond), emit: emit("text") },
    ];
    let err = validate_decoder_spec("p", "m", "stderr", &d).expect_err("bad condition");
    assert!(err.starts_with("provider `p` mode `m` stderr.events[1].when.all[0].path: "), "{err}");
    let mut d = decoder("jsonl");
    d.events = vec![ProviderDecoderEventSpec { when: None, emit: emit("text") }];
    let err = validate_decoder_spec("p", "m", "stdout", &d).expect_err("missing text");
    assert_eq!(err, "provider `p` mode `m` stdout.events[0].emit text is required");
    let mut d = decoder("jsonl");
    d.events = vec![ProviderDecoderEventSpec { when: None, emit: emit("status") }];
    let err = validate_decoder_spec("p", "m", "stdout", &d).expect_err("status needs a template");
    assert_eq!(err, "provider `p` mode `m` stdout.events[0].emit status event requires `status` or `text`");
    let mut d = decoder("jsonl");
    d.events = vec![ProviderDecoderEventSpec { when: None, emit: emit("  ") }];
    let err = validate_decoder_spec("p", "m", "stdout", &d).expect_err("type required");
    assert_eq!(err, "provider `p` mode `m` stdout.events[0].emit type is required");
}
