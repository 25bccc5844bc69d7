use agent_runtime::capture::{extract_json_path, extract_json_path_any, parse_capture_rule, CaptureRule};
use agent_runtime::json::{JsonNumber, JsonValue};

fn convert(v: &serde_json::Value) -> JsonValue {
    match v {
        serde_json::Value::Null => JsonValue::Null,
        serde_json::Value::Bool(b) => JsonValue::Bool(*b),
        serde_json::Value::Number(n) => JsonValue::Number(if let Some(u) = n.as_u64() {
            JsonNumber::PosInt(u)
        } else if let Some(i) = n.as_i64() {
            JsonNumber::NegInt(i)
        } else {
            JsonNumber::Float(n.to_string())
        }),
        serde_json::Value::String(s) => JsonValue::String(s.clone()),
        serde_json::Value::Array(items) => JsonValue::Array(items.iter().map(convert).collect()),
        serde_json::Value::Object(map) => {
            JsonValue::Object(map.iter().map(|(k, v)| (k.clone(), convert(v))).collect())
        }
    }
}

fn parse(text: &str) -> Option<JsonValue> {
    serde_json::from_str::<serde_json::Value>(text).ok().map(|v| convert(&v))
}

fn capture(stdout: &str, path: &str) -> Option<String> {
    let whole = parse(stdout);
    let lines: Vec<JsonValue> = stdout.lines().filter_map(parse).collect();
    extract_json_path(whole.as_ref(), &lines, path)
}

#[test]
fn capture_reads_the_whole_document_first() {
    let stdout = "{\n  \"session\": { \"id\": \"abc\" }\n}";
    assert_eq!(capture(stdout, ".session.id"), Some("abc".to_string()));
}

#[test]
fn capture_keeps_the_last_matching_line() {
    let stdout = "{\"sid\":\"one\"}\nnot json\n{\"other\":1}\n{\"sid\":\"two\"}\n{\"x\":0}";
    assert_eq!(capture(stdout, ".sid"), Some("two".to_string()));
    assert_eq!(capture(stdout, ".missing"), None);
    assert_eq!(capture("{\"n\": 42}", ".n"), Some("42".to_string()));
}

#[test]
fn capture_any_tries_paths_in_order() {
    let stdout = "{\"a\":\"first\",\"b\":\"second\"}";
    let whole = parse(stdout);
    let lines: Vec<JsonValue> = stdout.lines().filter_map(parse).collect();
    let paths = vec![".b".to_string(), ".a".to_string()];
    assert_eq!(extract_json_path_any(whole.as_ref(), &lines, &paths), Some("second".to_string()));
    let paths = vec![".zz".to_string(), ".a".to_string()];
    assert_eq!(extract_json_path_any(whole.as_ref(), &lines, &paths), Some("first".to_string()));
}

#[test]
fn capture_rules_parse() {
    assert_eq!(parse_capture_rule("stdout_json:.session_id"), Ok(CaptureRule::StdoutJson(vec![".session_id".into()])));
    assert_eq!(parse_capture_rule("stdout_jsonl:last(.sid)"), Ok(CaptureRule::StdoutJson(vec![".sid".into()])));
    assert_eq!(
        parse_capture_rule("stdout_json_any: .a | | .b "),
        Ok(CaptureRule::StdoutJson(vec![".a".into(), ".b".into()]))
    );
    assert_eq!(parse_capture_rule("file:{agent.root}/sid"), Ok(CaptureRule::File("{agent.root}/sid".into())));
    assert_eq!(
        parse_capture_rule("stderr_regex:sid=(\\w+)"),
        Err("stderr_regex first_run_capture not yet implemented".into())
    );
    assert_eq!(parse_capture_rule("stdout_jsonl:last(.sid"), Err("unknown first_run_capture rule: stdout_jsonl:last(.sid".into()));
    assert_eq!(parse_capture_rule("nope"), Err("unknown first_run_capture rule: nope".into()));
}
