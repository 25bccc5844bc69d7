use agent_runtime::acp::{
    classify_incoming, notification_event_of, prompt_response_finish, unsupported_method_message,
    IncomingKind, extract_permission_choices, compose_action_id, describe_permission_title,
    format_terminal_auth_command, is_auth_required_error, parse_env_entries,
    select_initialize_auth_method, shell_quote, truncate_for_log, TerminalAuthCommand,
};
use agent_runtime::decode::ProviderRuntimeEvent;
use agent_runtime::json::{JsonNumber, JsonValue};

fn convert(v: &serde_json::Value) -> JsonValue {
    match v {
        serde_json::Value::Null => JsonValue::Null,
        serde_json::Value::Bool(b) => JsonValue::Bool(*b),
        serde_json::Value::Number(n) => JsonValue::Number(if let Some(u) = n.as_u64() {
            JsonNumber::PosInt(u)
        } else if let Some(i) = n.as_i64() {
            JsonNumber::NegInt(i)
        } else {
            JsonNumber::Float(n.to_string())
        }),
        serde_json::Value::String(s) => JsonValue::String(s.clone()),
        serde_json::Value::Array(items) => JsonValue::Array(items.iter().map(convert).collect()),
        serde_json::Value::Object(map) => {
            JsonValue::Object(map.iter().map(|(k, v)| (k.clone(), convert(v))).collect())
        }
    }
}

fn json(text: &str) -> JsonValue {
    convert(&serde_json::from_str(text).expect("test json"))
}

fn lookup<'a>(env: &'a [(String, String)], key: &str) -> Option<&'a str> {
    env.iter().rev().find(|(k, _)| k == key).map(|(_, v)| v.as_str())
}

#[test]
fn parse_env_output_ignores_shell_noise_and_reads_nul_records() {
    let stdout =
        b"hello from shell\n__START__\nHOME=/Users/joi\0PATH=/opt/bin:/usr/bin\0\n__END__\n";

    let env = parse_env_entries(stdout, "__START__", "__END__").expect("parse env");

    assert_eq!(lookup(&env, "HOME"), Some("/Users/joi"));
    assert_eq!(lookup(&env, "PATH"), Some("/opt/bin:/usr/bin"));
}

#[test]
fn parse_env_output_rejects_missing_markers() {
    let err = parse_env_entries(b"HOME=/Users/joi\0", "__START__", "__END__")
        .expect_err("must reject missing markers");

    assert!(err.contains("start marker"));
}

#[test]
fn parse_env_output_rejects_missing_end_marker_and_empty_body() {
    let err = parse_env_entries(b"__START__\nHOME=/x\0", "__START__", "__END__")
        .expect_err("must reject missing end marker");
    assert!(err.contains("end marker"));
    let err = parse_env_entries(b"__START__\n\n__END__\n", "__START__", "__END__")
        .expect_err("must reject empty body");
    assert!(err.contains("no KEY=VALUE entries"));
}

#[test]
fn parse_env_output_keeps_equals_signs_in_values() {
    let env = parse_env_entries(b"__START__\r\nA=b=c\0NOEQUALS\0=skip\0\r\n__END__", "__START__", "__END__")
        .expect("parse env");
    assert_eq!(env, vec![("A".to_string(), "b=c".to_string())]);
}

#[test]
fn shell_quote_handles_single_quotes() {
    assert_eq!(shell_quote("/tmp/it's fine"), "'/tmp/it'\\''s fine'");
}

#[test]
fn format_terminal_auth_command_quotes_every_word() {
    let terminal = TerminalAuthCommand {
        command: "/tmp/qodercli".into(),
        args: vec!["--login".into(), "it's".into()],
        env: Vec::new(),
        label: None,
    };
    assert_eq!(format_terminal_auth_command(&terminal), "'/tmp/qodercli' '--login' 'it'\\''s'");
}

#[test]
fn truncate_for_log_keeps_char_boundaries() {
    assert_eq!(truncate_for_log("short", 10), "short");
    assert_eq!(truncate_for_log("héllo wörld", 2), "h…(+12b)");
    assert_eq!(truncate_for_log("héllo wörld", 3), "hé…(+10b)");
}

#[test]
fn select_initialize_auth_method_reads_only_unambiguous_method() {
    let initialize = json(r#"{ "authMethods": [ { "id": "qodercli-login", "name": "Login" } ] }"#);

    assert_eq!(
        select_initialize_auth_method(&initialize, None).map(|method| method.id),
        Some("qodercli-login".to_string())
    );

    let ambiguous = json(r#"{ "authMethods": [ { "id": "one" }, { "id": "two" } ] }"#);
    assert_eq!(select_initialize_auth_method(&ambiguous, None), None);
}

#[test]
fn select_initialize_auth_method_parses_terminal_auth_meta() {
    let initialize = json(
        r#"{
            "authMethods": [
                {
                    "id": "qodercli-login",
                    "name": "Log in",
                    "_meta": {
                        "terminal-auth": {
                            "label": "Qoder CLI Login",
                            "command": "/tmp/qodercli",
                            "args": ["--login"],
                            "env": { "QODER_HOME": "/tmp/qoder" }
                        }
                    }
                }
            ]
        }"#,
    );

    let method =
        select_initialize_auth_method(&initialize, None).expect("select single auth method");

    assert_eq!(method.id, "qodercli-login");
    let terminal = method.terminal_auth.expect("terminal auth");
    assert_eq!(terminal.command, "/tmp/qodercli");
    assert_eq!(terminal.args, vec!["--login"]);
    assert_eq!(lookup(&terminal.env, "QODER_HOME"), Some("/tmp/qoder"));
    assert_eq!(terminal.label.as_deref(), Some("Qoder CLI Login"));
}

#[test]
fn select_initialize_auth_method_keeps_configured_id_when_not_advertised() {
    let initialize = json(r#"{ "authMethods": [] }"#);

    let method = select_initialize_auth_method(&initialize, Some("manual-login"))
        .expect("configured auth method");

    assert_eq!(method.id, "manual-login");
    assert_eq!(method.terminal_auth, None);
}

#[test]
fn auth_required_error_matches_qoder_shape() {
    let shaped = r#"{"code":-32000,"message":"Authentication required"}"#;
    assert!(is_auth_required_error(shaped, Some(&json(shaped))));
    assert!(is_auth_required_error("Authentication required", None));
    let different = r#"{"code":-32000,"message":"different"}"#;
    assert!(!is_auth_required_error(different, Some(&json(different))));
}

#[test]
fn incoming_messages_are_classified() {
    assert_eq!(classify_incoming(&json(r#"{"method":"session/request_permission","id":3}"#)), IncomingKind::Request);
    assert_eq!(classify_incoming(&json(r#"{"method":"session/update"}"#)), IncomingKind::Notification);
    assert_eq!(classify_incoming(&json(r#"{"id":"7","result":{}}"#)), IncomingKind::Response);
    assert_eq!(classify_incoming(&json(r#"{"jsonrpc":"2.0"}"#)), IncomingKind::Ignored);
    assert_eq!(unsupported_method_message("fs/read"), "joi-server does not implement `fs/read`");
}

#[test]
fn session_updates_become_runtime_events() {
    let chunk = json(r#"{"params":{"sessionId":"s","update":{"sessionUpdate":"agent_message_chunk","content":{"type":"text","text":"hi"}}}}"#);
    assert!(matches!(notification_event_of("session/update", &chunk), Some(ProviderRuntimeEvent::Text { content, is_partial: true }) if content == "hi"));
    let tool = json(r#"{"params":{"update":{"sessionUpdate":"tool_call","kind":"edit","toolCallId":"t1"}}}"#);
    match notification_event_of("session/update", &tool) {
        Some(ProviderRuntimeEvent::ToolUse { tool_name, input: JsonValue::Object(fields) }) => {
            assert_eq!(tool_name, "edit");
            assert_eq!(fields.len(), 3);
        }
        other => panic!("unexpected event: {other:?}"),
    }
    assert!(notification_event_of("session/other", &chunk).is_none());
    let plan = json(r#"{"params":{"update":{"sessionUpdate":"plan"}}}"#);
    assert!(notification_event_of("session/update", &plan).is_none());
}

#[test]
fn prompt_responses_finish_turns() {
    assert_eq!(prompt_response_finish(&json(r#"{"id":1,"result":{"stopReason":"end_turn"}}"#)), Some((true, "end_turn".into())));
    assert_eq!(prompt_response_finish(&json(r#"{"id":1,"result":{"stopReason":"cancelled"}}"#)), Some((false, "cancelled".into())));
    assert_eq!(prompt_response_finish(&json(r#"{"id":1,"result":{}}"#)), Some((true, "completed".into())));
    assert_eq!(prompt_response_finish(&json(r#"{"id":1,"error":{"code":1}}"#)), None);
}

#[test]
fn permission_requests_are_described() {
    let options = json(r#"[{"optionId":"allow","name":"Allow"},{"optionId":"deny"},{"name":"no id"}]"#);
    let choices = extract_permission_choices(Some(&options));
    let pairs: Vec<(String, String)> = choices.into_iter().map(|c| (c.id, c.label)).collect();
    assert_eq!(pairs, vec![("allow".into(), "Allow".into()), ("deny".into(), "deny".into())]);
    assert_eq!(compose_action_id("ns", &json("12")), "ns:12");
    assert_eq!(compose_action_id("ns", &json("null")), "ns:unknown");
    assert_eq!(describe_permission_title(&json(r#"{"kind":"execute"}"#)), "Permission required: execute");
    assert_eq!(describe_permission_title(&json("{}")), "Permission required: tool");
}
