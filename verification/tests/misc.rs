use agent_runtime::adapter::is_false;
use agent_runtime::bundle::{
    bundle_version_from, normalized_bundle_version, resolved_bundle_version,
    validate_version_component, AgentBundleSpec,
};
use agent_runtime::health::HealthObserver;
use agent_runtime::json::{
    json_eq, json_path_lookup, json_path_lookup_strings, pointer_get, JsonNumber, JsonValue,
};
use agent_runtime::profile::{resolve_relative, ProfileScaffold};
use agent_runtime::server_url::{agent_child_server_url, local_agent_child_server_url};
use agent_runtime::signature::{command_signature, SessionSignature};
use agent_runtime::paths::providers_dir;

fn convert(v: &serde_json::Value) -> JsonValue {
    match v {
        serde_json::Value::Null => JsonValue::Null,
        serde_json::Value::Bool(b) => JsonValue::Bool(*b),
        serde_json::Value::Number(n) => JsonValue::Number(if let Some(u) = n.as_u64() {
            JsonNumber::PosInt(u)
        } else if let Some(i) = n.as_i64() {
            JsonNumber::NegInt(i)
        } else {
            JsonNumber::Float(n.to_string())
        }),
        serde_json::Value::String(s) => JsonValue::String(s.clone()),
        serde_json::Value::Array(items) => JsonValue::Array(items.iter().map(convert).collect()),
        serde_json::Value::Object(map) => {
            JsonValue::Object(map.iter().map(|(k, v)| (k.clone(), convert(v))).collect())
        }
    }
}

fn json(text: &str) -> JsonValue {
    convert(&serde_json::from_str(text).expect("test json"))
}

#[test]
fn json_path_top_level_string() {
    let v = json(r#"{"session_id":"abc"}"#);
    assert_eq!(json_path_lookup(&v, ".session_id"), Some("abc".into()));
}

#[test]
fn json_path_nested_with_index() {
    let v = json(r#"{"items":[{"id":"first"},{"id":"second"}]}"#);
    assert_eq!(json_path_lookup(&v, ".items[1].id"), Some("second".into()));
}

#[test]
fn json_path_wildcard_returns_values_in_order() {
    let v = json(r#"{"items":[{"id":"first"},{"id":"second"}]}"#);
    assert_eq!(json_path_lookup_strings(&v, "$.items[*].id"), vec!["first".to_string(), "second".to_string()]);
    assert_eq!(json_path_lookup(&v, "$.items[*].id"), Some("first".into()));
}

#[test]
fn json_path_missing_returns_none() {
    let v = json(r#"{"a":1}"#);
    assert!(json_path_lookup(&v, ".b").is_none());
    assert_eq!(json_path_lookup(&v, ".a"), Some("1".into()));
}

#[test]
fn json_pointer_and_equality() {
    let v = json(r#"{"a":{"b":[10,{"c~d":"x"}]}}"#);
    assert!(matches!(pointer_get(&v, "/a/b/1/c~0d"), Some(JsonValue::String(s)) if s == "x"));
    assert!(pointer_get(&v, "/a/b/9").is_none());
    assert!(json_eq(&json(r#"[1,"a",{"k":null}]"#), &json(r#"[1,"a",{"k":null}]"#)));
    assert!(!json_eq(&json(r#"[1]"#), &json(r#"[2]"#)));
}

#[test]
fn resolved_version_uses_source_basename() {
    let bundle = AgentBundleSpec { source: "/tmp/demo-bundle".into(), version: String::new() };
    assert_eq!(resolved_bundle_version(&bundle, "/tmp/demo-bundle"), "demo-bundle");
}

#[test]
fn bundle_versions_are_sanitized() {
    let bundle = AgentBundleSpec { source: "/src".into(), version: " v1.2 beta/3 ".into() };
    assert_eq!(normalized_bundle_version(&bundle, "/src"), "v1.2-beta-3");
    assert_eq!(bundle_version_from("", None), "bundle");
    let none = AgentBundleSpec { source: "  ".into(), version: "v1".into() };
    assert_eq!(resolved_bundle_version(&none, "/x"), "");
}

#[test]
fn prepare_bundle_install_rejects_dotdot_version() {
    let err = validate_version_component("..").expect_err("must reject ..");
    assert_eq!(err, "bundle version `..` is not a safe path component");
    assert!(validate_version_component("v1.0").is_ok());
    assert!(validate_version_component(".").is_err());
}

#[test]
fn creates_memory_layout_on_first_run() {
    let p = ProfileScaffold { profile_dir: "/p", memory_root: "./memory/records" };
    assert_eq!(p.memory_records_dir(), "/p/./memory/records");
}

#[test]
fn absolute_memory_root_is_respected() {
    let p = ProfileScaffold { profile_dir: "/p", memory_root: "/alt/custom-memory" };
    assert_eq!(p.memory_records_dir(), "/alt/custom-memory");
    assert_eq!(resolve_relative("/p", "rel"), "/p/rel");
}

#[test]
fn child_server_url_rewrites_wildcard_and_reachable_hosts() {
    assert_eq!(agent_child_server_url("ws://0.0.0.0:7878/rpc", None, |_| false), "ws://127.0.0.1:7878/rpc");
    assert_eq!(agent_child_server_url("ws://192.168.1.5:7878/rpc", None, |p| p == 7878), "ws://127.0.0.1:7878/rpc");
    assert_eq!(agent_child_server_url("ws://192.168.1.5:7878/rpc", None, |_| false), "ws://192.168.1.5:7878/rpc");
    assert_eq!(agent_child_server_url("ws://localhost:7878/rpc", None, |_| true), "ws://localhost:7878/rpc");
    assert_eq!(agent_child_server_url("wss://0.0.0.0:7878/rpc", None, |_| true), "wss://0.0.0.0:7878/rpc");
    assert_eq!(agent_child_server_url("ws://x:1", Some("ws://override"), |_| true), "ws://override");
    assert_eq!(agent_child_server_url("not a url", Some("  "), |_| true), "not a url");
}

#[test]
fn local_child_server_url_rewrites_any_remote_ws_host() {
    assert_eq!(local_agent_child_server_url("ws://example.com:9000/rpc", None), "ws://127.0.0.1:9000/rpc");
    assert_eq!(local_agent_child_server_url("ws://127.0.0.1:9000/rpc", None), "ws://127.0.0.1:9000/rpc");
}

#[test]
fn command_signature_changes_with_arguments() {
    let a = command_signature("agent", &vec!["-p".into()], None, &Vec::new(), None);
    let b = command_signature("agent", &vec!["-q".into()], None, &Vec::new(), None);
    assert_ne!(a, b);
    assert!(a.starts_with("sha256:"));
    assert_eq!(a, command_signature("agent", &vec!["-p".into()], None, &Vec::new(), None));
}

#[test]
fn health_observer_reports_repetition_once_and_idle_time() {
    let mut h = HealthObserver::new(0);
    for _ in 0..25 {
        h.observe_stdout("same line again", false, 0);
    }
    let first = h.tick(1_000).expect("warning");
    assert_eq!(first, "health: warning [repeating output x25 in last 25 lines]");
    assert_eq!(h.tick(1_000), None);
    let idle = h.tick(70_000).expect("idle report");
    assert_eq!(idle, "health: idle [70s]");
    h.observe_stdout("fresh output", true, 100_000);
    assert_eq!(h.tick(140_000), None);
    h.observe_stdout("x", true, 170_000);
    assert_eq!(h.tick(170_000), Some("health: active".into()));
}

#[test]
fn short_lines_are_not_tracked() {
    let mut h = HealthObserver::new(0);
    for _ in 0..30 {
        h.observe_stdout(" ok ", false, 0);
    }
    assert!(h.recent_hashes.is_empty());
    assert!(is_false(&false));
}

#[test]
fn signature_is_sha256_hex_and_ignores_scope_spelling() {
    let s = |scope: Option<&str>| SessionSignature {
        scope: scope.map(|x| x.to_string()),
        resume_args: Some(vec!["--resume".into()]),
        resume_arg_specs_json: None,
    };
    let sig = |sess: &SessionSignature| command_signature("agent", &vec!["-p".into()], None, &Vec::new(), Some(sess));
    let a = sig(&s(None));
    assert_eq!(a, sig(&s(Some("  "))));
    assert_eq!(a, sig(&s(Some(" actor_scope "))));
    assert_ne!(a, sig(&s(Some("thread"))));
    assert_eq!(a.len(), 71);
    assert!(a.starts_with("sha256:"));
    assert!(a[7..].chars().all(|c| c.is_ascii_digit() || ('a'..='f').contains(&c)));
}

#[test]
fn providers_dir_inserts_one_separator() {
    let p = providers_dir("/cfg");
    assert!(p == "/cfg/providers" || p == "/cfg\\providers");
    assert_eq!(providers_dir("/cfg/"), "/cfg/providers");
}
