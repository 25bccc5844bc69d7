use agent_runtime::json::{JsonNumber, JsonValue};
use agent_runtime::manifest_patch::{apply_args_patch, apply_env_patch, apply_prompt_patch, merge_manifest_value};

fn convert(v: &serde_json::Value) -> JsonValue {
    match v {
        serde_json::Value::Null => JsonValue::Null,
        serde_json::Value::Bool(b) => JsonValue::Bool(*b),
        serde_json::Value::Number(n) => JsonValue::Number(if let Some(u) = n.as_u64() {
            JsonNumber::PosInt(u)
        } else if let Some(i) = n.as_i64() {
            JsonNumber::NegInt(i)
        } else {
            JsonNumber::Float(n.to_string())
        }),
        serde_json::Value::String(s) => JsonValue::String(s.clone()),
        serde_json::Value::Array(items) => JsonValue::Array(items.iter().map(convert).collect()),
        serde_json::Value::Object(map) => {
            JsonValue::Object(map.iter().map(|(k, v)| (k.clone(), convert(v))).collect())
        }
    }
}

fn back(v: &JsonValue) -> serde_json::Value {
    match v {
        JsonValue::Null => serde_json::Value::Null,
        JsonValue::Bool(b) => serde_json::Value::Bool(*b),
        JsonValue::Number(JsonNumber::PosInt(u)) => serde_json::Value::from(*u),
        JsonValue::Number(JsonNumber::NegInt(i)) => serde_json::Value::from(*i),
        JsonValue::Number(JsonNumber::Float(t)) => serde_json::from_str(t).unwrap(),
        JsonValue::String(s) => serde_json::Value::String(s.clone()),
        JsonValue::Array(items) => serde_json::Value::Array(items.iter().map(back).collect()),
        JsonValue::Object(fields) => {
            serde_json::Value::Object(fields.iter().map(|(k, v)| (k.clone(), back(v))).collect())
        }
    }
}

fn sj(text: &str) -> serde_json::Value {
    serde_json::from_str(text).unwrap()
}

fn json(text: &str) -> JsonValue {
    convert(&serde_json::from_str::<serde_json::Value>(text).unwrap())
}

fn base_manifest() -> JsonValue {
    json(
        r#"{
          "schemaVersion": 1,
          "id": "codex",
          "displayName": "Codex",
          "detect": { "candidates": ["codex"] },
          "modes": {
            "print": {
              "transport": "command",
              "command": "{bin}",
              "args": ["exec", "--json", "{prompt.full}"],
              "env": { "LOOM_NO_DAEMON": "1", "KEEP": "yes" },
              "prompt": { "outputs": { "full": { "preset": "loom_full" } } },
              "stdout": { "format": "builtin", "name": "codex_stream_json" }
            }
          }
        }"#,
    )
}

fn merge_err(patch: &str) -> String {
    merge_manifest_value(base_manifest(), json(patch)).expect_err("patch should fail")
}

#[test]
fn extended_provider_mode_patch_merges_args_env_and_prompt_outputs() {
    let patch = json(
        r#"{
          "schemaVersion": 1,
          "id": "codex_budgeted",
          "displayName": "Codex Budgeted",
          "extends": "codex",
          "modes": {
            "print": {
              "timeoutMs": 12345,
              "env": { "unset": ["LOOM_NO_DAEMON"], "merge": { "EXTRA_FLAG": "1" } },
              "args": { "prepend": ["--prepended"], "append": ["--max-budget-usd", "5"] },
              "prompt": { "outputs": { "diagnostic": { "template": "{actor_context}" } } }
            }
          }
        }"#,
    );
    let merged = back(&merge_manifest_value(base_manifest(), patch).expect("merge"));
    assert_eq!(merged["id"], "codex_budgeted");
    assert_eq!(merged["displayName"], "Codex Budgeted");
    assert_eq!(merged["extends"], "codex");
    assert_eq!(merged["detect"]["candidates"][0], "codex");
    let mode = &merged["modes"]["print"];
    assert_eq!(mode["timeoutMs"], 12345);
    assert_eq!(
        mode["args"],
        sj(r#"["--prepended", "exec", "--json", "{prompt.full}", "--max-budget-usd", "5"]"#)
    );
    assert_eq!(mode["env"]["EXTRA_FLAG"], "1");
    assert_eq!(mode["env"]["KEEP"], "yes");
    assert!(mode["env"].get("LOOM_NO_DAEMON").is_none());
    assert!(mode["prompt"]["outputs"].get("full").is_some());
    assert!(mode["prompt"]["outputs"].get("diagnostic").is_some());
    assert_eq!(mode["stdout"]["name"], "codex_stream_json", "patch must preserve base parser");
}

#[test]
fn extended_provider_patch_rejects_unknown_fields_before_merge() {
    let top_level_err = merge_err(r#"{ "schemaVersion": 1, "id": "x", "extends": "codex", "detcet": { "candidates": ["codex"] } }"#);
    assert!(top_level_err.contains("provider manifest patch contains unknown field `detcet`"), "{top_level_err}");
    let mode_err = merge_err(r#"{ "id": "x", "modes": { "print": { "argz": ["--bad"] } } }"#);
    assert!(mode_err.contains("provider mode patch contains unknown field `argz`"), "{mode_err}");
    let args_err = merge_err(r#"{ "id": "x", "modes": { "print": { "args": { "appned": ["--bad"] } } } }"#);
    assert!(args_err.contains("args patch contains unknown field `appned`"), "{args_err}");
    let prompt_err = merge_err(
        r#"{ "id": "x", "modes": { "print": { "prompt": { "outputs": { "diagnostic": { "template": "{actor_context}" } }, "join": "\n\n" } } } }"#,
    );
    assert!(prompt_err.contains("prompt patch contains unknown field `join`"), "{prompt_err}");
    let env_err = merge_err(r#"{ "id": "x", "modes": { "print": { "env": { "merge": {}, "drop": ["X"] } } } }"#);
    assert!(env_err.contains("env patch contains unknown field `drop`"), "{env_err}");
}

#[test]
fn extended_provider_patch_requires_explicit_patch_shapes_for_existing_modes() {
    let args_err = merge_err(r#"{ "id": "x", "modes": { "print": { "args": ["--bad"] } } }"#);
    assert!(args_err.contains("args patch must be an object; use args.replace"), "{args_err}");
    let env_err = merge_err(r#"{ "id": "x", "modes": { "print": { "env": { "EXTRA_FLAG": "1" } } } }"#);
    assert!(env_err.contains("env patch must use merge and/or unset"), "{env_err}");
    let prompt_err = merge_err(r#"{ "id": "x", "modes": { "print": { "prompt": { "outputsWrong": {} } } } }"#);
    assert!(prompt_err.contains("prompt patch contains unknown field `outputsWrong`"), "{prompt_err}");
}

#[test]
fn merge_shapes_and_new_modes() {
    assert_eq!(
        merge_manifest_value(json("[]"), json("{}")).err(),
        Some("base provider manifest must be an object".to_string())
    );
    assert_eq!(
        merge_manifest_value(base_manifest(), json("[]")).err(),
        Some("provider manifest patch must be an object".to_string())
    );
    assert_eq!(merge_err(r#"{ "detect": ["codex"] }"#), "detect patch must be an object");
    assert_eq!(merge_err(r#"{ "detect": { "paths": [] } }"#), "detect patch contains unknown field `paths`");
    assert_eq!(merge_err(r#"{ "modes": [] }"#), "modes patch must be an object");
    assert_eq!(
        merge_manifest_value(json(r#"{ "modes": 3 }"#), json(r#"{ "modes": {} }"#)).err(),
        Some("base provider modes must be an object".to_string())
    );
    let merged = back(
        &merge_manifest_value(base_manifest(), json(r#"{ "modes": { "chat": { "transport": "acp", "command": "x" } } }"#))
            .unwrap(),
    );
    assert_eq!(merged["modes"]["chat"]["transport"], "acp");
    assert_eq!(merged["modes"]["print"]["args"][0], "exec");
    assert_eq!(merged["id"], "codex");
}

#[test]
fn args_patches_replace_and_reject_non_arrays() {
    let mut base = vec![("args".to_string(), json(r#"["a"]"#))];
    apply_args_patch(&mut base, json(r#"{ "replace": ["b", "c"] }"#)).unwrap();
    assert_eq!(back(&base[0].1), sj(r#"["b", "c"]"#));
    let mut base = vec![("args".to_string(), json(r#""not an array""#))];
    apply_args_patch(&mut base, json(r#"{ "append": ["z"] }"#)).unwrap();
    assert_eq!(back(&base.iter().find(|(k, _)| k == "args").unwrap().1), sj(r#"["z"]"#));
    let mut base = Vec::new();
    assert_eq!(apply_args_patch(&mut base, json(r#"{ "replace": "x" }"#)), Err("args.replace must be an array".to_string()));
    assert_eq!(apply_args_patch(&mut base, json(r#"{ "prepend": 1 }"#)), Err("args.prepend must be an array".to_string()));
    assert_eq!(apply_args_patch(&mut base, json(r#"{ "append": {} }"#)), Err("args.append must be an array".to_string()));
    assert_eq!(apply_args_patch(&mut base, json("true")), Err("args patch must be an array or object".to_string()));
}

#[test]
fn env_and_prompt_patch_shapes() {
    let mut base = vec![("env".to_string(), json(r#"{ "A": "1" }"#))];
    assert_eq!(apply_env_patch(&mut base, json("{}")), Ok(()));
    assert_eq!(back(&base[0].1), sj(r#"{ "A": "1" }"#));
    assert_eq!(apply_env_patch(&mut base, json("[]")), Err("env patch must be an object".to_string()));
    assert_eq!(apply_env_patch(&mut base, json(r#"{ "unset": "A" }"#)), Err("env.unset must be an array".to_string()));
    assert_eq!(apply_env_patch(&mut base, json(r#"{ "unset": [1] }"#)), Err("env.unset entries must be strings".to_string()));
    assert_eq!(apply_env_patch(&mut base, json(r#"{ "merge": [] }"#)), Err("env.merge must be an object".to_string()));
    let mut base = vec![("prompt".to_string(), json("3"))];
    assert_eq!(
        apply_prompt_patch(&mut base, json(r#"{ "outputs": {} }"#)),
        Err("base prompt must be an object".to_string())
    );
    let mut base = vec![("prompt".to_string(), json(r#"{ "outputs": [] }"#))];
    assert_eq!(
        apply_prompt_patch(&mut base, json(r#"{ "workspaceFiles": {} }"#)),
        Err("prompt.workspaceFiles must be an array".to_string())
    );
    let mut base = vec![("prompt".to_string(), json(r#"{ "outputs": [] }"#))];
    assert_eq!(
        apply_prompt_patch(&mut base, json(r#"{ "outputs": {} }"#)),
        Err("base prompt.outputs must be an object".to_string())
    );
    let mut base = Vec::new();
    assert_eq!(apply_prompt_patch(&mut base, json(r#"{ "outputs": 1 }"#)), Err("prompt.outputs must be an object".to_string()));
    let mut base = Vec::new();
    apply_prompt_patch(&mut base, json(r#"{ "workspaceFiles": [] }"#)).unwrap();
    assert_eq!(back(&base[0].1), sj(r#"{ "workspaceFiles": [] }"#));
}

#[test]
fn empty_patch_keeps_the_manifest() {
    let merged = merge_manifest_value(base_manifest(), json("{}")).unwrap();
    assert_eq!(back(&merged), back(&base_manifest()));
}
