use agent_runtime::command::last_runtime_error_summary;
use agent_runtime::argv::{
    expand_argv, expand_first_run_argv, expand_template_inner, AdapterPrompt, CommandArgs,
    PromptVia, ProviderArgSpec, ProviderConditionalArgSpec, ScopeKind, ScopeRef,
};
use agent_runtime::command::{
    is_batch_file, looks_like_session_lost, looks_like_signed_thinking_replay_error,
    sanitize_batch_args, truncate_for_summary,
};
use agent_runtime::signature::command_signature_for_prompt;

const BASE_SIGNATURE: &str = "sha256:test";

fn cfg() -> CommandArgs {
    CommandArgs {
        actor_id: "actor_demo".into(),
        args: vec!["-n".into()],
        arg_specs: Vec::new(),
        model_args: Vec::new(),
        prompt_via: PromptVia::Args,
    }
}

fn scope() -> ScopeRef {
    ScopeRef { kind: ScopeKind::Thread, id: "thr_xyz".into() }
}

fn prompt(content: &str) -> AdapterPrompt {
    AdapterPrompt {
        scope: scope(),
        content: content.into(),
        outputs: vec![("full".into(), content.into())],
        model: None,
        template_vars: Vec::new(),
    }
}

fn insert(map: &mut Vec<(String, String)>, key: &str, value: &str) {
    match map.iter().position(|(k, _)| k == key) {
        Some(i) => map[i].1 = value.into(),
        None => {
            let at = map.iter().position(|(k, _)| k.as_str() > key).unwrap_or(map.len());
            map.insert(at, (key.into(), value.into()));
        }
    }
}

#[test]
fn command_signature_includes_prompt_model() {
    let mut request = prompt("hello");
    assert_eq!(command_signature_for_prompt(BASE_SIGNATURE, &request), BASE_SIGNATURE);

    request.model = Some("model_a".into());
    let model_a = command_signature_for_prompt(BASE_SIGNATURE, &request);
    request.model = Some("model_b".into());
    let model_b = command_signature_for_prompt(BASE_SIGNATURE, &request);

    assert_ne!(model_a, BASE_SIGNATURE);
    assert_ne!(model_a, model_b);

    request.model = None;
    insert(&mut request.template_vars, "reasoningEffort", "high");
    let high = command_signature_for_prompt(BASE_SIGNATURE, &request);
    insert(&mut request.template_vars, "reasoningEffort", "low");
    let low = command_signature_for_prompt(BASE_SIGNATURE, &request);

    assert_ne!(high, BASE_SIGNATURE);
    assert_ne!(high, low);
}

#[test]
fn command_signature_for_prompt_is_a_sha256_digest() {
    let mut request = prompt("hello");
    request.model = Some("model_a".into());
    let sig = command_signature_for_prompt(BASE_SIGNATURE, &request);
    assert!(sig.starts_with("sha256:"));
    assert_eq!(sig.len(), "sha256:".len() + 64);
    assert_eq!(sig, command_signature_for_prompt(BASE_SIGNATURE, &request));
}

#[test]
fn argv_inserts_model_args_before_prompt_argument() {
    let mut cfg = cfg();
    cfg.model_args = vec!["--model".into(), "{model}".into()];
    let mut request = prompt("hello");
    request.model = Some("model_a".into());

    let argv = expand_first_run_argv(&cfg, &request, None, "hello");

    assert_eq!(
        argv,
        vec!["-n".to_string(), "--model".to_string(), "model_a".to_string(), "hello".to_string()]
    );
}

#[test]
fn argv_inserts_model_args_before_prompt_flag_value() {
    let mut cfg = cfg();
    cfg.args = vec!["--json".into(), "-p".into()];
    cfg.model_args = vec!["--model".into(), "{model}".into()];
    let mut request = prompt("hello");
    request.model = Some("model_a".into());

    let argv = expand_first_run_argv(&cfg, &request, None, "hello");

    assert_eq!(
        argv,
        vec![
            "--json".to_string(),
            "--model".to_string(),
            "model_a".to_string(),
            "-p".to_string(),
            "hello".to_string(),
        ]
    );
}

#[test]
fn argv_omits_model_args_without_selected_model() {
    let mut cfg = cfg();
    cfg.model_args = vec!["--model".into(), "{model}".into()];

    let argv = expand_first_run_argv(&cfg, &prompt("hello"), None, "hello");

    assert_eq!(argv, vec!["-n".to_string(), "hello".to_string()]);
}

#[test]
fn provider_arg_specs_expand_conditionals_in_manifest_order() {
    let mut cfg = cfg();
    cfg.args = vec!["legacy".into()];
    cfg.model_args = vec!["--legacy-model".into(), "{model}".into()];
    cfg.arg_specs = vec![
        ProviderArgSpec::Literal("run".into()),
        ProviderArgSpec::Conditional(ProviderConditionalArgSpec {
            when: "model".into(),
            args: vec![
                ProviderArgSpec::Literal("--model".into()),
                ProviderArgSpec::Literal("{model}".into()),
            ],
        }),
        ProviderArgSpec::Conditional(ProviderConditionalArgSpec {
            when: "reasoningEffort".into(),
            args: vec![
                ProviderArgSpec::Literal("--effort".into()),
                ProviderArgSpec::Literal("{reasoningEffort}".into()),
            ],
        }),
        ProviderArgSpec::Literal("{prompt.full}".into()),
    ];
    let mut request = prompt("fallback prompt");
    request.model = Some("model_a".into());
    insert(&mut request.template_vars, "reasoningEffort", "high");
    insert(&mut request.outputs, "full", "rendered full prompt");

    let argv = expand_first_run_argv(&cfg, &request, None, "fallback prompt");

    assert_eq!(
        argv,
        vec![
            "run".to_string(),
            "--model".to_string(),
            "model_a".to_string(),
            "--effort".to_string(),
            "high".to_string(),
            "rendered full prompt".to_string(),
        ]
    );
}

#[test]
fn provider_arg_specs_omit_false_conditionals_without_implicit_prompt_append() {
    let mut cfg = cfg();
    cfg.arg_specs = vec![
        ProviderArgSpec::Literal("run".into()),
        ProviderArgSpec::Conditional(ProviderConditionalArgSpec {
            when: "model".into(),
            args: vec![
                ProviderArgSpec::Literal("--model".into()),
                ProviderArgSpec::Literal("{model}".into()),
            ],
        }),
        ProviderArgSpec::Literal("{prompt.full}".into()),
    ];
    let mut request = prompt("fallback prompt");
    insert(&mut request.outputs, "full", "full");

    let argv = expand_first_run_argv(&cfg, &request, None, "fallback prompt");

    assert_eq!(argv, vec!["run".to_string(), "full".to_string()]);
}

#[test]
fn template_expands_scope_and_session_and_prompt() {
    let request = prompt("hello world");
    let out = expand_template_inner(
        "--resume {session_id} --scope {scope.id} -- {prompt}",
        "actor_demo",
        &request,
        Some("sid_42"),
        "hello world",
        false,
    );
    assert_eq!(out, "--resume sid_42 --scope thr_xyz -- hello world");
}

#[test]
fn first_run_argv_appends_prompt_when_args_mode() {
    let argv = expand_first_run_argv(&cfg(), &prompt("what time is it"), None, "what time is it");
    assert_eq!(argv, vec!["-n", "what time is it"]);
}

#[test]
fn first_run_argv_does_not_double_append_when_template_has_prompt() {
    let mut cfg = cfg();
    cfg.args = vec!["--input".into(), "{prompt}".into()];
    let argv = expand_first_run_argv(&cfg, &prompt("hi"), None, "hi");
    assert_eq!(argv, vec!["--input", "hi"]);
}

#[test]
fn first_run_argv_strips_prompt_arguments_for_stdin_delivery() {
    let mut cfg = cfg();
    cfg.args = vec!["--input".into(), "{prompt}".into(), "-v".into()];
    cfg.prompt_via = PromptVia::Stdin;
    let argv = expand_first_run_argv(&cfg, &prompt("hi"), None, "hi");
    assert!(!argv.iter().any(|a| a == "hi"));
}

#[test]
fn resume_argv_expands_session_id() {
    let template = vec!["--resume".to_string(), "{session_id}".to_string(), "{prompt}".to_string()];
    let argv = expand_argv(&template, &cfg(), &prompt("go"), Some("sid_9"), "go");
    assert_eq!(argv, vec!["--resume", "sid_9", "go"]);
}

#[test]
fn template_expands_request_vars_late() {
    let mut request = prompt("hello");
    insert(&mut request.template_vars, "agent.workspace", "/tmp/channel/actor/workspace");
    insert(&mut request.template_vars, "agent.bundle", "/tmp/actor/bundles/current");
    let out = expand_template_inner(
        "{agent.workspace}:{agent.bundle}:{scope.id}",
        "actor_demo",
        &request,
        None,
        "",
        false,
    );
    assert_eq!(out, "/tmp/channel/actor/workspace:/tmp/actor/bundles/current:thr_xyz");
}

#[test]
fn template_expands_provider_runtime_aliases_from_request_vars() {
    let mut request = prompt("hello");
    insert(&mut request.template_vars, "loom.server", "ws://server/rpc");
    insert(&mut request.template_vars, "loom.run.id", "run_1");
    insert(&mut request.template_vars, "loom.trigger.actor", "actor_human");
    insert(&mut request.template_vars, "paths.cwd", "/tmp/workspace");

    let out = expand_template_inner(
        "{loom.server}|{loom.run.id}|{loom.trigger.actor}|{paths.cwd}",
        "actor_demo",
        &request,
        None,
        "",
        false,
    );

    assert_eq!(out, "ws://server/rpc|run_1|actor_human|/tmp/workspace");
}

#[test]
fn looks_like_session_lost_matches_common_phrases() {
    assert!(looks_like_session_lost("error: Session not found", ""));
    assert!(looks_like_session_lost("UNKNOWN session abc", ""));
    assert!(looks_like_session_lost(
        "",
        r#"{"errors":["No conversation found with session ID: abc"]}"#
    ));
    assert!(!looks_like_session_lost("everything is fine", ""));
}

#[test]
fn looks_like_signed_thinking_replay_error_matches_claude_400() {
    let stderr = "API Error: 400 messages.7.content.3: thinking or \
                  redacted_thinking blocks in the latest assistant message \
                  cannot be modified. These blocks must remain as they were \
                  in the original response.";

    assert!(looks_like_signed_thinking_replay_error(stderr, ""));
    assert!(!looks_like_signed_thinking_replay_error(
        "API Error: 400 unrelated provider error",
        ""
    ));
}

#[test]
fn batch_file_detection_ignores_case() {
    assert!(is_batch_file("C:/tools/agent.CMD"));
    assert!(is_batch_file("run.bat"));
    assert!(!is_batch_file("agent.exe"));
    assert!(!is_batch_file("agent"));
}

#[test]
fn truncate_for_summary_keeps_short_text() {
    assert_eq!(truncate_for_summary("short"), "short");
}

#[test]
fn sanitize_batch_args_flattens_line_breaks() {
    let mut args = vec!["one\r\ntwo".to_string(), "plain".to_string()];
    sanitize_batch_args(&mut args);
    assert_eq!(args.len(), 2);
    assert_eq!(args[0], "one  two");
    assert_eq!(args[1], "plain");
}

#[test]
fn last_runtime_error_summary_keeps_the_last_non_blank() {
    let msgs = vec![Some("first error".to_string()), None, Some("second error  ".to_string()), Some("   ".to_string())];
    assert_eq!(last_runtime_error_summary(&msgs), Some("second error".to_string()));
    assert_eq!(last_runtime_error_summary(&vec![None, Some(" ".to_string())]), None);
}
