use agent_runtime::argv::{ProviderArgSpec, ProviderConditionalArgSpec};
use agent_runtime::json::{JsonCondition, JsonValue};
use agent_runtime::manifest::{
    validate_condition_names, validate_interactive_mode, validate_mode_command, validate_session_spec,
    InteractiveSessionSpec, ProviderDetectSpec, ProviderInteractiveSpec, ProviderManifest, ProviderModeSpec,
    ProviderSessionIdSource, ProviderSessionSpec,
};
use agent_runtime::manifest_check::{
    prompt_output_names, validate_manifest, validate_prompt_outputs, validate_template_variable,
    validate_template_variables,
};
use agent_runtime::provider::{
    PromptOutputSpec, ProviderPromptRoleHint, ProviderPromptSpec, ProviderWorkspaceFileSpec,
};
use agent_runtime::provider_decoder::{
    ProviderDecoderCaptureSpec, ProviderDecoderEmitSpec, ProviderDecoderEventSpec, ProviderDecoderSpec,
    ProviderJsonlReduceSpec, ProviderJsonlTextReducerSpec,
};

fn lit(value: &str) -> ProviderArgSpec {
    ProviderArgSpec::Literal(value.into())
}

fn when(when: &str, args: Vec<ProviderArgSpec>) -> ProviderArgSpec {
    ProviderArgSpec::Conditional(ProviderConditionalArgSpec { when: when.into(), args })
}

fn output() -> PromptOutputSpec {
    PromptOutputSpec {
        required: Vec::new(),
        template: None,
        render_title: None,
        parts: Vec::new(),
        preset: None,
        join: None,
        prefix: None,
        suffix: None,
    }
}

fn full_prompt() -> ProviderPromptSpec {
    let mut full = output();
    full.preset = Some("loom_full".into());
    ProviderPromptSpec { workspace_files: Vec::new(), outputs: vec![("full".into(), full)] }
}

fn empty_prompt() -> ProviderPromptSpec {
    ProviderPromptSpec { workspace_files: Vec::new(), outputs: Vec::new() }
}

fn reducer(mode: &str, path: &str) -> ProviderJsonlTextReducerSpec {
    ProviderJsonlTextReducerSpec { mode: mode.into(), path: path.into(), when: None, fallback: None }
}

fn equals(path: &str, value: &str) -> JsonCondition {
    JsonCondition {
        all: Vec::new(),
        any: Vec::new(),
        not: None,
        path: Some(path.into()),
        exists: None,
        absent_or_null: None,
        not_empty: None,
        equals: Some(JsonValue::String(value.into())),
        not_equals: None,
        in_values: None,
        not_in: None,
    }
}

fn session_capture(path: &str) -> ProviderDecoderCaptureSpec {
    ProviderDecoderCaptureSpec { session: Some(reducer("lastNonEmpty", path)) }
}

fn mode(
    command: &str,
    args: Vec<ProviderArgSpec>,
    prompt: ProviderPromptSpec,
    stdout_name: &str,
    session: Option<ProviderSessionSpec>,
) -> ProviderModeSpec {
    ProviderModeSpec {
        transport: "command".into(),
        command: command.into(),
        args,
        env: Vec::new(),
        stdin: None,
        model_args: Vec::new(),
        stdout: ProviderDecoderSpec {
            format: "builtin".into(),
            name: Some(stdout_name.into()),
            events: Vec::new(),
            reduce: None,
            capture: None,
        },
        stderr: None,
        session,
        timeout_ms: None,
        idle_timeout_ms: None,
        interactive: None,
        prompt: Some(prompt),
        provider_kind: None,
        custom_settings_path: None,
    }
}

fn manifest(id: &str, candidates: &[&str], modes: Vec<(String, ProviderModeSpec)>) -> ProviderManifest {
    ProviderManifest {
        schema_version: 1,
        id: id.into(),
        extends: None,
        display_name: id.into(),
        models: Vec::new(),
        detect: ProviderDetectSpec { candidates: candidates.iter().map(|c| (*c).to_string()).collect() },
        modes,
    }
}

fn print_mode(m: ProviderModeSpec) -> Vec<(String, ProviderModeSpec)> {
    vec![("print".into(), m)]
}

fn full_mode() -> ProviderModeSpec {
    mode("{bin}", vec![lit("{prompt.full}")], full_prompt(), "text", None)
}

fn workspace_file(key: &str, path: &str) -> ProviderWorkspaceFileSpec {
    ProviderWorkspaceFileSpec {
        key: key.into(),
        path: path.into(),
        title: Some("System: Persona".into()),
        optional: true,
        max_bytes: 32768,
        role_hint: Some(ProviderPromptRoleHint::System),
    }
}

fn emit(emit_type: &str) -> ProviderDecoderEmitSpec {
    ProviderDecoderEmitSpec {
        emit_type: emit_type.into(),
        text: None,
        tool_name: None,
        input: None,
        input_literal: None,
        status: None,
        message: None,
        summary: None,
        partial: None,
        success: None,
    }
}

#[test]
fn manifest_validation_rejects_command_mode_without_prompt_delivery() {
    let m = manifest("no_prompt", &["no-prompt"], print_mode(mode("{bin}", vec![lit("run")], full_prompt(), "text", None)));
    let err = validate_manifest(&m).expect_err("missing prompt should fail");
    assert!(err.contains("must pass one prompt output"), "{err}");
    assert_eq!(err, "provider `no_prompt` mode `print` must pass one prompt output through args, env, or stdin");
}

#[test]
fn manifest_validation_rejects_unstable_provider_id() {
    let m = manifest("Bad Provider", &["bad-provider"], print_mode(full_mode()));
    let err = validate_manifest(&m).expect_err("bad provider id should fail");
    assert!(err.contains("provider id `Bad Provider`"), "{err}");
}

#[test]
fn manifest_validation_rejects_command_not_bound_to_detect_or_path() {
    let m = manifest(
        "bad_command",
        &["safe-agent"],
        print_mode(mode("other-agent", vec![lit("{prompt.full}")], full_prompt(), "text", None)),
    );
    let err = validate_manifest(&m).expect_err("unbound command should fail");
    assert!(
        err.contains("command `other-agent` must be `{bin}`, an explicit path, or one of detect.candidates"),
        "{err}"
    );
}

#[test]
fn manifest_validation_allows_candidate_command_and_explicit_path() {
    let candidate_command = manifest(
        "candidate_command",
        &["candidate-agent"],
        print_mode(mode("candidate-agent", vec![lit("{prompt.full}")], full_prompt(), "text", None)),
    );
    validate_manifest(&candidate_command).expect("candidate command should pass");

    let explicit_path = manifest(
        "explicit_path",
        &[],
        print_mode(mode("/opt/loom/providers/agent", vec![lit("{prompt.full}")], full_prompt(), "text", None)),
    );
    validate_manifest(&explicit_path).expect("explicit path should pass");
}

#[test]
fn manifest_validation_rejects_non_bin_command_template() {
    let m = manifest(
        "bad_command_template",
        &["bad-command-template"],
        print_mode(mode("{loom.configDir}/provider", vec![lit("{prompt.full}")], full_prompt(), "text", None)),
    );
    let err = validate_manifest(&m).expect_err("command template should fail");
    assert!(err.contains("command may only use the `{bin}` template"), "{err}");
}

#[test]
fn manifest_validation_rejects_unknown_template_variable() {
    let m = manifest(
        "bad_var",
        &["bad-var"],
        print_mode(mode("{bin}", vec![lit("{prompt.full}"), lit("{unknown.var}")], full_prompt(), "text", None)),
    );
    let err = validate_manifest(&m).expect_err("unknown variable should fail");
    assert!(err.contains("unknown template variable `unknown.var`"), "{err}");
    assert_eq!(err, "provider `bad_var` mode `print` args references unknown template variable `unknown.var`");
}

#[test]
fn manifest_validation_rejects_undeclared_prompt_output_reference() {
    let m = manifest(
        "bad_prompt_output",
        &["bad-prompt-output"],
        print_mode(mode("{bin}", vec![lit("--system"), lit("{prompt.system}")], empty_prompt(), "text", None)),
    );
    let err = validate_manifest(&m).expect_err("unknown prompt output should fail");
    assert!(err.contains("references unknown prompt output `system`"), "{err}");
}

#[test]
fn manifest_validation_rejects_unknown_prompt_part_reference() {
    let mut full = output();
    full.parts = vec!["actor_context".into(), "identity".into()];
    let prompt = ProviderPromptSpec { workspace_files: Vec::new(), outputs: vec![("full".into(), full)] };
    let m = manifest("bad_part", &["bad-part"], print_mode(mode("{bin}", vec![lit("{prompt.full}")], prompt, "text", None)));
    let err = validate_manifest(&m).expect_err("unknown part should fail");
    assert!(err.contains("unknown prompt part `identity`"), "{err}");
}

#[test]
fn manifest_validation_accepts_declared_workspace_prompt_part() {
    let mut full = output();
    full.parts = vec!["actor_context".into(), "workspace_file.persona".into(), "user_message".into()];
    let prompt = ProviderPromptSpec {
        workspace_files: vec![workspace_file("persona", "persona.md")],
        outputs: vec![("full".into(), full)],
    };
    let m = manifest(
        "workspace_part",
        &["workspace-part"],
        print_mode(mode("{bin}", vec![lit("{prompt.full}")], prompt, "text", None)),
    );
    validate_manifest(&m).expect("declared workspace prompt part should pass");
}

#[test]
fn manifest_validation_rejects_undeclared_workspace_prompt_part_reference() {
    let mut full = output();
    full.parts = vec!["workspace_file.persona".into()];
    let prompt = ProviderPromptSpec { workspace_files: Vec::new(), outputs: vec![("full".into(), full)] };
    let m = manifest(
        "undeclared_workspace_part",
        &["undeclared-workspace-part"],
        print_mode(mode("{bin}", vec![lit("{prompt.full}")], prompt, "text", None)),
    );
    let err = validate_manifest(&m).expect_err("undeclared workspace part should fail");
    assert!(err.contains("unknown prompt part `workspace_file.persona`"), "{err}");
}

#[test]
fn manifest_validation_rejects_workspace_prompt_file_path_escape() {
    let mut full = output();
    full.parts = vec!["workspace_file.persona".into()];
    let mut file = workspace_file("persona", "../persona.md");
    file.title = None;
    file.role_hint = None;
    let prompt = ProviderPromptSpec { workspace_files: vec![file], outputs: vec![("full".into(), full)] };
    let m = manifest(
        "bad_workspace_file",
        &["bad-workspace-file"],
        print_mode(mode("{bin}", vec![lit("{prompt.full}")], prompt, "text", None)),
    );
    let err = validate_manifest(&m).expect_err("path escape should fail");
    assert!(err.contains("path must not contain `..`"), "{err}");
}

#[test]
fn provider_capture_requires_decoder_capture_session() {
    let session = ProviderSessionSpec {
        scope: Some("actor_scope".into()),
        id_source: Some(ProviderSessionIdSource::ProviderCapture),
        resume_args: vec![lit("--resume"), lit("{session.id}"), lit("{prompt.full}")],
    };
    let m = manifest(
        "missing_capture",
        &["missing-capture"],
        print_mode(mode("{bin}", vec![lit("{prompt.full}")], full_prompt(), "text", Some(session))),
    );
    let err = validate_manifest(&m).expect_err("missing capture should fail");
    assert!(err.contains("stdout/stderr capture.session is missing"), "{err}");
}

#[test]
fn provider_capture_allows_stderr_capture_session() {
    let session = ProviderSessionSpec {
        scope: Some("actor_scope".into()),
        id_source: Some(ProviderSessionIdSource::ProviderCapture),
        resume_args: vec![lit("--resume"), lit("{session.id}"), lit("{prompt.full}")],
    };
    let mut provider_mode = mode("{bin}", vec![lit("{prompt.full}")], full_prompt(), "text", Some(session));
    provider_mode.stderr = Some(ProviderDecoderSpec {
        format: "jsonl".into(),
        name: None,
        events: Vec::new(),
        reduce: None,
        capture: Some(session_capture("$.session_id")),
    });
    let m = manifest("stderr_capture", &["stderr-capture"], print_mode(provider_mode));
    validate_manifest(&m).expect("stderr capture should satisfy provider_capture");
}

#[test]
fn manifest_validation_rejects_unknown_session_scope() {
    let session = ProviderSessionSpec {
        scope: Some("workspace".into()),
        id_source: Some(ProviderSessionIdSource::LoomUuid),
        resume_args: vec![lit("--session-id"), lit("{session.id}"), lit("{prompt.full}")],
    };
    let m = manifest(
        "bad_session_scope",
        &["bad-session-scope"],
        print_mode(mode("{bin}", vec![lit("{prompt.full}")], full_prompt(), "text", Some(session))),
    );
    let err = validate_manifest(&m).expect_err("bad session scope should fail");
    assert!(err.contains("unsupported session scope `workspace`"), "{err}");
}

#[test]
fn manifest_validation_rejects_unknown_decoder_format() {
    let mut provider_mode = full_mode();
    provider_mode.stdout.format = "xml".into();
    provider_mode.stdout.name = None;
    let m = manifest("bad_decoder_format", &["bad-decoder-format"], print_mode(provider_mode));
    let err = validate_manifest(&m).expect_err("bad decoder should fail");
    assert!(err.contains("unknown decoder format `xml`"), "{err}");
    assert_eq!(err, "provider `bad_decoder_format` mode `print` stdout decoder: unknown decoder format `xml`");
}

#[test]
fn manifest_validation_rejects_unknown_decoder_event_type() {
    let mut provider_mode = full_mode();
    provider_mode.stdout.format = "jsonl".into();
    provider_mode.stdout.name = None;
    let mut e = emit("metric");
    e.text = Some("$.value".into());
    provider_mode.stdout.events = vec![ProviderDecoderEventSpec { when: None, emit: e }];
    let m = manifest("bad_decoder_event", &["bad-decoder-event"], print_mode(provider_mode));
    let err = validate_manifest(&m).expect_err("bad event should fail");
    assert!(err.contains("unsupported event type `metric`"), "{err}");
    assert_eq!(err, "provider `bad_decoder_event` mode `print` stdout.events[0].emit uses unsupported event type `metric`");
}

#[test]
fn manifest_validation_rejects_bad_decoder_reducer() {
    let mut provider_mode = full_mode();
    provider_mode.stdout.format = "jsonl".into();
    provider_mode.stdout.name = None;
    let mut r = reducer("last", "$.data.content");
    r.when = Some(equals("$.type", "assistant.message"));
    provider_mode.stdout.reduce = Some(ProviderJsonlReduceSpec { final_text: Some(r) });
    let m = manifest("bad_decoder_reducer", &["bad-decoder-reducer"], print_mode(provider_mode));
    let err = validate_manifest(&m).expect_err("bad reducer should fail");
    assert!(err.contains("unsupported reducer mode `last`"), "{err}");
}

#[test]
fn manifest_validation_allows_decoder_wildcard_path() {
    let mut provider_mode = full_mode();
    provider_mode.stdout.format = "jsonl".into();
    provider_mode.stdout.name = None;
    provider_mode.stdout.reduce =
        Some(ProviderJsonlReduceSpec { final_text: Some(reducer("concat", "$.items[*].text")) });
    let m = manifest("wildcard_decoder", &["wildcard-decoder"], print_mode(provider_mode));
    validate_manifest(&m).expect("wildcard decoder path should pass");
}

#[test]
fn manifest_validation_allows_json_decoder() {
    let mut provider_mode = full_mode();
    provider_mode.stdout.format = "json".into();
    provider_mode.stdout.name = None;
    provider_mode.stdout.reduce =
        Some(ProviderJsonlReduceSpec { final_text: Some(reducer("lastNonEmpty", "$.result.text")) });
    let m = manifest("json_decoder", &["json-decoder"], print_mode(provider_mode));
    validate_manifest(&m).expect("json decoder should pass");
}

// ───────────────────────── further cases ─────────────────────────

#[test]
fn manifest_header_errors_come_first() {
    let mut m = manifest("demo", &["demo"], print_mode(full_mode()));
    m.schema_version = 2;
    assert_eq!(validate_manifest(&m), Err("provider `demo` uses unsupported schemaVersion 2".to_string()));
    let m = manifest("   ", &["demo"], print_mode(full_mode()));
    assert_eq!(validate_manifest(&m), Err("provider id is required".to_string()));
    let m = manifest("demo", &["demo"], Vec::new());
    assert_eq!(validate_manifest(&m), Err("provider `demo` must define at least one mode".to_string()));
    let m = manifest("demo", &["demo"], print_mode(full_mode()));
    assert_eq!(validate_manifest(&m), Ok(()));
}

#[test]
fn manifest_mode_blank_transport_and_command() {
    let mut blank_transport = full_mode();
    blank_transport.transport = "  ".into();
    let m = manifest("demo", &["demo"], print_mode(blank_transport));
    assert_eq!(validate_manifest(&m), Err("provider `demo` mode `print` has empty transport".to_string()));
    let mut blank_command = full_mode();
    blank_command.command = " ".into();
    let m = manifest("demo", &["demo"], print_mode(blank_command));
    assert_eq!(validate_manifest(&m), Err("provider `demo` mode `print` has empty command".to_string()));
}

#[test]
fn manifest_reports_the_first_failing_mode() {
    let mut bad = full_mode();
    bad.transport = "".into();
    let m = manifest("demo", &["demo"], vec![("a".into(), full_mode()), ("b".into(), bad)]);
    assert_eq!(validate_manifest(&m), Err("provider `demo` mode `b` has empty transport".to_string()));
}

#[test]
fn bin_command_needs_detect_candidates() {
    assert_eq!(
        validate_mode_command("demo", "print", "{bin}", &Vec::new()),
        Err("provider `demo` mode `print` uses `{bin}` but detect.candidates is empty".to_string())
    );
    assert_eq!(validate_mode_command("demo", "print", " {bin} ", &vec!["demo".to_string()]), Ok(()));
}

#[test]
fn template_variables_accept_runtime_vars_and_declared_outputs() {
    let outputs = vec!["full".to_string(), "system".to_string()];
    let chars = |s: &str| s.chars().collect::<Vec<char>>();
    assert_eq!(validate_template_variable("p", "m", "args", &chars("model"), &outputs), Ok(()));
    assert_eq!(validate_template_variable("p", "m", "args", &chars("vars.anything"), &outputs), Ok(()));
    assert_eq!(validate_template_variable("p", "m", "args", &chars("prompt.system"), &outputs), Ok(()));
    assert_eq!(
        validate_template_variable("p", "m", "env", &chars("prompt.user"), &outputs),
        Err("provider `p` mode `m` env references unknown prompt output `user`".to_string())
    );
    assert_eq!(
        validate_template_variable("p", "m", "stdin", &chars("nope"), &outputs),
        Err("provider `p` mode `m` stdin references unknown template variable `nope`".to_string())
    );
}

#[test]
fn prompt_output_names_default_to_full() {
    assert_eq!(prompt_output_names(&None), vec!["full".to_string()]);
    assert_eq!(prompt_output_names(&Some(empty_prompt())), vec!["full".to_string()]);
    let mut p = full_prompt();
    p.outputs.insert(0, ("a".into(), output()));
    assert_eq!(prompt_output_names(&Some(p)), vec!["a".to_string(), "full".to_string()]);
}

#[test]
fn template_variables_cover_every_template_of_a_mode() {
    let outputs = vec!["full".to_string()];
    let mut m = full_mode();
    m.env = vec![("A".into(), "{model}".into()), ("B".into(), "{bogus}".into())];
    assert_eq!(
        validate_template_variables("p", "print", &m, &outputs),
        Err("provider `p` mode `print` env references unknown template variable `bogus`".to_string())
    );
    let mut m = full_mode();
    m.args = vec![when("model", vec![lit("--model"), lit("{model}")]), when("size", vec![lit("x")])];
    assert_eq!(
        validate_template_variables("p", "print", &m, &outputs),
        Err("provider `p` mode `print` uses unsupported args condition `size`".to_string())
    );
    let mut m = full_mode();
    m.custom_settings_path = Some("{agent.configDir}/settings.json".into());
    m.model_args = vec!["--model".into(), "{model}".into()];
    assert_eq!(validate_template_variables("p", "print", &m, &outputs), Ok(()));
    m.custom_settings_path = Some("{nowhere}".into());
    assert_eq!(
        validate_template_variables("p", "print", &m, &outputs),
        Err("provider `p` mode `print` provider.settings.path references unknown template variable `nowhere`".to_string())
    );
}

#[test]
fn prompt_outputs_reject_duplicate_workspace_parts_and_unknown_presets() {
    let prompt = ProviderPromptSpec {
        workspace_files: vec![workspace_file("persona", "a.md"), workspace_file("persona", "b.md")],
        outputs: Vec::new(),
    };
    assert_eq!(
        validate_prompt_outputs("p", "m", &Some(prompt)),
        Err("provider `p` mode `m` declares duplicate workspace prompt part `workspace_file.persona`".to_string())
    );
    let mut o = output();
    o.preset = Some("loom_everything".into());
    let prompt = ProviderPromptSpec { workspace_files: Vec::new(), outputs: vec![("sys".into(), o)] };
    assert_eq!(
        validate_prompt_outputs("p", "m", &Some(prompt)),
        Err("provider `p` mode `m` prompt output `sys`: unknown prompt preset `loom_everything`".to_string())
    );
    let mut o = output();
    o.required = vec!["full".into()];
    o.template = Some("{actor_context} {workspace_file.notes} {not a part}".into());
    let prompt = ProviderPromptSpec { workspace_files: Vec::new(), outputs: vec![("sys".into(), o)] };
    assert_eq!(
        validate_prompt_outputs("p", "m", &Some(prompt)),
        Err("provider `p` mode `m` prompt output `sys` references unknown prompt part `workspace_file.notes`".to_string())
    );
    assert_eq!(validate_prompt_outputs("p", "m", &None), Ok(()));
}

#[test]
fn command_mode_resume_args_must_pass_the_prompt() {
    let session = ProviderSessionSpec {
        scope: None,
        id_source: Some(ProviderSessionIdSource::LoomUuid),
        resume_args: vec![lit("--resume"), lit("{session.id}")],
    };
    let m = manifest(
        "demo",
        &["demo"],
        print_mode(mode("{bin}", vec![lit("{prompt.full}")], full_prompt(), "text", Some(session))),
    );
    assert_eq!(
        validate_manifest(&m),
        Err("provider `demo` mode `print` session resumeArgs must pass one prompt output".to_string())
    );
    let mut stdin_mode = mode("{bin}", vec![lit("run")], full_prompt(), "text", None);
    stdin_mode.stdin = Some("{prompt.full}".into());
    assert_eq!(validate_manifest(&manifest("demo", &["demo"], print_mode(stdin_mode))), Ok(()));
}

#[test]
fn interactive_and_session_checks() {
    let mut m = full_mode();
    m.transport = "interactive_command".into();
    assert_eq!(
        validate_interactive_mode("p", "chat", &m),
        Err("provider `p` mode `chat` uses interactive_command but missing interactive config".to_string())
    );
    m.interactive = Some(ProviderInteractiveSpec {
        session: InteractiveSessionSpec { new_args: vec!["{prompt}".into()], resume_args: vec!["--continue".into()] },
        prompt_template: "{prompt}".into(),
    });
    assert_eq!(
        validate_interactive_mode("p", "chat", &m),
        Err("provider `p` mode `chat` interactive.session.resumeArgs must pass the prompt".to_string())
    );
    let mut s = full_mode();
    s.session = Some(ProviderSessionSpec { scope: Some("turn".into()), id_source: None, resume_args: Vec::new() });
    assert_eq!(validate_session_spec("p", "m", &s), Ok(()));
    assert_eq!(validate_condition_names("p", "m", &vec![when(" reasoning_effort ", vec![lit("x")])], 0), Ok(()));
}
