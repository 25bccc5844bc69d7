use agent_runtime::argv::{ProviderArgSpec, ProviderConditionalArgSpec};
use agent_runtime::manifest::{
    ProviderDetectSpec, ProviderManifest, ProviderModeSpec, ProviderSessionIdSource, ProviderSessionSpec,
};
use agent_runtime::runtime_plan::{
    command_candidate_from_mode, default_mode_name, not_detected_message, runtime_plan_from_manifest,
};

use agent_runtime::provider::{PromptOutputSpec, ProviderPromptSpec};
use agent_runtime::provider_decoder::ProviderDecoderSpec;

fn lit(value: &str) -> ProviderArgSpec {
    ProviderArgSpec::Literal(value.into())
}

fn when(when: &str, args: Vec<ProviderArgSpec>) -> ProviderArgSpec {
    ProviderArgSpec::Conditional(ProviderConditionalArgSpec { when: when.into(), args })
}

fn output() -> PromptOutputSpec {
    PromptOutputSpec {
        required: Vec::new(),
        template: None,
        render_title: None,
        parts: Vec::new(),
        preset: None,
        join: None,
        prefix: None,
        suffix: None,
    }
}

fn full_prompt() -> ProviderPromptSpec {
    let mut full = output();
    full.preset = Some("loom_full".into());
    ProviderPromptSpec { workspace_files: Vec::new(), outputs: vec![("full".into(), full)] }
}





fn mode(
    command: &str,
    args: Vec<ProviderArgSpec>,
    prompt: ProviderPromptSpec,
    stdout_name: &str,
    session: Option<ProviderSessionSpec>,
) -> ProviderModeSpec {
    ProviderModeSpec {
        transport: "command".into(),
        command: command.into(),
        args,
        env: Vec::new(),
        stdin: None,
        model_args: Vec::new(),
        stdout: ProviderDecoderSpec {
            format: "builtin".into(),
            name: Some(stdout_name.into()),
            events: Vec::new(),
            reduce: None,
            capture: None,
        },
        stderr: None,
        session,
        timeout_ms: None,
        idle_timeout_ms: None,
        interactive: None,
        prompt: Some(prompt),
        provider_kind: None,
        custom_settings_path: None,
    }
}

fn manifest(id: &str, candidates: &[&str], modes: Vec<(String, ProviderModeSpec)>) -> ProviderManifest {
    ProviderManifest {
        schema_version: 1,
        id: id.into(),
        extends: None,
        display_name: id.into(),
        models: Vec::new(),
        detect: ProviderDetectSpec { candidates: candidates.iter().map(|c| (*c).to_string()).collect() },
        modes,
    }
}

fn print_mode(m: ProviderModeSpec) -> Vec<(String, ProviderModeSpec)> {
    vec![("print".into(), m)]
}

fn full_mode() -> ProviderModeSpec {
    mode("{bin}", vec![lit("{prompt.full}")], full_prompt(), "text", None)
}

#[test]
fn provider_runtime_plan_expands_bin_in_static_templates() {
    let bin = "/tmp/demo-agent";
    let mut provider_mode = mode(
        "{bin}",
        vec![lit("--bin"), lit("{bin}"), when("model", vec![lit("--model-bin"), lit("{bin}")]), lit("{prompt.full}")],
        full_prompt(),
        "text",
        Some(ProviderSessionSpec {
            id_source: Some(ProviderSessionIdSource::LoomUuid),
            resume_args: vec![lit("--resume"), lit("{session.id}"), lit("{bin}"), lit("{prompt.full}")],
            scope: Some("actor_scope".into()),
        }),
    );
    provider_mode.env.push(("PROVIDER_BIN".into(), "{bin}".into()));
    provider_mode.stdin = Some("stdin:{bin}:{prompt.full}".into());
    let manifest = manifest("bin_templates", &["demo-agent"], print_mode(provider_mode));

    let plan = runtime_plan_from_manifest(manifest, "print", bin, Some("demo-model")).expect("runtime plan");
    let bin_text = bin.to_string();
    let expected_stdin = format!("stdin:{bin_text}:{{prompt.full}}");

    assert_eq!(plan.command, bin_text);
    assert!(plan.args.contains(&bin_text));
    assert_eq!(
        plan.env.iter().find(|(k, _)| k == "PROVIDER_BIN").map(|(_, v)| v.as_str()),
        Some(bin_text.as_str())
    );
    assert_eq!(plan.stdin.as_deref(), Some(expected_stdin.as_str()));
    assert!(plan.arg_specs.iter().any(|arg| matches!(
        arg,
        ProviderArgSpec::Conditional(spec)
            if spec.args.iter().any(|item| matches!(item, ProviderArgSpec::Literal(value) if value == &bin_text))
    )));
    let session = plan.session.as_ref().expect("session");
    assert!(
        session.resume_args.as_ref().is_some_and(|args| args.contains(&bin_text)),
        "resume_args should expand bin"
    );
    assert!(
        session.resume_arg_specs.iter().any(|arg| matches!(arg, ProviderArgSpec::Literal(value) if value == &bin_text)),
        "resume_arg_specs should expand bin"
    );
}

#[test]
fn runtime_plan_normalizes_session_tokens_and_trims_the_model() {
    let session = ProviderSessionSpec {
        id_source: Some(ProviderSessionIdSource::LoomUuid),
        resume_args: vec![lit("--resume"), lit("{session.id}"), lit("{prompt.full}")],
        scope: None,
    };
    let mut m = mode("{bin}", vec![lit("--session-id"), lit("{session.id}"), lit("{prompt.full}")], full_prompt(), "text", Some(session));
    m.model_args = vec!["--model".into(), "{bin}:{model}".into()];
    let plan = runtime_plan_from_manifest(manifest("demo", &["demo"], print_mode(m)), "print", "/bin/demo", Some("  opus  ")).unwrap();
    assert_eq!(plan.provider_id, "demo");
    assert_eq!(plan.mode, "print");
    assert_eq!(plan.transport_kind, "command");
    assert_eq!(plan.args, vec!["--session-id", "{session_id}", "{prompt.full}"]);
    assert_eq!(plan.model.as_deref(), Some("opus"));
    assert_eq!(plan.model_args, vec!["--model", "/bin/demo:{model}"]);
    let s = plan.session.unwrap();
    assert_eq!(s.resume_args, Some(vec!["--resume".to_string(), "{session_id}".to_string(), "{prompt.full}".to_string()]));
    let blank = runtime_plan_from_manifest(manifest("demo", &["demo"], print_mode(mode("{bin}", vec![lit("{prompt.full}")], full_prompt(), "text", None))), "print", "/bin/demo", Some("   ")).unwrap();
    assert_eq!(blank.model, None);
    assert!(blank.session.is_none());
}

#[test]
fn runtime_plan_errors_in_order() {
    let m = manifest("demo", &["demo"], print_mode(mode("{bin}", vec![lit("{prompt.full}")], full_prompt(), "text", None)));
    assert_eq!(
        runtime_plan_from_manifest(m, "chat", "/bin/demo", None).err(),
        Some("provider `demo` does not define mode `chat`".to_string())
    );
    let mut bad = mode("{bin}", vec![lit("run")], full_prompt(), "text", None);
    bad.stdout.format = "xml".into();
    let m = manifest("demo", &["demo"], print_mode(bad));
    assert_eq!(runtime_plan_from_manifest(m, "print", "/bin/demo", None).err(), Some("unknown decoder format `xml`".to_string()));
    let m = manifest("demo", &["demo"], print_mode(mode("{bin}", vec![lit("run")], full_prompt(), "text", None)));
    assert_eq!(
        runtime_plan_from_manifest(m, "print", "/bin/demo", None).err(),
        Some("provider `demo` mode `print` must pass one prompt output through args, env, or stdin".to_string())
    );
}

#[test]
fn default_mode_prefers_print() {
    let two = manifest(
        "demo",
        &["demo"],
        vec![
            ("chat".into(), mode("{bin}", vec![lit("{prompt.full}")], full_prompt(), "text", None)),
            ("print".into(), mode("{bin}", vec![lit("{prompt.full}")], full_prompt(), "text", None)),
        ],
    );
    assert_eq!(default_mode_name(&two), "print");
    let one = manifest("demo", &["demo"], vec![("chat".into(), mode("{bin}", vec![], full_prompt(), "text", None))]);
    assert_eq!(default_mode_name(&one), "chat");
    assert_eq!(default_mode_name(&manifest("demo", &[], Vec::new())), "print");
}

#[test]
fn command_candidates_and_detection_message() {
    assert_eq!(command_candidate_from_mode(&mode(" /opt/agent ", vec![], full_prompt(), "text", None)), Some("/opt/agent".to_string()));
    assert_eq!(command_candidate_from_mode(&mode("{bin}", vec![], full_prompt(), "text", None)), None);
    assert_eq!(command_candidate_from_mode(&mode("  ", vec![], full_prompt(), "text", None)), None);
    assert_eq!(
        not_detected_message("agent", &vec!["agent".to_string(), "agent-cli".to_string()]),
        "provider `agent` was not detected; candidates: agent, agent-cli"
    );
}
