use agent_runtime::argv::ProviderArgSpec;
use agent_runtime::builtin::{builtin_provider_manifests, claude_manifest};
use agent_runtime::manifest::{ProviderManifest, ProviderSessionIdSource};
use agent_runtime::manifest_check::validate_manifest;
use agent_runtime::runtime_plan::runtime_plan_from_manifest;

fn agent_cli() -> ProviderManifest {
    claude_manifest("agent-cli", "Agent CLI", "agent-cli", vec![("sonnet".into(), "Sonnet".into())])
}

fn builtin(id: &str) -> ProviderManifest {
    builtin_provider_manifests().into_iter().find(|m| m.id == id).expect("provider")
}

fn arg_strings(args: &[ProviderArgSpec], out: &mut Vec<String>) {
    for a in args {
        match a {
            ProviderArgSpec::Literal(v) => out.push(v.clone()),
            ProviderArgSpec::Conditional(c) => {
                out.push(c.when.clone());
                arg_strings(&c.args, out);
            }
        }
    }
}

fn manifest_strings(m: &ProviderManifest) -> Vec<String> {
    let mut out = Vec::new();
    for (_, mode) in &m.modes {
        out.push(mode.command.clone());
        arg_strings(&mode.args, &mut out);
        if let Some(s) = &mode.session {
            arg_strings(&s.resume_args, &mut out);
        }
        for (k, v) in &mode.env {
            out.push(k.clone());
            out.push(v.clone());
        }
        out.extend(mode.model_args.iter().cloned());
        if let Some(i) = &mode.interactive {
            out.extend(i.session.new_args.iter().cloned());
            out.extend(i.session.resume_args.iter().cloned());
        }
    }
    out
}

#[test]
fn builtins_default_add_dir_to_agent_config_dir() {
    let mut manifests: Vec<ProviderManifest> =
        ["qoder", "copilot", "codex"].iter().map(|id| builtin(id)).collect();
    manifests.push(agent_cli());
    for manifest in manifests {
        let rendered = manifest_strings(&manifest);
        assert!(
            rendered.iter().any(|s| s.contains("{agent.configDir}")),
            "{} should expose only the current agent config dir by default",
            manifest.id
        );
        assert!(
            !rendered.iter().any(|s| s.contains("{loom.configDir}")),
            "{} should not expose the daemon config dir by default",
            manifest.id
        );
    }
}

#[test]
fn builtin_provider_capture_sessions_are_declared_on_stdout_decoder() {
    for provider_id in ["qoder", "codex", "opencode"] {
        let manifest = builtin(provider_id);
        let mode = &manifest.modes.iter().find(|(name, _)| name == "print").expect("print mode").1;
        let session = mode.session.as_ref().expect("session");
        assert_eq!(session.id_source, Some(ProviderSessionIdSource::ProviderCapture));
        assert!(
            mode.stdout.capture.as_ref().and_then(|capture| capture.session.as_ref()).is_some(),
            "{provider_id} should capture session through stdout decoder"
        );
    }
}

#[test]
fn builtin_claude_uses_system_and_user_prompt_outputs() {
    let plan = runtime_plan_from_manifest(agent_cli(), "print", "/usr/bin/agent-cli", Some("sonnet"))
        .expect("transport");
    assert!(plan.args.contains(&"--append-system-prompt".into()));
    assert!(plan.args.contains(&"{prompt.system}".into()));
    assert!(plan.args.contains(&"{prompt.user}".into()));
    assert!(plan.args.contains(&"{agent.configDir}".into()));
    assert!(!plan.args.contains(&"{loom.configDir}".into()));
    assert_eq!(plan.session.as_ref().and_then(|s| s.id_source), Some(ProviderSessionIdSource::LoomUuid));
    assert_eq!(plan.session.as_ref().and_then(|s| s.scope.as_deref()), Some("actor_scope"));
}

#[test]
fn builtin_claude_nonprint_resolves_interactive_transport() {
    let plan = runtime_plan_from_manifest(agent_cli(), "nonprint", "/usr/bin/agent-cli", Some("sonnet"))
        .expect("transport");
    assert_eq!(plan.transport_kind, "interactive_command");
    assert_eq!(plan.args, vec!["--add-dir", "{agent.configDir}"]);
    assert_eq!(plan.model_args, vec!["--model", "{model}"]);
    let interactive = plan.interactive.as_ref().expect("interactive config");
    assert!(interactive.session.new_args.contains(&"{prompt}".into()));
    assert!(interactive.session.new_args.contains(&"--session-id".into()));
    assert!(interactive.session.resume_args.contains(&"{prompt}".into()));
    assert!(interactive.session.resume_args.contains(&"--resume".into()));
    assert_eq!(plan.provider_kind.as_deref(), Some("agent-cli"));
}

#[test]
fn builtin_opencode_declares_json_session_capture_and_resume() {
    let plan = runtime_plan_from_manifest(builtin("opencode"), "print", "/usr/bin/opencode", Some("opencode/big-pickle"))
        .expect("runtime plan");
    assert_eq!(plan.provider_id, "opencode");
    assert!(plan.args.contains(&"--format".into()));
    assert!(plan.args.contains(&"json".into()));
    assert!(plan.args.contains(&"{prompt.full}".into()));
    assert_eq!(plan.session.as_ref().and_then(|s| s.id_source), Some(ProviderSessionIdSource::ProviderCapture));
    let resume = plan.session.as_ref().and_then(|s| s.resume_args.clone()).expect("resume args");
    assert!(resume.contains(&"--session".into()));
    assert!(resume.contains(&"{session_id}".into()));
    assert!(resume.contains(&"{prompt.full}".into()));
    assert_eq!(plan.decoder.format, "jsonl");
    let capture = plan.decoder.capture.as_ref().and_then(|c| c.session.as_ref()).expect("session capture");
    assert_eq!(capture.path, "$.sessionID");
}

#[test]
fn every_builtin_manifest_passes_validation() {
    let ids: Vec<String> = builtin_provider_manifests().into_iter().map(|m| m.id).collect();
    assert_eq!(ids, vec!["qoder", "copilot", "codex", "opencode"]);
    for manifest in builtin_provider_manifests() {
        assert_eq!(validate_manifest(&manifest), Ok(()), "{}", manifest.id);
    }
    assert_eq!(validate_manifest(&agent_cli()), Ok(()));
}

#[test]
fn agent_cli_manifest_carries_the_given_names() {
    let m = agent_cli();
    assert_eq!(m.id, "agent-cli");
    assert_eq!(m.display_name, "Agent CLI");
    assert_eq!(m.detect.candidates, vec!["agent-cli"]);
    assert_eq!(m.models, vec![("sonnet".to_string(), "Sonnet".to_string())]);
    let names: Vec<&str> = m.modes.iter().map(|(n, _)| n.as_str()).collect();
    assert_eq!(names, vec!["print", "nonprint"]);
}
