use agent_runtime::adapter::{PromptPart, PromptRoleHint};
use agent_runtime::paths::providers_dir;
use agent_runtime::provider::{
    collect_prompt_refs, expand_static_template, invalid_workspace_file_message, join_parts,
    normalize_session_tokens, preset_parts, render_prompt_outputs, string_args_have_prompt_reference,
    template_placeholders, validate_json_path_syntax, validate_provider_id,
    validate_workspace_file_spec, workspace_file_part, workspace_file_size_error, PromptOutputSpec,
    ProviderPromptRoleHint, ProviderPromptSpec, ProviderWorkspaceFileSpec, RenderTitle,
};

fn prompt_part(key: &str, content: &str) -> PromptPart {
    PromptPart {
        key: key.into(),
        title: key.into(),
        content: content.into(),
        rendered_content: content.into(),
        role_hint: PromptRoleHint::User,
    }
}

fn output() -> PromptOutputSpec {
    PromptOutputSpec {
        required: Vec::new(),
        template: None,
        render_title: None,
        parts: Vec::new(),
        preset: None,
        join: None,
        prefix: None,
        suffix: None,
    }
}

fn preset(name: &str) -> PromptOutputSpec {
    let mut o = output();
    o.preset = Some(name.into());
    o
}

fn spec(outputs: Vec<(&str, PromptOutputSpec)>) -> ProviderPromptSpec {
    ProviderPromptSpec {
        workspace_files: Vec::new(),
        outputs: outputs.into_iter().map(|(k, v)| (k.to_string(), v)).collect(),
    }
}

fn get<'a>(outputs: &'a [(String, String)], name: &str) -> Option<&'a str> {
    outputs.iter().find(|(k, _)| k == name).map(|(_, v)| v.as_str())
}

fn file(key: &str, path: &str) -> ProviderWorkspaceFileSpec {
    ProviderWorkspaceFileSpec {
        key: key.into(),
        path: path.into(),
        title: None,
        optional: true,
        max_bytes: 32768,
        role_hint: None,
    }
}

#[test]
fn base_prompt_keeps_dynamic_turn_context_out_of_system_output() {
    let parts = vec![
        prompt_part("actor_context", "actor context"),
        prompt_part("bootstrap_memory", "bootstrap memory"),
        prompt_part("scope_bootstrap", "scope bootstrap"),
        prompt_part("turn_memory", "turn memory"),
        prompt_part("runtime_context", "runtime context"),
        prompt_part("user_message", "user message"),
    ];
    let base = spec(vec![("full", preset("loom_full")), ("system", preset("loom_system")), ("user", preset("loom_turn"))]);
    let outputs = render_prompt_outputs(Some(&base), &parts, "full prompt").expect("outputs");

    let system = get(&outputs, "system").expect("system");
    assert!(system.contains("actor context"));
    assert!(system.contains("scope bootstrap"));
    assert!(!system.contains("turn memory"));
    assert!(!system.contains("runtime context"));
    assert!(!system.contains("user message"));

    let user = get(&outputs, "user").expect("user");
    assert!(user.contains("turn memory"));
    assert!(user.contains("runtime context"));
    assert!(user.contains("user message"));
}

#[test]
fn empty_prompt_spec_renders_only_default_full_output() {
    let parts = vec![
        prompt_part("actor_context", "actor context"),
        prompt_part("runtime_context", "runtime context"),
        prompt_part("user_message", "user message"),
    ];
    let outputs = render_prompt_outputs(Some(&spec(Vec::new())), &parts, "full prompt").expect("outputs");
    assert_eq!(get(&outputs, "full"), Some("actor context\n\nruntime context\n\nuser message"));
    assert!(get(&outputs, "system").is_none());
    assert!(get(&outputs, "user").is_none());
    let outputs = render_prompt_outputs(None, &parts, "full prompt").expect("outputs");
    assert_eq!(outputs.len(), 1);
}

#[test]
fn blank_full_output_falls_back_to_the_composed_prompt() {
    let outputs = render_prompt_outputs(None, &Vec::new(), "composed").expect("outputs");
    assert_eq!(outputs, vec![("full".to_string(), "composed".to_string())]);
}

#[test]
fn declared_prompt_outputs_do_not_create_implicit_full_system_or_user() {
    let parts = vec![prompt_part("actor_context", "actor context")];
    let mut system = output();
    system.parts = vec!["actor_context".into()];
    let outputs = render_prompt_outputs(Some(&spec(vec![("system", system)])), &parts, "full prompt").expect("outputs");
    assert_eq!(get(&outputs, "system"), Some("actor context"));
    assert!(get(&outputs, "full").is_none());
    assert!(get(&outputs, "user").is_none());
}

#[test]
fn prompt_template_missing_part_expands_to_empty_string() {
    let parts = vec![prompt_part("actor_context", "actor context")];
    let mut system = output();
    system.template = Some("{actor_context}\n{assignment_context}\n{json:keep}".into());
    let outputs = render_prompt_outputs(Some(&spec(vec![("system", system)])), &parts, "full prompt").expect("outputs");
    assert_eq!(get(&outputs, "system"), Some("actor context\n\n{json:keep}"));
}

#[test]
fn render_title_controls_prompt_part_headings() {
    let parts = vec![PromptPart {
        key: "actor_context".into(),
        title: "System: Loom actor context".into(),
        content: "You are @demo.".into(),
        rendered_content: "=== System: Loom actor context ===\nYou are @demo.".into(),
        role_hint: PromptRoleHint::System,
    }];
    let mut with_title = output();
    with_title.parts = vec!["actor_context".into()];
    with_title.render_title = Some(RenderTitle::Always);
    let mut raw = output();
    raw.parts = vec!["actor_context".into()];
    raw.render_title = Some(RenderTitle::Never);
    let outputs = render_prompt_outputs(Some(&spec(vec![("raw", raw), ("with_title", with_title)])), &parts, "full prompt")
        .expect("outputs");
    assert_eq!(get(&outputs, "with_title"), Some("=== System: Loom actor context ===\nYou are @demo."));
    assert_eq!(get(&outputs, "raw"), Some("You are @demo."));
}

#[test]
fn render_title_always_does_not_duplicate_existing_heading() {
    let parts = vec![PromptPart {
        key: "actor_context".into(),
        title: "System: Loom actor context".into(),
        content: "You are @demo.".into(),
        rendered_content: "=== System: Loom actor context ===\nYou are @demo.".into(),
        role_hint: PromptRoleHint::System,
    }];
    let mut system = output();
    system.template = Some("{actor_context}".into());
    system.render_title = Some(RenderTitle::Always);
    let outputs = render_prompt_outputs(Some(&spec(vec![("system", system)])), &parts, "full prompt").expect("outputs");
    assert_eq!(get(&outputs, "system"), Some("=== System: Loom actor context ===\nYou are @demo."));
}

#[test]
fn required_parts_and_unknown_presets_are_errors() {
    let mut o = output();
    o.required = vec!["user_message".into()];
    let err = render_prompt_outputs(Some(&spec(vec![("user", o)])), &vec![prompt_part("user_message", "  ")], "x")
        .expect_err("blank required part");
    assert_eq!(err, "required prompt part `user_message` is missing");
    let err = render_prompt_outputs(Some(&spec(vec![("user", preset("loom_nope"))])), &Vec::new(), "x")
        .expect_err("unknown preset");
    assert_eq!(err, "unknown prompt preset `loom_nope`");
    assert!(preset_parts("loom_turn").expect("preset").len() == 3);
}

#[test]
fn prefix_suffix_and_join_shape_an_output() {
    let mut o = output();
    o.parts = vec!["a".into(), "missing".into(), "b".into()];
    o.join = Some(" | ".into());
    o.prefix = Some("<".into());
    o.suffix = Some(">".into());
    let parts = vec![prompt_part("a", "A"), prompt_part("b", "B")];
    let outputs = render_prompt_outputs(Some(&spec(vec![("x", o)])), &parts, "x").expect("outputs");
    assert_eq!(get(&outputs, "x"), Some("<A | B>"));
    assert_eq!(join_parts(&vec!["a".into(), "  ".into(), "b".into()], "+"), "a+b");
}

#[test]
fn workspace_file_specs_are_checked() {
    assert!(validate_workspace_file_spec(&file("persona", "persona.md")).is_ok());
    assert!(validate_workspace_file_spec(&file("Persona", "persona.md")).is_err());
    assert_eq!(validate_workspace_file_spec(&file("persona", "a\\b.md")), Err("path must use `/` as the separator".into()));
    let mut f = file("persona", "persona.md");
    f.max_bytes = 0;
    assert_eq!(validate_workspace_file_spec(&f), Err("maxBytes must be greater than zero".into()));
    let mut f = file("persona", "persona.md");
    f.title = Some("bad\0title".into());
    assert_eq!(validate_workspace_file_spec(&f), Err("title must not contain NUL bytes".into()));
    assert_eq!(
        invalid_workspace_file_message(&file(" persona ", "x"), "boom"),
        "workspace prompt file `persona` is invalid: boom"
    );
}

#[test]
fn workspace_file_parts_are_titled_and_keyed() {
    let f = file("persona", "persona.md");
    let part = workspace_file_part(&f, "Be kind.".into()).expect("part");
    assert_eq!(part.key, "workspace_file.persona");
    assert_eq!(part.title, "Workspace file: .loom/persona.md");
    assert_eq!(part.rendered_content, "=== Workspace file: .loom/persona.md ===\nBe kind.");
    assert_eq!(part.role_hint, PromptRoleHint::System);
    let mut titled = file("persona", "persona.md");
    titled.title = Some("  Persona  ".into());
    titled.role_hint = Some(ProviderPromptRoleHint::User);
    let part = workspace_file_part(&titled, "x".into()).expect("part");
    assert_eq!(part.title, "Persona");
    assert_eq!(part.role_hint, PromptRoleHint::User);
    assert!(workspace_file_part(&f, " \n".into()).is_none());
    assert_eq!(workspace_file_size_error(&f, "/w/.loom/persona.md", 32768), None);
    assert_eq!(
        workspace_file_size_error(&f, "/w/.loom/persona.md", 40000),
        Some("workspace prompt file `persona` at /w/.loom/persona.md is 40000 bytes, above maxBytes 32768".into())
    );
}

#[test]
fn provider_ids_and_json_paths_are_validated() {
    assert!(validate_provider_id("copilot").is_ok());
    assert_eq!(validate_provider_id(""), Err("provider id is required".into()));
    assert!(validate_provider_id("Bad").is_err());
    assert!(validate_json_path_syntax("$.items[*].text").is_ok());
    assert!(validate_json_path_syntax(".a.b[0]").is_ok());
    assert_eq!(validate_json_path_syntax("  "), Err("json path is required".into()));
    assert!(validate_json_path_syntax("$.a[x]").is_err());
    assert!(validate_json_path_syntax("$.a[0").is_err());
}

#[test]
fn templates_placeholders_and_prompt_references() {
    let names: Vec<String> = template_placeholders("{bin} --x {model} {prompt.user}")
        .into_iter()
        .map(|c| c.into_iter().collect())
        .collect();
    assert_eq!(names, vec!["bin", "model", "prompt.user"]);
    let mut refs = Vec::new();
    collect_prompt_refs("{prompt.system} and {prompt.user}", &mut refs);
    assert_eq!(refs, vec!["system", "user"]);
    assert!(string_args_have_prompt_reference(&vec!["-p".into(), "{prompt}".into()]));
    assert!(!string_args_have_prompt_reference(&vec!["-p".into()]));
    assert_eq!(expand_static_template("{bin}/run", "/opt/x"), "/opt/x/run");
    assert_eq!(normalize_session_tokens(vec!["--resume={session.id}".into()]), vec!["--resume={session_id}"]);
    assert_eq!(providers_dir("/cfg"), "/cfg/providers");
}
