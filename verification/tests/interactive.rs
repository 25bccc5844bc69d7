use agent_runtime::argv::{AdapterPrompt, ScopeKind, ScopeRef};
use agent_runtime::interactive::{
    active_model, append_provider_args, build_interactive_prompt, completion_contract,
    contains_sentinel_line, expand_template, interactive_signature_for_prompt, text_before_sentinel,
    truncate,
};
use agent_runtime::command::looks_like_signed_thinking_replay_error;

fn scope(kind: ScopeKind, id: &str) -> ScopeRef {
    ScopeRef { kind, id: id.into() }
}

fn prompt(scope: ScopeRef, content: &str) -> AdapterPrompt {
    AdapterPrompt {
        scope,
        content: content.into(),
        outputs: vec![("full".into(), content.into())],
        model: None,
        template_vars: Vec::new(),
    }
}

fn new_args() -> Vec<String> {
    vec!["{prompt}".into(), "--session-id".into(), "{session_id}".into()]
}

fn argv_for(req: &AdapterPrompt, configured: Option<&str>, model_args: &Vec<String>) -> Vec<String> {
    let model = active_model(&req.model, &configured.map(String::from));
    let mut argv: Vec<String> = new_args()
        .iter()
        .map(|a| expand_template(a, "actor_demo", req, model.as_deref(), Some("sid"), "hello"))
        .collect();
    append_provider_args(&mut argv, None, model_args, "actor_demo", req, model.as_deref());
    argv
}

#[test]
fn argv_appends_model_when_configured() {
    let req = prompt(scope(ScopeKind::Thread, "t"), "hello");
    let argv = argv_for(&req, Some("sonnet-large"), &Vec::new());
    assert_eq!(argv.last().map(String::as_str), Some("--model=sonnet-large"));
    assert_eq!(argv[..3], ["hello".to_string(), "--session-id".to_string(), "sid".to_string()]);
}

#[test]
fn argv_uses_configured_model_args_when_present() {
    let req = prompt(scope(ScopeKind::Thread, "t"), "hello");
    let model_args = vec!["--model".to_string(), "{model}".to_string()];
    let argv = argv_for(&req, Some("sonnet-large"), &model_args);
    assert_eq!(&argv[argv.len() - 2..], ["--model".to_string(), "sonnet-large".to_string()]);
}

#[test]
fn argv_omits_model_when_missing() {
    let req = prompt(scope(ScopeKind::Thread, "t"), "hello");
    let argv = argv_for(&req, None, &Vec::new());
    assert!(!argv.iter().any(|a| a.starts_with("--model=")));
}

#[test]
fn prompt_model_overrides_configured_model_and_blank_means_none() {
    assert_eq!(active_model(&Some(" m1 ".into()), &Some("m2".into())), Some("m1".into()));
    assert_eq!(active_model(&None, &Some("m2".into())), Some("m2".into()));
    assert_eq!(active_model(&Some("   ".into()), &Some("m2".into())), None);
    assert_eq!(active_model(&None, &None), None);
}

#[test]
fn settings_path_precedes_model_arguments() {
    let req = prompt(scope(ScopeKind::Channel, "c"), "hello");
    let mut argv = vec!["base".to_string()];
    append_provider_args(&mut argv, Some("/p/settings.json"), &Vec::new(), "actor_demo", &req, Some("m"));
    assert_eq!(argv, vec!["base", "--settings", "/p/settings.json", "--model=m"]);
}

#[test]
fn prompt_injects_completion_contract_before_user_message() {
    let req = prompt(scope(ScopeKind::Thread, "t"), "context\n\n=== User message ===\nhello");
    let contract = completion_contract("finish with __DONE__", "__DONE__");
    let built = build_interactive_prompt("{loom_envelope}", &req.content, "sid", &contract);
    assert!(built.contains("=== Loom interactive command completion contract ==="));
    assert!(built.find("completion contract").unwrap() < built.find("=== User message ===").unwrap());
}

#[test]
fn prompt_without_user_section_gets_one_after_the_contract() {
    let contract = completion_contract("say __LOOM_DONE__ at the end", " __DONE__ ");
    assert_eq!(
        contract,
        "=== Loom interactive command completion contract ===\nsay __DONE__ at the end\nCompletion sentinel: __DONE__"
    );
    let built = build_interactive_prompt("[{session_id}] {loom_envelope}", "hi", "sid_1", &contract);
    assert_eq!(built, format!("[sid_1] {contract}\n\n=== User message ===\nhi"));
}

#[test]
fn sentinel_helpers_strip_final_marker() {
    let text = "hello\n__DONE__\nignored\n";
    assert!(contains_sentinel_line(text, "__DONE__"));
    assert_eq!(text_before_sentinel(text, "__DONE__"), "hello\n");
}

#[test]
fn sentinel_must_stand_on_its_own_line() {
    assert!(!contains_sentinel_line("say __DONE__ now", "__DONE__"));
    assert!(contains_sentinel_line("  __DONE__  ", "__DONE__"));
}

#[test]
fn truncate_is_char_boundary_safe() {
    let text = "修复 delivery 中文 stderr 截断 panic";
    let truncated = truncate(text, 10);
    assert!(truncated.ends_with('…'));
    assert!(truncated.len() <= 13);
}

#[test]
fn truncate_keeps_text_that_fits_trimmed() {
    assert_eq!(truncate("  fits  ", 20), "fits");
    assert_eq!(truncate("abcdef", 3), "abc…");
}

#[test]
fn signed_thinking_replay_error_matches_claude_400() {
    let stderr = "API Error: 400 messages.7.content.3: thinking or \
                  redacted_thinking blocks in the latest assistant message \
                  cannot be modified. These blocks must remain as they were \
                  in the original response.";

    assert!(looks_like_signed_thinking_replay_error(stderr, ""));
    assert!(!looks_like_signed_thinking_replay_error("API Error: 400 unrelated provider error", ""));
}

#[test]
fn interactive_signature_depends_on_model_and_sentinel() {
    let a = interactive_signature_for_prompt("sha256:base", Some("m1"), "__DONE__", None);
    let b = interactive_signature_for_prompt("sha256:base", Some("m2"), "__DONE__", None);
    let c = interactive_signature_for_prompt("sha256:base", Some("m1"), "__END__", None);
    assert_ne!(a, b);
    assert_ne!(a, c);
    assert!(a.starts_with("sha256:"));
}

use agent_runtime::interactive::{
    interactive_step, interactive_turn_succeeded, new_interactive_turn, plan_interactive_turn,
    session_args_template, InteractiveAction, InteractiveEvent, InteractiveTurn,
};

fn step(t: &InteractiveTurn, ev: InteractiveEvent) -> (InteractiveTurn, InteractiveAction) {
    interactive_step(t, ev, "__LOOM_DONE__", true)
}

#[test]
fn interactive_turn_resumes_only_a_session_with_the_same_signature() {
    let saved = Some(("sid-1".to_string(), "sha256:aa".to_string()));
    assert_eq!(plan_interactive_turn(&saved, "sha256:aa"), Some("sid-1".to_string()));
    assert_eq!(plan_interactive_turn(&saved, "sha256:bb"), None);
    assert_eq!(plan_interactive_turn(&None, "sha256:aa"), None);
}

#[test]
fn interactive_resume_falls_back_to_new_args() {
    let new_args = vec!["{prompt}".to_string(), "--session-id".to_string()];
    let resume_args = vec!["--resume".to_string()];
    assert_eq!(session_args_template(true, &new_args, &resume_args), &new_args);
    assert_eq!(session_args_template(false, &new_args, &resume_args), &resume_args);
    assert_eq!(session_args_template(false, &new_args, &Vec::new()), &new_args);
}

#[test]
fn interactive_turn_succeeds_after_sentinel_and_kill() {
    let t = new_interactive_turn();
    let (t, a) = step(&t, InteractiveEvent::Output("hello  \n".into()));
    assert_eq!(a, InteractiveAction::Continue);
    let (t, a) = step(&t, InteractiveEvent::Output("  __LOOM_DONE__\nlater\n".into()));
    assert_eq!(a, InteractiveAction::KillOnComplete);
    assert!(t.found_done);
    assert_eq!(t.final_text, "hello");
    let (t, a) = step(&t, InteractiveEvent::CompletionKilled(Ok(())));
    assert_eq!(a, InteractiveAction::Finish);
    assert!(interactive_turn_succeeded(&t));
    assert_eq!(t.end.as_ref().unwrap().summary, "");
}

#[test]
fn interactive_turn_reports_failed_completion_kill() {
    let t = new_interactive_turn();
    let (t, _) = step(&t, InteractiveEvent::Output("done\n__LOOM_DONE__\n".into()));
    let (t, _) = step(&t, InteractiveEvent::CompletionKilled(Err("no such process".into())));
    assert!(!interactive_turn_succeeded(&t));
    assert_eq!(t.end.as_ref().unwrap().summary, "completion kill policy failed: no such process");
}

#[test]
fn interactive_turn_cancel_and_timeout_summaries() {
    let t = new_interactive_turn();
    let (c, a) = step(&t, InteractiveEvent::CancelRequested);
    assert_eq!(a, InteractiveAction::KillOnCancel);
    assert_eq!(c.end.as_ref().unwrap().summary, "cancelled");
    assert!(!interactive_turn_succeeded(&c));
    let (d, a) = step(&t, InteractiveEvent::DeadlinePassed);
    assert_eq!(a, InteractiveAction::KillOnTimeout);
    assert_eq!(d.end.as_ref().unwrap().summary, "timeout waiting for interactive command sentinel");
    let (again, a) = step(&c, InteractiveEvent::Output("__LOOM_DONE__\n".into()));
    assert_eq!(a, InteractiveAction::Finish);
    assert_eq!(again.end.as_ref().unwrap().summary, "cancelled");
}

#[test]
fn interactive_turn_early_exit_summaries() {
    let t = new_interactive_turn();
    let (ok, _) = step(&t, InteractiveEvent::Exited { success: true, code: Some(0) });
    assert_eq!(ok.end.as_ref().unwrap().summary, "process exited before completion sentinel");
    let (bad, _) = step(&t, InteractiveEvent::Exited { success: false, code: Some(3) });
    assert_eq!(bad.end.as_ref().unwrap().summary, "process exited before completion sentinel with code 3");
    let (sig, _) = step(&t, InteractiveEvent::Exited { success: false, code: None });
    assert_eq!(sig.end.as_ref().unwrap().summary, "process exited before completion sentinel with code -1");
    let (late, a) = step(&t, InteractiveEvent::OutputAfterExit("answer\n__LOOM_DONE__\n".into()));
    assert_eq!(a, InteractiveAction::Continue);
    let (late, _) = step(&late, InteractiveEvent::Exited { success: false, code: Some(1) });
    assert!(interactive_turn_succeeded(&late));
    assert_eq!(late.final_text, "answer");
}
