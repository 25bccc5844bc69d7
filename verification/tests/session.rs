use agent_runtime::argv::{ScopeKind, ScopeRef};
use agent_runtime::session::{
    plan_turn_start, retries_as_first_run, scope_label, session_lock_path, session_path,
    session_scope, session_update, RunSlot, SessionUpdate, TurnStart,
};

fn named_scope(kind: ScopeKind, id: &str) -> ScopeRef {
    ScopeRef { kind, id: id.into() }
}

const LOST: &str = "error: Session not found";

#[test]
fn run_slot_guard_rejects_concurrent_prompt_for_same_scope() {
    let mut slot = RunSlot::default();
    let scope = named_scope(ScopeKind::Thread, "thr_xyz");
    assert!(slot.acquire(&scope).is_ok());
    assert!(slot.running);
    let err = slot.acquire(&scope).expect_err("second acquire");
    assert_eq!(err, "command transport session already in flight for thread:thr_xyz");
    slot.release();
    assert!(!slot.running);
    assert!(slot.acquire(&scope).is_ok());
}

#[test]
fn command_session_path_distinguishes_thread_and_channel() {
    let thread = session_path("/tmp/sessions", "actor_demo", None, &named_scope(ScopeKind::Thread, "same")).unwrap();
    let channel = session_path("/tmp/sessions", "actor_demo", None, &named_scope(ScopeKind::Channel, "same")).unwrap();
    assert_ne!(thread, channel);
    assert!(thread.ends_with("thread-same.json"));
    assert!(channel.ends_with("channel-same.json"));
    assert_eq!(thread, "/tmp/sessions/actor_demo/thread-same.json");
}

#[test]
fn interactive_session_path_distinguishes_thread_and_channel() {
    let thread = session_path("/tmp/it", "actor_demo", None, &named_scope(ScopeKind::Thread, "abc")).unwrap();
    let channel = session_path("/tmp/it", "actor_demo", None, &named_scope(ScopeKind::Channel, "abc")).unwrap();
    assert_ne!(thread, channel);
    assert!(thread.ends_with("thread-abc.json"));
    assert!(channel.ends_with("channel-abc.json"));
}

#[test]
fn session_scope_actor_reuses_one_path_across_scopes() {
    let thread = session_path("/s", "actor_demo", Some("actor"), &named_scope(ScopeKind::Thread, "thread-a")).unwrap();
    let channel = session_path("/s", "actor_demo", Some("actor"), &named_scope(ScopeKind::Channel, "channel-b")).unwrap();
    assert_eq!(thread, channel);
    assert!(thread.ends_with("actor.json"));
}

#[test]
fn session_scope_turn_does_not_persist() {
    assert!(session_path("/s", "actor_demo", Some("turn"), &named_scope(ScopeKind::Channel, "chan")).is_none());
    assert!(session_path("/s", "actor_demo", Some("  turn "), &named_scope(ScopeKind::Channel, "chan")).is_none());
}

#[test]
fn session_scope_defaults_when_blank() {
    assert_eq!(session_scope(None), "actor_scope");
    assert_eq!(session_scope(Some("   ")), "actor_scope");
    assert_eq!(session_scope(Some(" actor ")), "actor");
    assert_eq!(scope_label(&named_scope(ScopeKind::Channel, "c1")), "channel:c1");
    assert_eq!(session_lock_path("/s/a/actor.json"), "/s/a/actor.json.lock");
}

#[test]
fn turn_resumes_only_sessions_of_the_same_signature() {
    let saved = Some(("sid_1".to_string(), "sha256:a".to_string()));
    assert_eq!(plan_turn_start(&saved, "sha256:a", true, true), TurnStart::ResumeWithSpecs("sid_1".into()));
    assert_eq!(plan_turn_start(&saved, "sha256:a", false, true), TurnStart::ResumeWithArgs("sid_1".into()));
    assert_eq!(plan_turn_start(&saved, "sha256:a", false, false), TurnStart::FirstRun);
    assert_eq!(plan_turn_start(&saved, "sha256:b", true, true), TurnStart::FirstRun);
    assert_eq!(plan_turn_start(&None, "sha256:a", true, true), TurnStart::FirstRun);
}

#[test]
fn lost_resumed_sessions_are_retried_as_first_runs() {
    assert!(retries_as_first_run(false, LOST, ""));
    assert!(!retries_as_first_run(true, LOST, ""));
    assert!(!retries_as_first_run(false, "fine", ""));
}

#[test]
fn session_updates_after_a_turn() {
    assert_eq!(session_update(true, false, 0, Some("gen"), None, "", ""), SessionUpdate::Save("gen".into()));
    assert_eq!(session_update(true, false, 0, None, None, "", ""), SessionUpdate::Capture);
    assert_eq!(session_update(false, true, 0, None, Some("old"), "", ""), SessionUpdate::Capture);
    assert_eq!(session_update(false, false, 1, None, Some("old"), LOST, ""), SessionUpdate::DropLost);
    let replay = "API Error: 400 thinking or redacted_thinking blocks in the latest assistant message cannot be modified. These blocks must remain as they were in the original response.";
    assert_eq!(session_update(false, false, 1, None, Some("old"), replay, ""), SessionUpdate::DropUnreplayable);
    assert_eq!(session_update(false, true, 1, None, Some("old"), replay, ""), SessionUpdate::Keep);
    assert_eq!(session_update(false, false, 0, None, Some("old"), "", ""), SessionUpdate::Save("old".into()));
    assert_eq!(session_update(true, false, 3, Some("gen"), None, "", ""), SessionUpdate::Keep);
}
