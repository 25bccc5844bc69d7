use agent_runtime::json::JsonValue;
use agent_runtime::outcome::{
    closing_text_event, next_poll_step, sends_finished, turn_deadline, turn_runtime_error,
    turn_succeeded, turn_summary, CommandOutputFormat, PollAction, TurnEnd,
};

fn end(exit_code: i32) -> TurnEnd {
    TurnEnd {
        exit_code,
        cancelled: false,
        timed_out: false,
        idle_timed_out: false,
        timeout_ms: None,
        idle_timeout_ms: None,
        early_runtime_error: None,
        stdout_runtime_error: None,
        stderr_runtime_error: None,
        stderr: String::new(),
    }
}

#[test]
fn successful_turn_has_empty_summary() {
    let e = end(0);
    assert!(turn_succeeded(&e));
    assert_eq!(turn_summary(&e), "");
    assert_eq!(turn_runtime_error(&e), None);
}

#[test]
fn cancellation_and_timeouts_name_themselves() {
    let mut e = end(0);
    e.cancelled = true;
    assert!(!turn_succeeded(&e));
    assert_eq!(turn_summary(&e), "cancelled");
    let mut e = end(-1);
    e.timed_out = true;
    e.timeout_ms = Some(1500);
    assert_eq!(turn_summary(&e), "timed out after 1500ms");
    let mut e = end(-1);
    e.idle_timed_out = true;
    e.idle_timeout_ms = Some(200);
    assert_eq!(turn_summary(&e), "idle timed out after 200ms");
    e.idle_timeout_ms = None;
    assert_eq!(turn_summary(&e), "idle timed out");
}

#[test]
fn failed_turn_prefers_runtime_errors_then_stderr_then_exit_code() {
    let mut e = end(2);
    e.stderr = "  boom on stderr \n".into();
    e.stderr_runtime_error = Some("stderr error".into());
    e.stdout_runtime_error = Some("stdout error".into());
    assert_eq!(turn_summary(&e), "stdout error");
    e.early_runtime_error = Some("early error".into());
    assert_eq!(turn_summary(&e), "early error");
    e.early_runtime_error = None;
    e.stdout_runtime_error = None;
    e.stderr_runtime_error = None;
    assert_eq!(turn_summary(&e), "boom on stderr");
    e.stderr.clear();
    assert_eq!(turn_summary(&e), "exited with code 2");
    assert_eq!(turn_summary(&end(-1)), "exited with code -1");
}

#[test]
fn long_stderr_summary_is_cut_at_500_bytes() {
    let mut e = end(1);
    e.stderr = "x".repeat(600);
    let s = turn_summary(&e);
    assert_eq!(s, format!("{}…", "x".repeat(500)));
}

#[test]
fn finished_is_reported_unless_provider_finished_successfully() {
    assert!(sends_finished(false, true));
    assert!(sends_finished(true, false));
    assert!(!sends_finished(true, true));
}

#[test]
fn closing_text_by_output_format() {
    let none: Vec<JsonValue> = Vec::new();
    assert_eq!(closing_text_event(CommandOutputFormat::Text, false, "all\n", &none), Some("all\n".into()));
    assert_eq!(closing_text_event(CommandOutputFormat::Text, false, "", &none), None);
    assert_eq!(closing_text_event(CommandOutputFormat::NdjsonLines, true, "x", &none), Some(String::new()));
    assert_eq!(closing_text_event(CommandOutputFormat::CodexStreamJson, true, "x", &none), None);
    let values = vec![JsonValue::Object(vec![
        ("type".into(), JsonValue::String("task_complete".into())),
        ("last_agent_message".into(), JsonValue::String("Done".into())),
    ])];
    assert_eq!(closing_text_event(CommandOutputFormat::CodexStreamJson, false, "", &values), Some("Done".into()));
}

#[test]
fn poll_steps_follow_priority_order() {
    assert_eq!(next_poll_step(true, true, true, 0, None, 0, None), (false, PollAction::KillForRuntimeError));
    assert_eq!(next_poll_step(false, true, true, 0, None, 0, None), (false, PollAction::Exited));
    assert_eq!(next_poll_step(false, false, true, 100, Some(100), 0, Some(10)), (true, PollAction::KillTimedOut));
    assert_eq!(next_poll_step(false, false, false, 100, Some(200), 80, Some(20)), (false, PollAction::KillIdleTimedOut));
    assert_eq!(next_poll_step(false, false, false, 100, None, 0, None), (false, PollAction::Wait(50)));
    assert_eq!(next_poll_step(false, false, false, 100, Some(130), 100, Some(1000)), (false, PollAction::Wait(30)));
    assert_eq!(next_poll_step(false, false, false, 100, None, 90, Some(20)), (false, PollAction::Wait(10)));
}

#[test]
fn deadline_needs_a_positive_timeout() {
    assert_eq!(turn_deadline(1000, Some(500)), Some(1500));
    assert_eq!(turn_deadline(1000, Some(0)), None);
    assert_eq!(turn_deadline(1000, None), None);
    assert_eq!(turn_deadline(u64::MAX - 1, Some(10)), Some(u64::MAX));
}
