//! How a command turn ends: the decisions of the polling loop around a
//! running provider process (when to kill it, how long to wait), and the
//! closing text and `Finished` report of the turn.
//!
//! The caller runs the process, reads its pipes and the clock, and
//! performs what these functions decide.

use vstd::prelude::*;

use crate::command::{is_char_boundary, summary_of, truncate_for_summary, SUMMARY_MAX_BYTES};
use crate::decode::{
    codex_final_text, copilot_final_text, extract_codex_json_final_text,
    extract_copilot_json_final_text, extract_opencode_json_final_text, opencode_final_text,
};
use crate::json::JsonValue;
use crate::text::{chars_of, decimal, extend_str, push_decimal, string_of, utf8_len};

verus! {

// ───────────────────────── polling ─────────────────────────

/// The longest single wait of the polling loop, in milliseconds.
pub const POLL_MS: u64 = 50;

/// The deadline of a turn started at `start_ms`: none without a positive
/// timeout (a deadline past the clock's range is the clock's end).
pub open spec fn deadline_of(start_ms: u64, timeout_ms: Option<u64>) -> Option<u64> {
    match timeout_ms {
        Some(ms) => if ms > 0 {
            Some(if start_ms + ms <= u64::MAX { (start_ms + ms) as u64 } else { u64::MAX })
        } else {
            None
        },
        None => None,
    }
}

/// The deadline of a turn.
pub fn turn_deadline(start_ms: u64, timeout_ms: Option<u64>) -> (r: Option<u64>)
    ensures
        r == deadline_of(start_ms, timeout_ms),
{
    match timeout_ms {
        Some(ms) => if ms > 0 { Some(start_ms.saturating_add(ms)) } else { None },
        None => None,
    }
}

/// What the polling loop does next.
#[derive(Debug, Clone, Copy, PartialEq, Eq)]
pub enum PollAction {
    /// A provider error was seen: kill the process and end the turn.
    KillForRuntimeError,
    /// The process exited: end the turn.
    Exited,
    /// The turn's deadline passed: kill the process, it timed out.
    KillTimedOut,
    /// No output for the idle timeout: kill the process, it idled out.
    KillIdleTimedOut,
    /// Wait for output at most this many milliseconds.
    Wait(u64),
}

/// `a - b`, or 0.
pub open spec fn since(now: u64, then: u64) -> nat {
    if now >= then { (now - then) as nat } else { 0 }
}

/// The wait: at most `POLL_MS`, and no longer than what is left until the
/// deadline and until the idle timeout.
pub open spec fn wait_ms(now_ms: u64, deadline_ms: Option<u64>, last_output_ms: u64, idle_timeout_ms: Option<u64>) -> nat {
    let a: nat = match deadline_ms {
        Some(d) => if d >= now_ms && d - now_ms < POLL_MS { (d - now_ms) as nat } else if d < now_ms { 0 } else { POLL_MS as nat },
        None => POLL_MS as nat,
    };
    let b: nat = match idle_timeout_ms {
        Some(t) => if since(now_ms, last_output_ms) >= t { 0 } else if t - since(now_ms, last_output_ms) < POLL_MS {
            (t - since(now_ms, last_output_ms)) as nat
        } else {
            POLL_MS as nat
        },
        None => POLL_MS as nat,
    };
    if a <= b { a } else { b }
}

/// The next step of the polling loop, checked in this order: a provider
/// error ends the turn; then an exit; then the deadline; then the idle
/// timeout (`idle_timeout_ms` positive); else wait. Whether to signal the
/// process for a pending cancel is decided alongside: when no provider
/// error was seen and the process has not exited.
pub open spec fn poll_step(
    has_runtime_error: bool,
    exited: bool,
    cancel_requested: bool,
    now_ms: u64,
    deadline_ms: Option<u64>,
    last_output_ms: u64,
    idle_timeout_ms: Option<u64>,
) -> (bool, PollAction) {
    if has_runtime_error {
        (false, PollAction::KillForRuntimeError)
    } else if exited {
        (false, PollAction::Exited)
    } else {
        let action = if deadline_ms matches Some(d) && now_ms >= d {
            PollAction::KillTimedOut
        } else if idle_timeout_ms matches Some(t) && since(now_ms, last_output_ms) >= t {
            PollAction::KillIdleTimedOut
        } else {
            PollAction::Wait(wait_ms(now_ms, deadline_ms, last_output_ms, idle_timeout_ms) as u64)
        };
        (cancel_requested, action)
    }
}

/// Decide the next step of the polling loop (see [`poll_step`]); the first
/// result says whether to signal the process for a pending cancel.
pub fn next_poll_step(
    has_runtime_error: bool,
    exited: bool,
    cancel_requested: bool,
    now_ms: u64,
    deadline_ms: Option<u64>,
    last_output_ms: u64,
    idle_timeout_ms: Option<u64>,
) -> (r: (bool, PollAction))
    requires
        idle_timeout_ms matches Some(t) ==> t > 0,
    ensures
        r == poll_step(has_runtime_error, exited, cancel_requested, now_ms, deadline_ms, last_output_ms, idle_timeout_ms),
{
    if has_runtime_error {
        return (false, PollAction::KillForRuntimeError);
    }
    if exited {
        return (false, PollAction::Exited);
    }
    let idle: u64 = if now_ms >= last_output_ms { now_ms - last_output_ms } else { 0 };
    if let Some(d) = deadline_ms {
        if now_ms >= d {
            return (cancel_requested, PollAction::KillTimedOut);
        }
    }
    if let Some(t) = idle_timeout_ms {
        if idle >= t {
            return (cancel_requested, PollAction::KillIdleTimedOut);
        }
    }
    let a: u64 = match deadline_ms {
        Some(d) => if d >= now_ms && d - now_ms < POLL_MS { d - now_ms } else if d < now_ms { 0 } else { POLL_MS },
        None => POLL_MS,
    };
    let b: u64 = match idle_timeout_ms {
        Some(t) => if idle >= t { 0 } else if t - idle < POLL_MS { t - idle } else { POLL_MS },
        None => POLL_MS,
    };
    (cancel_requested, PollAction::Wait(if a <= b { a } else { b }))
}

// ───────────────────────── the end of a turn ─────────────────────────

/// What is known when a command turn's process is gone.
#[derive(Debug, Clone, PartialEq, Eq)]
pub struct TurnEnd {
    /// The exit code; -1 when the process ended without one.
    pub exit_code: i32,
    pub cancelled: bool,
    pub timed_out: bool,
    pub idle_timed_out: bool,
    /// The configured timeouts, for the summary.
    pub timeout_ms: Option<u64>,
    pub idle_timeout_ms: Option<u64>,
    /// A provider error seen while the turn ran (or the failed stdin write).
    pub early_runtime_error: Option<String>,
    /// The provider error found in the collected stdout, and in stderr.
    pub stdout_runtime_error: Option<String>,
    pub stderr_runtime_error: Option<String>,
    /// Everything the process wrote to stderr.
    pub stderr: String,
}

/// A turn succeeds when the process exited with code 0 and was neither
/// cancelled nor timed out.
pub open spec fn end_success(e: TurnEnd) -> bool {
    e.exit_code == 0 && !e.cancelled && !e.timed_out && !e.idle_timed_out
}

/// The optional view of an optional string.
pub open spec fn text_of(o: Option<String>) -> Option<Seq<char>> {
    match o {
        Some(s) => Some(s@),
        None => None,
    }
}

/// The error of a failed turn: the early one, else the one in stdout, else
/// the one in stderr.
pub open spec fn end_runtime_error(e: TurnEnd) -> Option<Seq<char>> {
    if end_success(e) {
        None
    } else if e.early_runtime_error is Some {
        text_of(e.early_runtime_error)
    } else if e.stdout_runtime_error is Some {
        text_of(e.stdout_runtime_error)
    } else {
        text_of(e.stderr_runtime_error)
    }
}

/// An integer in decimal, with a `-` when negative.
pub open spec fn signed_decimal(i: int) -> Seq<char> {
    if i < 0 { seq!['-'] + decimal((-i) as nat) } else { decimal(i as nat) }
}

/// Whether the summary is made from stderr.
pub open spec fn summary_from_stderr(e: TurnEnd) -> bool {
    !e.cancelled && !e.timed_out && !e.idle_timed_out && !end_success(e) && end_runtime_error(e) is None
        && e.stderr@.len() != 0
}

/// The `Finished` summary of a turn: why it was cut short, nothing on
/// success, else the provider error, else the stderr, else the exit code.
pub open spec fn end_summary(e: TurnEnd) -> Seq<char> {
    if e.cancelled {
        "cancelled"@
    } else if e.timed_out {
        match e.timeout_ms {
            Some(ms) => "timed out after "@ + decimal(ms as nat) + "ms"@,
            None => "timed out"@,
        }
    } else if e.idle_timed_out {
        match e.idle_timeout_ms {
            Some(ms) => "idle timed out after "@ + decimal(ms as nat) + "ms"@,
            None => "idle timed out"@,
        }
    } else if end_success(e) {
        seq![]
    } else if end_runtime_error(e) is Some {
        end_runtime_error(e)->0
    } else if e.stderr@.len() != 0 {
        summary_of(e.stderr@)
    } else {
        "exited with code "@ + signed_decimal(e.exit_code as int)
    }
}

/// Whether the turn succeeded.
pub fn turn_succeeded(e: &TurnEnd) -> (b: bool)
    ensures
        b == end_success(*e),
{
    e.exit_code == 0 && !e.cancelled && !e.timed_out && !e.idle_timed_out
}

fn clone_opt(o: &Option<String>) -> (r: Option<String>)
    ensures
        text_of(r) == text_of(*o),
{
    match o {
        Some(s) => Some(s.clone()),
        None => None,
    }
}

/// The error of a failed turn (see [`end_runtime_error`]).
pub fn turn_runtime_error(e: &TurnEnd) -> (r: Option<String>)
    ensures
        text_of(r) == end_runtime_error(*e),
{
    if turn_succeeded(e) {
        None
    } else if e.early_runtime_error.is_some() {
        clone_opt(&e.early_runtime_error)
    } else if e.stdout_runtime_error.is_some() {
        clone_opt(&e.stdout_runtime_error)
    } else {
        clone_opt(&e.stderr_runtime_error)
    }
}

/// The summary of a turn (see [`end_summary`]). Shortening a long stderr
/// inside a multi-byte character is refused (it would panic), so when the
/// summary is made from stderr, a long one must have a character boundary
/// at byte `SUMMARY_MAX_BYTES`.
pub fn turn_summary(e: &TurnEnd) -> (s: String)
    requires
        summary_from_stderr(*e) ==> (utf8_len(e.stderr@) <= SUMMARY_MAX_BYTES
            || is_char_boundary(e.stderr@, SUMMARY_MAX_BYTES as nat)),
    ensures
        s@ == end_summary(*e),
{
    let mut out: Vec<char> = Vec::new();
    if e.cancelled {
        extend_str(&mut out, "cancelled");
    } else if e.timed_out {
        match e.timeout_ms {
            Some(ms) => {
                extend_str(&mut out, "timed out after ");
                push_decimal(&mut out, ms);
                extend_str(&mut out, "ms");
            },
            None => extend_str(&mut out, "timed out"),
        }
    } else if e.idle_timed_out {
        match e.idle_timeout_ms {
            Some(ms) => {
                extend_str(&mut out, "idle timed out after ");
                push_decimal(&mut out, ms);
                extend_str(&mut out, "ms");
            },
            None => extend_str(&mut out, "idle timed out"),
        }
    } else if turn_succeeded(e) {
    } else if let Some(m) = turn_runtime_error(e) {
        return m;
    } else if chars_of(e.stderr.as_str()).len() != 0 {
        proof {
            assert(e.stderr@.len() != 0);
        }
        return truncate_for_summary(e.stderr.as_str());
    } else {
        extend_str(&mut out, "exited with code ");
        let c = e.exit_code;
        if c < 0 {
            out.push('-');
            let m: u64 = (-(c as i64)) as u64;
            push_decimal(&mut out, m);
        } else {
            push_decimal(&mut out, c as u64);
        }
    }
    proof {
        reveal_strlit("");
    }
    assert(out@ =~= end_summary(*e));
    string_of(&out)
}

/// Whether the turn ends with a `Finished` report: unless the provider
/// already reported its finish on a successful turn.
pub open spec fn reports_finished(emitted_finish: bool, success: bool) -> bool {
    !emitted_finish || !success
}

/// Whether to send the turn's `Finished` report.
pub fn sends_finished(emitted_finish: bool, success: bool) -> (b: bool)
    ensures
        b == reports_finished(emitted_finish, success),
{
    !emitted_finish || !success
}

/// How a command's stdout is read when no provider decoder is configured.
#[derive(Debug, Clone, Copy, PartialEq, Eq)]
pub enum CommandOutputFormat {
    Text,
    NdjsonLines,
    ClaudeStreamJson,
    CodexStreamJson,
    CopilotJson,
    OpencodeJson,
}

/// The closing text of a turn without a provider decoder, if any: the
/// whole stdout for plain text (unless empty); the extracted answer for
/// Copilot and OpenCode JSON, and for Codex when nothing was streamed;
/// nothing more for Codex when text was streamed; an empty flush for the
/// other streaming formats.
pub open spec fn closing_text(format: CommandOutputFormat, emitted_text: bool, stdout: Seq<char>, values: Seq<JsonValue>) -> Option<Seq<char>> {
    match format {
        CommandOutputFormat::Text => if stdout.len() != 0 { Some(stdout) } else { None },
        CommandOutputFormat::CopilotJson => copilot_final_text(values),
        CommandOutputFormat::OpencodeJson => opencode_final_text(values),
        CommandOutputFormat::CodexStreamJson => if !emitted_text { codex_final_text(values) } else { None },
        _ => Some(seq![]),
    }
}

/// The closing text of a turn (see [`closing_text`]); `values` are the
/// stdout lines that parse as JSON.
pub fn closing_text_event(format: CommandOutputFormat, emitted_text: bool, stdout: &str, values: &Vec<JsonValue>) -> (r: Option<String>)
    ensures
        text_of(r) == closing_text(format, emitted_text, stdout@, values@),
{
    match format {
        CommandOutputFormat::Text => if chars_of(stdout).len() != 0 { Some(stdout.to_owned()) } else {
            proof {
                assert(stdout@.len() == 0);
            }
            None
        },
        CommandOutputFormat::CopilotJson => extract_copilot_json_final_text(values),
        CommandOutputFormat::OpencodeJson => extract_opencode_json_final_text(values),
        CommandOutputFormat::CodexStreamJson => if !emitted_text { extract_codex_json_final_text(values) } else { None },
        _ => {
            let r = String::new();
            assert(r@ =~= seq![]);
            Some(r)
        },
    }
}

} // verus!
