//! Provider sessions of the command transport: one run at a time per
//! scope, where a scope's session record lives, whether a turn resumes a
//! saved session or starts a first run, and what the turn's outcome does
//! to the saved session.
//!
//! Reading, writing and deleting session files, and running the process,
//! is the caller's business.

use vstd::prelude::*;

use crate::argv::{kind_name, ScopeKind, ScopeRef};
use crate::command::{looks_like_session_lost, looks_like_signed_thinking_replay_error, session_lost, signed_thinking_replay_error};
use crate::paths::{is_relative_text, is_verbatim, join_path, joined, lemma_join_keeps_plain};
use crate::text::{chars_of, eq_str, extend_str, string_of, trim, trim_chars};

verus! {

// ───────────────────────── the run slot ─────────────────────────

/// The in-flight state of one scope: whether a run holds the slot, the
/// child's process id once spawned, and whether a cancel was requested.
#[derive(Debug, Clone, Copy, PartialEq, Eq, Default)]
pub struct RunSlot {
    pub running: bool,
    pub pid: Option<u32>,
    pub cancel_requested: bool,
}

/// `thread:{id}` or `channel:{id}`.
pub open spec fn scope_label_of(scope: ScopeRef) -> Seq<char> {
    kind_name(scope.kind) + ":"@ + scope.id@
}

/// The label of a scope in messages.
pub fn scope_label(scope: &ScopeRef) -> (s: String)
    ensures
        s@ == scope_label_of(*scope),
{
    let mut out: Vec<char> = Vec::new();
    match scope.kind {
        ScopeKind::Thread => extend_str(&mut out, "thread"),
        ScopeKind::Channel => extend_str(&mut out, "channel"),
    }
    extend_str(&mut out, ":");
    extend_str(&mut out, scope.id.as_str());
    proof {
        reveal_strlit("thread");
        reveal_strlit("channel");
    }
    string_of(&out)
}

/// The refusal of a second concurrent run in a scope.
pub open spec fn busy_message(scope: ScopeRef) -> Seq<char> {
    "command transport session already in flight for "@ + scope_label_of(scope)
}

/// The slot after a run takes it: `None` when another run holds it.
pub open spec fn acquired(s: RunSlot) -> Option<RunSlot> {
    if s.running {
        None
    } else {
        Some(RunSlot { running: true, pid: None, cancel_requested: false })
    }
}

/// The slot after a run gives it back.
pub open spec fn released() -> RunSlot {
    RunSlot { running: false, pid: None, cancel_requested: false }
}

impl RunSlot {
    /// Take the slot for a run: refused while another run holds it;
    /// otherwise the slot is held, with no process and no cancel yet.
    pub fn acquire(&mut self, scope: &ScopeRef) -> (r: Result<(), String>)
        ensures
            match acquired(*old(self)) {
                Some(next) => r is Ok && *final(self) == next,
                None => *final(self) == *old(self) && (r matches Err(m) && m@ == busy_message(*scope)),
            },
    {
        if self.running {
            let mut m: Vec<char> = Vec::new();
            extend_str(&mut m, "command transport session already in flight for ");
            let label = scope_label(scope);
            extend_str(&mut m, label.as_str());
            return Err(string_of(&m));
        }
        self.running = true;
        self.pid = None;
        self.cancel_requested = false;
        Ok(())
    }

    /// Give the slot back when the run ends.
    pub fn release(&mut self)
        ensures
            *final(self) == released(),
    {
        self.running = false;
        self.pid = None;
        self.cancel_requested = false;
    }
}

/// One run at a time per scope: once a run has taken the slot, the next
/// run is refused until the slot is given back, and then it is taken.
pub proof fn law_run_slot_exclusive(s: RunSlot)
    ensures
        acquired(s) matches Some(held) ==> acquired(held) is None,
        acquired(released()) is Some,
{
}

// ───────────────────────── session files ─────────────────────────

/// The session scope of a configuration: trimmed, `actor_scope` when unset
/// or blank.
pub open spec fn session_scope_of(configured: Option<Seq<char>>) -> Seq<char> {
    match configured {
        Some(s) => if trim(s).len() != 0 { trim(s) } else { "actor_scope"@ },
        None => "actor_scope"@,
    }
}

/// The session scope of a configuration.
pub fn session_scope(configured: Option<&str>) -> (s: String)
    ensures
        s@ == session_scope_of(crate::server_url::opt_str_view(configured)),
{
    match configured {
        Some(c) => {
            let t = trim_chars(&chars_of(c));
            if t.len() != 0 {
                return string_of(&t);
            }
            "actor_scope".to_owned()
        },
        None => "actor_scope".to_owned(),
    }
}

/// The session file's name: `actor.json` for the actor scope, else
/// `{kind}-{id}.json`.
pub open spec fn session_file_name(scope_name: Seq<char>, scope: ScopeRef) -> Seq<char> {
    if scope_name == "actor"@ {
        "actor.json"@
    } else {
        kind_name(scope.kind) + "-"@ + scope.id@ + ".json"@
    }
}

/// Where a scope's session record lives: nowhere for the `turn` scope
/// (nothing persists); else the session file under
/// `sessions_dir/actor_id`.
pub fn session_path(sessions_dir: &str, actor_id: &str, configured: Option<&str>, scope: &ScopeRef) -> (r: Option<String>)
    ensures
        session_scope_of(crate::server_url::opt_str_view(configured)) == "turn"@ <==> r is None,
        r matches Some(p) ==> (is_relative_text(actor_id@) && !is_verbatim(sessions_dir@)
            && (sessions_dir@.len() >= 4 || !sessions_dir@.contains('\\'))
            && is_relative_text(session_file_name(session_scope_of(crate::server_url::opt_str_view(configured)), *scope))
            ==> exists|dir: Seq<char>| joined(sessions_dir@, actor_id@, dir)
                && joined(dir, session_file_name(session_scope_of(crate::server_url::opt_str_view(configured)), *scope), p@)),
{
    let name = session_scope(configured);
    let nc = chars_of(name.as_str());
    if eq_str(&nc, "turn") {
        return None;
    }
    let mut file: Vec<char> = Vec::new();
    if eq_str(&nc, "actor") {
        extend_str(&mut file, "actor.json");
    } else {
        match scope.kind {
            ScopeKind::Thread => extend_str(&mut file, "thread"),
            ScopeKind::Channel => extend_str(&mut file, "channel"),
        }
        extend_str(&mut file, "-");
        extend_str(&mut file, scope.id.as_str());
        extend_str(&mut file, ".json");
        proof {
            reveal_strlit("thread");
            reveal_strlit("channel");
        }
    }
    let dir = join_path(sessions_dir, actor_id);
    proof {
        if is_relative_text(actor_id@) && !is_verbatim(sessions_dir@)
            && (sessions_dir@.len() >= 4 || !sessions_dir@.contains('\\')) {
            lemma_join_keeps_plain(sessions_dir@, actor_id@, dir@);
        }
    }
    let f = string_of(&file);
    Some(join_path(dir.as_str(), f.as_str()))
}

/// The lock file of a session record: the record's path with `.lock`
/// appended to its file name.
pub fn session_lock_path(session_file: &str) -> (r: String)
    ensures
        r@ == session_file@ + ".lock"@,
{
    let mut out = chars_of(session_file);
    extend_str(&mut out, ".lock");
    string_of(&out)
}

// ───────────────────────── resume or first run ─────────────────────────

/// How a turn's argument vector is built.
#[derive(Debug, Clone, PartialEq, Eq)]
pub enum TurnStart {
    /// Resume the saved session with the provider's resume argument specs.
    ResumeWithSpecs(String),
    /// Resume the saved session with the legacy resume arguments.
    ResumeWithArgs(String),
    /// Start a first run.
    FirstRun,
}

/// The saved session id a turn may resume: the saved record's, when it was
/// made by the same command signature.
pub open spec fn resumable(saved: Option<(String, String)>, signature: Seq<char>) -> Option<Seq<char>> {
    match saved {
        Some((sid, sig)) => if sig@ == signature { Some(sid@) } else { None },
        None => None,
    }
}

/// How a turn starts: resuming when a resumable session is saved and the
/// provider has resume argument specs, else resume arguments; else a
/// first run.
pub open spec fn turn_start_of(saved: Option<(String, String)>, signature: Seq<char>, has_resume_specs: bool,
    has_resume_args: bool) -> Option<(bool, Seq<char>)> {
    match resumable(saved, signature) {
        Some(sid) => if has_resume_specs {
            Some((true, sid))
        } else if has_resume_args {
            Some((false, sid))
        } else {
            None
        },
        None => None,
    }
}

/// The view of a turn start: `None` for a first run, else whether resume
/// specs are used and the session id.
pub open spec fn start_view(t: TurnStart) -> Option<(bool, Seq<char>)> {
    match t {
        TurnStart::ResumeWithSpecs(sid) => Some((true, sid@)),
        TurnStart::ResumeWithArgs(sid) => Some((false, sid@)),
        TurnStart::FirstRun => None,
    }
}

/// The resumable session id, if any.
pub fn resumable_session(saved: &Option<(String, String)>, signature: &str) -> (r: Option<String>)
    ensures
        crate::server_url::opt_view(r) == resumable(*saved, signature@),
{
    match saved {
        Some((sid, sig)) => if crate::text::eq_chars(&chars_of(sig.as_str()), &chars_of(signature)) {
            Some(sid.clone())
        } else {
            None
        },
        None => None,
    }
}

/// Decide how a turn starts. `saved` is the scope's saved session id and
/// the command signature it was made with.
pub fn plan_turn_start(saved: &Option<(String, String)>, signature: &str, has_resume_specs: bool,
    has_resume_args: bool) -> (r: TurnStart)
    ensures
        start_view(r) == turn_start_of(*saved, signature@, has_resume_specs, has_resume_args),
{
    match resumable_session(saved, signature) {
        Some(sid) => if has_resume_specs {
            TurnStart::ResumeWithSpecs(sid)
        } else if has_resume_args {
            TurnStart::ResumeWithArgs(sid)
        } else {
            TurnStart::FirstRun
        },
        None => TurnStart::FirstRun,
    }
}

/// Whether a resumed turn whose session is gone is retried at once as a
/// first run.
pub open spec fn retry_as_first_run(first_run: bool, stderr: Seq<char>, stdout: Seq<char>) -> bool {
    !first_run && session_lost(stderr, stdout)
}

/// Decide whether to retry a resumed turn as a first run.
pub fn retries_as_first_run(first_run: bool, stderr: &str, stdout: &str) -> (b: bool)
    ensures
        b == retry_as_first_run(first_run, stderr@, stdout@),
{
    !first_run && looks_like_session_lost(stderr, stdout)
}

// ───────────────────────── after the turn ─────────────────────────

/// What a finished turn does to the scope's saved session.
#[derive(Debug, Clone, PartialEq, Eq)]
pub enum SessionUpdate {
    /// Save this (runtime-generated or resumed) session id.
    Save(String),
    /// Capture the session id from the output (decoder, else the
    /// configured capture rule) and save it if found.
    Capture,
    /// The session is gone: delete the record so the next turn starts over.
    DropLost,
    /// The session cannot be replayed: delete the record.
    DropUnreplayable,
    /// Leave the record as it is.
    Keep,
}

/// The update a turn makes: after a successful first run (or retry), save
/// the generated id, else capture one; after a failure that lost the
/// session, drop it; after a resumed turn failing on a signed-thinking
/// replay, drop it; after a successful resumed turn, save it again (to
/// refresh its last use).
pub open spec fn session_update_of(first_run: bool, retried: bool, exit_code: i32, generated: Option<Seq<char>>,
    resumed: Option<Seq<char>>, stderr: Seq<char>, stdout: Seq<char>) -> Option<(int, Seq<char>)> {
    if (first_run || retried) && exit_code == 0 {
        match generated {
            Some(sid) => Some((0, sid)),
            None => Some((1, seq![])),
        }
    } else if exit_code != 0 && session_lost(stderr, stdout) {
        Some((2, seq![]))
    } else if !first_run && !retried && exit_code != 0 && signed_thinking_replay_error(stderr, stdout) {
        Some((3, seq![]))
    } else if !first_run && !retried && exit_code == 0 && resumed is Some {
        Some((0, resumed->0))
    } else {
        None
    }
}

/// The view of an update: its kind (save, capture, drop lost, drop
/// unreplayable) and the id saved; `None` to keep the record.
pub open spec fn update_view(u: SessionUpdate) -> Option<(int, Seq<char>)> {
    match u {
        SessionUpdate::Save(sid) => Some((0, sid@)),
        SessionUpdate::Capture => Some((1, seq![])),
        SessionUpdate::DropLost => Some((2, seq![])),
        SessionUpdate::DropUnreplayable => Some((3, seq![])),
        SessionUpdate::Keep => None,
    }
}

/// Decide what a finished turn does to the saved session.
pub fn session_update(first_run: bool, retried: bool, exit_code: i32, generated: Option<&str>, resumed: Option<&str>,
    stderr: &str, stdout: &str) -> (u: SessionUpdate)
    ensures
        update_view(u) == session_update_of(first_run, retried, exit_code,
            crate::server_url::opt_str_view(generated), crate::server_url::opt_str_view(resumed), stderr@, stdout@),
{
    if (first_run || retried) && exit_code == 0 {
        return match generated {
            Some(sid) => SessionUpdate::Save(sid.to_owned()),
            None => SessionUpdate::Capture,
        };
    }
    if exit_code != 0 && looks_like_session_lost(stderr, stdout) {
        return SessionUpdate::DropLost;
    }
    if !first_run && !retried && exit_code != 0 && looks_like_signed_thinking_replay_error(stderr, stdout) {
        return SessionUpdate::DropUnreplayable;
    }
    if !first_run && !retried && exit_code == 0 {
        if let Some(sid) = resumed {
            return SessionUpdate::Save(sid.to_owned());
        }
    }
    SessionUpdate::Keep
}

} // verus!
