//! Provider manifests: the checks a manifest passes before the runtime
//! uses it.

use vstd::prelude::*;

use crate::argv::{ProviderArgSpec, ProviderConditionalArgSpec};
use crate::provider::{
    ProviderPromptSpec, args_deliver_prompt, provider_id_error, string_args_have_prompt_reference, validate_provider_id,
};
use crate::provider_decoder::{decoder_error, validate_decoder_spec, ProviderDecoderSpec};
use crate::text::{chars_of, decimal, eq_str, extend_chars, extend_str, push_decimal, string_of, trim, trim_chars};

verus! {

/// How a provider's binary is found.
#[derive(Debug, Clone)]
pub struct ProviderDetectSpec {
    /// Command names looked up on `PATH`.
    pub candidates: Vec<String>,
}

/// Where a provider session id comes from.
#[derive(Debug, Clone, Copy, PartialEq, Eq)]
pub enum ProviderSessionIdSource {
    /// The runtime makes one up.
    LoomUuid,
    /// The provider's output names it (a decoder captures it).
    ProviderCapture,
}

/// How a mode keeps a provider session.
#[derive(Debug)]
pub struct ProviderSessionSpec {
    /// `actor_scope` (default), `actor` or `turn`.
    pub scope: Option<String>,
    pub id_source: Option<ProviderSessionIdSource>,
    pub resume_args: Vec<ProviderArgSpec>,
}

/// The session arguments of an interactive command.
#[derive(Debug, Clone)]
pub struct InteractiveSessionSpec {
    pub new_args: Vec<String>,
    pub resume_args: Vec<String>,
}

/// The configuration of an interactive command mode.
#[derive(Debug, Clone)]
pub struct ProviderInteractiveSpec {
    pub session: InteractiveSessionSpec,
    pub prompt_template: String,
}

/// One way of running a provider.
#[derive(Debug)]
pub struct ProviderModeSpec {
    /// `command`, `interactive_command` or `acp`.
    pub transport: String,
    pub command: String,
    pub args: Vec<ProviderArgSpec>,
    /// Environment templates in key order.
    pub env: Vec<(String, String)>,
    pub stdin: Option<String>,
    pub model_args: Vec<String>,
    pub stdout: ProviderDecoderSpec,
    pub stderr: Option<ProviderDecoderSpec>,
    pub session: Option<ProviderSessionSpec>,
    pub timeout_ms: Option<u64>,
    pub idle_timeout_ms: Option<u64>,
    pub interactive: Option<ProviderInteractiveSpec>,
    pub prompt: Option<ProviderPromptSpec>,
    /// The kind of the interactive provider, when the mode names one.
    pub provider_kind: Option<String>,
    /// The provider settings path, when the provider's settings mode is
    /// `custom`.
    pub custom_settings_path: Option<String>,
}

/// A provider manifest: its id, how its binary is found, and its modes in
/// name order.
#[derive(Debug)]
pub struct ProviderManifest {
    pub schema_version: u32,
    pub id: String,
    /// The provider this one extends, by id.
    pub extends: Option<String>,
    pub display_name: String,
    pub detect: ProviderDetectSpec,
    pub modes: Vec<(String, ProviderModeSpec)>,
    /// The models offered, as (id, label); the first is the default.
    pub models: Vec<(String, String)>,
}

/// The start of a manifest error: `provider `{id}` mode `{mode}` `.
pub open spec fn mode_prefix(id: Seq<char>, mode: Seq<char>) -> Seq<char> {
    crate::provider_decoder::mode_prefix(id, mode)
}

fn prefix_exec(id: &str, mode: &str) -> (out: Vec<char>)
    ensures
        out@ == mode_prefix(id@, mode@),
{
    let mut out: Vec<char> = Vec::new();
    extend_str(&mut out, "provider `");
    extend_str(&mut out, id);
    extend_str(&mut out, "` mode `");
    extend_str(&mut out, mode);
    extend_str(&mut out, "` ");
    out
}

fn prefixed(id: &str, mode: &str, rest: &str) -> (out: String)
    ensures
        out@ == mode_prefix(id@, mode@) + rest@,
{
    let mut m = prefix_exec(id, mode);
    extend_str(&mut m, rest);
    string_of(&m)
}

// ───────────────────────── the command ─────────────────────────

/// Calls `Path::components` and counts the components of the command. A
/// command without `/`, `\` or `:` has at most one on every platform; how
/// other commands split is the platform's and left unsaid.
#[verifier::external_body]
fn component_count(command: &str) -> (n: usize)
    ensures
        !(command@.contains('/') || command@.contains('\\') || command@.contains(':')) ==> n <= 1,
{
    std::path::Path::new(command).components().count()
}

/// Whether `c` is one of the candidates.
pub open spec fn is_candidate(candidates: Seq<String>, c: Seq<char>) -> bool {
    exists|i: int| 0 <= i < candidates.len() && (#[trigger] candidates[i])@ == c
}

/// Why a mode's (trimmed) command is refused, if it is: `{bin}` needs
/// detect candidates; no other template may be used; otherwise it must be
/// an explicit path (`explicit_path`: it has several path components) or
/// one of the candidates.
pub open spec fn mode_command_error(id: Seq<char>, mode: Seq<char>, command: Seq<char>, candidates: Seq<String>,
    explicit_path: bool) -> Option<Seq<char>> {
    let c = trim(command);
    if c == "{bin}"@ {
        if candidates.len() == 0 {
            Some(mode_prefix(id, mode) + "uses `{bin}` but detect.candidates is empty"@)
        } else {
            None
        }
    } else if c.contains('{') || c.contains('}') {
        Some(mode_prefix(id, mode) + "command may only use the `{bin}` template"@)
    } else if explicit_path || is_candidate(candidates, c) {
        None
    } else {
        Some(mode_prefix(id, mode) + "command `"@ + c
            + "` must be `{bin}`, an explicit path, or one of detect.candidates"@)
    }
}

fn has_char(s: &Vec<char>, c: char) -> (b: bool)
    ensures
        b == s@.contains(c),
{
    let mut i: usize = 0;
    while i < s.len()
        invariant
            i <= s.len(),
            forall|j: int| 0 <= j < i ==> s@[j] != c,
        decreases s.len() - i,
    {
        if s[i] == c {
            assert(s@[i as int] == c);
            return true;
        }
        i += 1;
    }
    false
}

fn candidate_exec(candidates: &Vec<String>, c: &Vec<char>) -> (b: bool)
    ensures
        b == is_candidate(candidates@, c@),
{
    let mut i: usize = 0;
    while i < candidates.len()
        invariant
            i <= candidates.len(),
            forall|j: int| 0 <= j < i ==> (#[trigger] candidates@[j])@ != c@,
        decreases candidates.len() - i,
    {
        if crate::text::eq_chars(&chars_of(candidates[i].as_str()), c) {
            return true;
        }
        i += 1;
    }
    false
}

/// Check a mode's command (see [`mode_command_error`]); whether the
/// command is an explicit path is decided by the platform's path rules.
pub fn validate_mode_command(id: &str, mode_name: &str, command: &str, candidates: &Vec<String>) -> (r: Result<(), String>)
    ensures
        exists|explicit: bool| (!(trim(command@).contains('/') || trim(command@).contains('\\') || trim(command@).contains(':')) ==> !explicit)
            && match r {
                Ok(()) => mode_command_error(id@, mode_name@, command@, candidates@, explicit) is None,
                Err(m) => mode_command_error(id@, mode_name@, command@, candidates@, explicit) == Some(m@),
            },
{
    let c = trim_chars(&chars_of(command));
    if eq_str(&c, "{bin}") {
        if candidates.len() == 0 {
            let r = Err(prefixed(id, mode_name, "uses `{bin}` but detect.candidates is empty"));
            assert(mode_command_error(id@, mode_name@, command@, candidates@, false) == Some(r->Err_0@));
            return r;
        }
        assert(mode_command_error(id@, mode_name@, command@, candidates@, false) is None);
        return Ok(());
    }
    if has_char(&c, '{') || has_char(&c, '}') {
        let r = Err(prefixed(id, mode_name, "command may only use the `{bin}` template"));
        assert(mode_command_error(id@, mode_name@, command@, candidates@, false) == Some(r->Err_0@));
        return r;
    }
    let cs = string_of(&c);
    let explicit = component_count(cs.as_str()) > 1;
    if explicit || candidate_exec(candidates, &c) {
        assert(mode_command_error(id@, mode_name@, command@, candidates@, explicit) is None);
        return Ok(());
    }
    let mut m = prefix_exec(id, mode_name);
    extend_str(&mut m, "command `");
    extend_chars(&mut m, &c);
    extend_str(&mut m, "` must be `{bin}`, an explicit path, or one of detect.candidates");
    let r = Err(string_of(&m));
    assert(mode_command_error(id@, mode_name@, command@, candidates@, explicit) == Some(r->Err_0@));
    r
}

// ───────────────────────── sessions ─────────────────────────

/// The session reducer a mode's decoders declare: stdout's, else stderr's.
pub open spec fn has_session_capture(mode: ProviderModeSpec) -> bool {
    (match mode.stdout.capture { Some(c) => c.session is Some, None => false })
        || (match mode.stderr {
            Some(d) => match d.capture { Some(c) => c.session is Some, None => false },
            None => false,
        })
}

/// Why a mode's session spec is refused, if it is: an unknown scope, or a
/// provider-captured id without a decoder that captures it.
pub open spec fn session_spec_error(id: Seq<char>, mode_name: Seq<char>, mode: ProviderModeSpec) -> Option<Seq<char>> {
    match mode.session {
        None => None,
        Some(s) => {
            let bad_scope = match s.scope {
                Some(sc) => !(sc@ == "actor_scope"@ || sc@ == "actor"@ || sc@ == "turn"@),
                None => false,
            };
            if bad_scope {
                Some(mode_prefix(id, mode_name) + "uses unsupported session scope `"@ + s.scope->0@ + "`"@)
            } else if s.id_source == Some(ProviderSessionIdSource::ProviderCapture) && !has_session_capture(mode) {
                Some(mode_prefix(id, mode_name) + "uses provider_capture but stdout/stderr capture.session is missing"@)
            } else {
                None
            }
        },
    }
}

fn has_capture(d: &ProviderDecoderSpec) -> (b: bool)
    ensures
        b == (match d.capture { Some(c) => c.session is Some, None => false }),
{
    match &d.capture {
        Some(c) => c.session.is_some(),
        None => false,
    }
}

/// Check a mode's session spec (see [`session_spec_error`]).
pub fn validate_session_spec(id: &str, mode_name: &str, mode: &ProviderModeSpec) -> (r: Result<(), String>)
    ensures
        match r {
            Ok(()) => session_spec_error(id@, mode_name@, *mode) is None,
            Err(m) => session_spec_error(id@, mode_name@, *mode) == Some(m@),
        },
{
    let s = match &mode.session {
        None => return Ok(()),
        Some(s) => s,
    };
    if let Some(sc) = &s.scope {
        let c = chars_of(sc.as_str());
        if !(eq_str(&c, "actor_scope") || eq_str(&c, "actor") || eq_str(&c, "turn")) {
            let mut m = prefix_exec(id, mode_name);
            extend_str(&mut m, "uses unsupported session scope `");
            extend_str(&mut m, sc.as_str());
            extend_str(&mut m, "`");
            return Err(string_of(&m));
        }
    }
    let capture = has_capture(&mode.stdout) || match &mode.stderr {
        Some(d) => has_capture(d),
        None => false,
    };
    if matches!(s.id_source, Some(ProviderSessionIdSource::ProviderCapture)) && !capture {
        return Err(prefixed(id, mode_name, "uses provider_capture but stdout/stderr capture.session is missing"));
    }
    Ok(())
}

// ───────────────────────── interactive modes ─────────────────────────

/// Why an interactive mode is refused, if it is: it needs its interactive
/// configuration, and new-session arguments that pass the prompt; resume
/// arguments, when given, must pass it too.
pub open spec fn interactive_error(id: Seq<char>, mode_name: Seq<char>, mode: ProviderModeSpec) -> Option<Seq<char>> {
    if mode.transport@ != "interactive_command"@ {
        None
    } else {
        match mode.interactive {
            None => Some(mode_prefix(id, mode_name) + "uses interactive_command but missing interactive config"@),
            Some(i) => if i.session.new_args@.len() == 0 {
                Some(mode_prefix(id, mode_name) + "interactive.session.newArgs is required"@)
            } else if !args_deliver_prompt(i.session.new_args@) {
                Some(mode_prefix(id, mode_name) + "interactive.session.newArgs must pass the prompt"@)
            } else if i.session.resume_args@.len() != 0 && !args_deliver_prompt(i.session.resume_args@) {
                Some(mode_prefix(id, mode_name) + "interactive.session.resumeArgs must pass the prompt"@)
            } else {
                None
            },
        }
    }
}

/// Check an interactive mode (see [`interactive_error`]).
pub fn validate_interactive_mode(id: &str, mode_name: &str, mode: &ProviderModeSpec) -> (r: Result<(), String>)
    ensures
        match r {
            Ok(()) => interactive_error(id@, mode_name@, *mode) is None,
            Err(m) => interactive_error(id@, mode_name@, *mode) == Some(m@),
        },
{
    if !eq_str(&chars_of(mode.transport.as_str()), "interactive_command") {
        return Ok(());
    }
    let i = match &mode.interactive {
        None => return Err(prefixed(id, mode_name, "uses interactive_command but missing interactive config")),
        Some(i) => i,
    };
    if i.session.new_args.len() == 0 {
        return Err(prefixed(id, mode_name, "interactive.session.newArgs is required"));
    }
    if !string_args_have_prompt_reference(&i.session.new_args) {
        return Err(prefixed(id, mode_name, "interactive.session.newArgs must pass the prompt"));
    }
    if i.session.resume_args.len() != 0 && !string_args_have_prompt_reference(&i.session.resume_args) {
        return Err(prefixed(id, mode_name, "interactive.session.resumeArgs must pass the prompt"));
    }
    Ok(())
}

// ───────────────────────── argument conditions ─────────────────────────

/// Conditions an argument may depend on.
pub open spec fn known_condition(w: Seq<char>) -> bool {
    w == "model"@ || w == "reasoningEffort"@ || w == "reasoning_effort"@
}

/// The first unknown argument condition (trimmed), in order, nested
/// conditions included.
pub open spec fn condition_names_error(id: Seq<char>, mode_name: Seq<char>, args: Seq<ProviderArgSpec>) -> Option<Seq<char>>
    decreases args,
{
    if args.len() == 0 {
        None
    } else {
        let first = match args[0] {
            ProviderArgSpec::Literal(_) => None,
            ProviderArgSpec::Conditional(c) => {
                let w = trim(c.when@);
                if !known_condition(w) {
                    Some(mode_prefix(id, mode_name) + "uses unsupported args condition `"@ + w + "`"@)
                } else {
                    proof {
                        assert(decreases_to!(args => args[0]));
                        assert(decreases_to!(args[0] => c));
                        assert(decreases_to!(c => c.args));
                        assert(decreases_to!(c.args => c.args@));
                    }
                    condition_names_error(id, mode_name, c.args@)
                }
            },
        };
        if first is Some {
            first
        } else {
            condition_names_error(id, mode_name, args.skip(1))
        }
    }
}

/// Check the conditions of a mode's arguments (see
/// [`condition_names_error`]); `from` is where to start.
pub fn validate_condition_names(id: &str, mode_name: &str, args: &Vec<ProviderArgSpec>, from: usize) -> (r: Result<(), String>)
    requires
        from <= args@.len(),
    ensures
        match r {
            Ok(()) => condition_names_error(id@, mode_name@, args@.skip(from as int)) is None,
            Err(m) => condition_names_error(id@, mode_name@, args@.skip(from as int)) == Some(m@),
        },
    decreases args@.skip(from as int),
{
    if from >= args.len() {
        assert(args@.skip(from as int).len() == 0);
        return Ok(());
    }
    let ghost rest = args@.skip(from as int);
    assert(rest[0] == args@[from as int]);
    assert(rest.skip(1) =~= args@.skip(from + 1));
    match &args[from] {
        ProviderArgSpec::Literal(_) => {},
        ProviderArgSpec::Conditional(c) => {
            let w = trim_chars(&chars_of(c.when.as_str()));
            if !(eq_str(&w, "model") || eq_str(&w, "reasoningEffort") || eq_str(&w, "reasoning_effort")) {
                let mut m = prefix_exec(id, mode_name);
                extend_str(&mut m, "uses unsupported args condition `");
                extend_chars(&mut m, &w);
                extend_str(&mut m, "`");
                return Err(string_of(&m));
            }
            proof {
                assert(decreases_to!(rest => rest[0]));
                assert(decreases_to!(rest[0] => *c));
                assert(decreases_to!(*c => c.args));
                assert(decreases_to!(c.args => c.args@));
                assert(c.args@.skip(0) =~= c.args@);
            }
            if let Err(m) = validate_condition_names(id, mode_name, &c.args, 0) {
                return Err(m);
            }
        },
    }
    proof {
        assert(decreases_to!(rest => rest.skip(1)));
    }
    validate_condition_names(id, mode_name, args, from + 1)
}

} // verus!
