//! The provider manifests the runtime ships with.

use vstd::prelude::*;

use crate::argv::{ProviderArgSpec, ProviderConditionalArgSpec};
use crate::json::{JsonCondition, JsonValue};
use crate::manifest::{
    InteractiveSessionSpec, ProviderDetectSpec, ProviderInteractiveSpec, ProviderManifest, ProviderModeSpec,
    ProviderSessionIdSource, ProviderSessionSpec,
};
use crate::provider::{PromptOutputSpec, ProviderPromptSpec};
use crate::provider_decoder::{
    ProviderDecoderCaptureSpec, ProviderDecoderEmitSpec, ProviderDecoderEventSpec, ProviderDecoderSpec,
    ProviderJsonlReduceSpec, ProviderJsonlTextReducerSpec,
};

use crate::text::views;

verus! {

/// The shape of a manifest argument: a literal, or literals present when a
/// condition holds.
pub enum ArgPat {
    Lit(Seq<char>),
    When(Seq<char>, Seq<Seq<char>>),
}

/// Whether an argument spec has the shape `p`.
pub open spec fn arg_matches(a: ProviderArgSpec, p: ArgPat) -> bool {
    match p {
        ArgPat::Lit(v) => a matches ProviderArgSpec::Literal(x) && x@ == v,
        ArgPat::When(w, ls) => a matches ProviderArgSpec::Conditional(c) && c.when@ == w && c.args@.len() == ls.len()
            && forall|i: int| 0 <= i < ls.len() ==> (#[trigger] c.args@[i] matches ProviderArgSpec::Literal(x)
                && x@ == ls[i]),
    }
}

/// Whether the argument specs have the shapes `ps`, one by one.
pub open spec fn args_match(args: Seq<ProviderArgSpec>, ps: Seq<ArgPat>) -> bool {
    args.len() == ps.len() && forall|i: int| 0 <= i < ps.len() ==> #[trigger] arg_matches(args[i], ps[i])
}

/// `--model {model}` when a model is set.
pub open spec fn model_pat() -> ArgPat {
    ArgPat::When("model"@, seq!["--model"@, "{model}"@])
}

fn lit(v: &str) -> (a: ProviderArgSpec)
    ensures
        a matches ProviderArgSpec::Literal(x) && x@ == v@,
{
    ProviderArgSpec::Literal(v.to_owned())
}

fn when(w: &str, args: Vec<ProviderArgSpec>) -> (a: ProviderArgSpec)
    ensures
        a matches ProviderArgSpec::Conditional(c) && c.when@ == w@ && c.args == args,
{
    ProviderArgSpec::Conditional(ProviderConditionalArgSpec { when: w.to_owned(), args })
}

/// An output that is only a preset.
pub open spec fn is_preset_output(o: PromptOutputSpec, preset: Seq<char>) -> bool {
    &&& o.preset matches Some(p) && p@ == preset
    &&& o.required@.len() == 0 && o.parts@.len() == 0
    &&& o.template is None && o.render_title is None && o.join is None && o.prefix is None && o.suffix is None
}

/// A prompt spec without workspace files whose outputs are, in order, the
/// given names, each only the given preset.
pub open spec fn preset_prompt(p: ProviderPromptSpec, outs: Seq<(Seq<char>, Seq<char>)>) -> bool {
    &&& p.workspace_files@.len() == 0
    &&& p.outputs@.len() == outs.len()
    &&& forall|i: int| 0 <= i < outs.len() ==> (#[trigger] p.outputs@[i]).0@ == outs[i].0
        && is_preset_output(p.outputs@[i].1, outs[i].1)
}

/// System, user and full outputs from the Loom presets.
pub open spec fn base_prompt_outputs() -> Seq<(Seq<char>, Seq<char>)> {
    seq![("full"@, "loom_full"@), ("system"@, "loom_system"@), ("user"@, "loom_turn"@)]
}

/// The single full output from the Loom preset.
pub open spec fn full_prompt_outputs() -> Seq<(Seq<char>, Seq<char>)> {
    seq![("full"@, "loom_full"@)]
}

fn preset_output(preset: &str) -> (o: PromptOutputSpec)
    ensures
        is_preset_output(o, preset@),
{
    PromptOutputSpec {
        required: Vec::new(),
        template: None,
        render_title: None,
        parts: Vec::new(),
        preset: Some(preset.to_owned()),
        join: None,
        prefix: None,
        suffix: None,
    }
}

/// System, user and full outputs from the Loom presets.
fn base_prompt() -> (p: ProviderPromptSpec)
    ensures
        preset_prompt(p, base_prompt_outputs()),
{
    ProviderPromptSpec {
        workspace_files: Vec::new(),
        outputs: vec![
            ("full".to_owned(), preset_output("loom_full")),
            ("system".to_owned(), preset_output("loom_system")),
            ("user".to_owned(), preset_output("loom_turn")),
        ],
    }
}

/// A single full output from the Loom preset.
fn full_prompt() -> (p: ProviderPromptSpec)
    ensures
        preset_prompt(p, full_prompt_outputs()),
{
    ProviderPromptSpec { workspace_files: Vec::new(), outputs: vec![("full".to_owned(), preset_output("loom_full"))] }
}

/// A condition that sets none of its tests (only, possibly, a path).
pub open spec fn no_tests(c: JsonCondition) -> bool {
    &&& c.all@.len() == 0 && c.any@.len() == 0 && c.not is None
    &&& c.exists is None && c.absent_or_null is None && c.not_empty is None
    &&& c.equals is None && c.not_equals is None && c.in_values is None && c.not_in is None
}

/// The string at `path` equals `value`, and nothing else is tested.
pub open spec fn cond_equals(c: JsonCondition, path: Seq<char>, value: Seq<char>) -> bool {
    &&& c.path matches Some(p) && p@ == path
    &&& c.equals matches Some(JsonValue::String(v)) && v@ == value
    &&& c.all@.len() == 0 && c.any@.len() == 0 && c.not is None
    &&& c.exists is None && c.absent_or_null is None && c.not_empty is None
    &&& c.not_equals is None && c.in_values is None && c.not_in is None
}

/// `path` is absent or null, and nothing else is tested.
pub open spec fn cond_absent(c: JsonCondition, path: Seq<char>) -> bool {
    &&& c.path matches Some(p) && p@ == path
    &&& c.absent_or_null == Some(true)
    &&& c.all@.len() == 0 && c.any@.len() == 0 && c.not is None
    &&& c.exists is None && c.not_empty is None
    &&& c.equals is None && c.not_equals is None && c.in_values is None && c.not_in is None
}

/// A conjunction of `n` conditions, with no test of its own.
pub open spec fn cond_all(c: JsonCondition, n: nat) -> bool {
    &&& c.path is None && c.all@.len() == n && c.any@.len() == 0 && c.not is None
    &&& c.exists is None && c.absent_or_null is None && c.not_empty is None
    &&& c.equals is None && c.not_equals is None && c.in_values is None && c.not_in is None
}

/// A reducer with this mode and path and no fallback.
pub open spec fn plain_reducer(r: ProviderJsonlTextReducerSpec, mode: Seq<char>, path: Seq<char>) -> bool {
    r.mode@ == mode && r.path@ == path && r.fallback is None
}

/// A decoder that captures the session id as the last non-empty string at
/// `path`.
pub open spec fn captures_session(d: ProviderDecoderSpec, path: Seq<char>) -> bool {
    d.capture matches Some(c) && (c.session matches Some(r) && plain_reducer(r, "lastNonEmpty"@, path) && r.when is None)
}

/// The views of key-value pairs.
pub open spec fn pair_views(v: Seq<(String, String)>) -> Seq<(Seq<char>, Seq<char>)> {
    v.map_values(|p: (String, String)| (p.0@, p.1@))
}

fn condition(path: &str) -> (c: JsonCondition)
    ensures
        c.path matches Some(p) && p@ == path@,
        no_tests(c),
{
    JsonCondition {
        all: Vec::new(),
        any: Vec::new(),
        not: None,
        path: Some(path.to_owned()),
        exists: None,
        absent_or_null: None,
        not_empty: None,
        equals: None,
        not_equals: None,
        in_values: None,
        not_in: None,
    }
}

fn condition_equals(path: &str, value: &str) -> (c: JsonCondition)
    ensures
        cond_equals(c, path@, value@),
{
    let mut c = condition(path);
    c.equals = Some(JsonValue::String(value.to_owned()));
    c
}

fn condition_absent_or_null(path: &str) -> (c: JsonCondition)
    ensures
        cond_absent(c, path@),
{
    let mut c = condition(path);
    c.absent_or_null = Some(true);
    c
}

fn session_capture(path: &str) -> (c: ProviderDecoderCaptureSpec)
    ensures
        c.session matches Some(r) && plain_reducer(r, "lastNonEmpty"@, path@) && r.when is None,
{
    ProviderDecoderCaptureSpec {
        session: Some(ProviderJsonlTextReducerSpec {
            mode: "lastNonEmpty".to_owned(),
            path: path.to_owned(),
            when: None,
            fallback: None,
        }),
    }
}

fn emit(emit_type: &str) -> (e: ProviderDecoderEmitSpec)
    ensures
        e.emit_type@ == emit_type@,
        e.text is None && e.tool_name is None && e.input is None && e.input_literal is None,
        e.status is None && e.message is None && e.summary is None && e.partial is None && e.success is None,
{
    ProviderDecoderEmitSpec {
        emit_type: emit_type.to_owned(),
        text: None,
        tool_name: None,
        input: None,
        input_literal: None,
        status: None,
        message: None,
        summary: None,
        partial: None,
        success: None,
    }
}

/// A mode run as a one-shot command with a built-in stdout decoder.
fn command_mode(command: &str, args: Vec<ProviderArgSpec>, prompt: ProviderPromptSpec, stdout_name: &str,
    session: Option<ProviderSessionSpec>) -> (m: ProviderModeSpec)
    ensures
        m.transport@ == "command"@,
        m.command@ == command@,
        m.args == args,
        m.session == session,
        m.stdout.format@ == "builtin"@,
        m.stdout.name matches Some(n) && n@ == stdout_name@,
        m.stdout.events@.len() == 0 && m.stdout.reduce is None && m.stdout.capture is None,
        m.prompt == Some(prompt),
        m.env@.len() == 0 && m.model_args@.len() == 0,
        m.stdin is None && m.stderr is None && m.interactive is None,
        m.timeout_ms is None && m.idle_timeout_ms is None,
        m.provider_kind is None && m.custom_settings_path is None,
{
    ProviderModeSpec {
        transport: "command".to_owned(),
        command: command.to_owned(),
        args,
        env: Vec::new(),
        stdin: None,
        model_args: Vec::new(),
        stdout: ProviderDecoderSpec {
            format: "builtin".to_owned(),
            name: Some(stdout_name.to_owned()),
            events: Vec::new(),
            reduce: None,
            capture: None,
        },
        stderr: None,
        session,
        timeout_ms: None,
        idle_timeout_ms: None,
        interactive: None,
        prompt: Some(prompt),
        provider_kind: None,
        custom_settings_path: None,
    }
}

fn session(id_source: ProviderSessionIdSource, resume_args: Vec<ProviderArgSpec>) -> (s: ProviderSessionSpec)
    ensures
        s.id_source == Some(id_source),
        s.resume_args == resume_args,
        s.scope matches Some(x) && x@ == "actor_scope"@,
{
    ProviderSessionSpec { scope: Some("actor_scope".to_owned()), id_source: Some(id_source), resume_args }
}

fn models(pairs: &[(&str, &str)]) -> (out: Vec<(String, String)>)
    ensures
        out@.len() == pairs@.len(),
        forall|i: int| 0 <= i < pairs@.len() ==> (#[trigger] out@[i]).0@ == pairs@[i].0@ && out@[i].1@ == pairs@[i].1@,
{
    let mut out: Vec<(String, String)> = Vec::new();
    let mut i: usize = 0;
    while i < pairs.len()
        invariant
            i <= pairs.len(),
            out@.len() == i,
            forall|k: int| 0 <= k < i ==> (#[trigger] out@[k]).0@ == pairs@[k].0@ && out@[k].1@ == pairs@[k].1@,
        decreases pairs.len() - i,
    {
        out.push((pairs[i].0.to_owned(), pairs[i].1.to_owned()));
        i += 1;
    }
    out
}

fn manifest(id: &str, display_name: &str, candidates: Vec<String>, modes: Vec<(String, ProviderModeSpec)>,
    model_list: Vec<(String, String)>) -> (m: ProviderManifest)
    ensures
        m.schema_version == 1,
        m.id@ == id@,
        m.extends is None,
        m.display_name@ == display_name@,
        m.detect.candidates == candidates,
        m.modes == modes,
        m.models == model_list,
{
    ProviderManifest {
        schema_version: 1,
        id: id.to_owned(),
        extends: None,
        display_name: display_name.to_owned(),
        detect: ProviderDetectSpec { candidates },
        modes,
        models: model_list,
    }
}

/// The `print` arguments of the stream-JSON agent CLI: a first run names the
/// runtime session id with `--session-id`, a resume with `--resume`.
pub open spec fn claude_print_args(resume: bool) -> Seq<ArgPat> {
    seq![
        ArgPat::Lit("--add-dir"@), ArgPat::Lit("{agent.configDir}"@), ArgPat::Lit("--permission-mode"@),
        ArgPat::Lit("bypassPermissions"@), ArgPat::Lit("--output-format"@), ArgPat::Lit("stream-json"@),
        ArgPat::Lit("--verbose"@), ArgPat::Lit(if resume { "--resume"@ } else { "--session-id"@ }),
        ArgPat::Lit("{session.id}"@), model_pat(), ArgPat::Lit("--append-system-prompt"@),
        ArgPat::Lit("{prompt.system}"@), ArgPat::Lit("-p"@), ArgPat::Lit("{prompt.user}"@),
    ]
}

/// The interactive session arguments: the prompt, then `--session-id` on a
/// first run or `--resume` on a resume, then the session id.
pub open spec fn claude_interactive_args(resume: bool) -> Seq<Seq<char>> {
    seq!["--permission-mode"@, "bypassPermissions"@, "{prompt}"@,
        if resume { "--resume"@ } else { "--session-id"@ }, "{session_id}"@]
}

/// The manifest of an agent CLI with a `print` command mode (system and user
/// prompts, runtime session ids, a stream-JSON decoder) and an interactive
/// `nonprint` mode; the provider's id, display name, binary and models are
/// given, and the id is also the interactive provider kind.
pub fn claude_manifest(id: &str, display_name: &str, binary: &str, model_list: Vec<(String, String)>)
    -> (m: ProviderManifest)
    ensures
        m.id@ == id@,
        m.display_name@ == display_name@,
        m.detect.candidates@.len() == 1,
        m.detect.candidates@[0]@ == binary@,
        m.models == model_list,
        m.modes@.len() == 2,
        m.modes@[0].0@ == "print"@,
        m.modes@[1].0@ == "nonprint"@,
        m.modes@[0].1.transport@ == "command"@,
        m.modes@[0].1.command@ == "{bin}"@,
        args_match(m.modes@[0].1.args@, claude_print_args(false)),
        m.modes@[0].1.session matches Some(s) && s.id_source == Some(ProviderSessionIdSource::LoomUuid)
            && (s.scope matches Some(x) && x@ == "actor_scope"@) && args_match(s.resume_args@, claude_print_args(true)),
        m.modes@[0].1.stdout.format@ == "builtin"@,
        m.modes@[0].1.stdout.name matches Some(n) && n@ == "claude_stream_json"@,
        m.modes@[0].1.stdout.capture is None,
        m.modes@[0].1.prompt matches Some(p) && preset_prompt(p, base_prompt_outputs()),
        m.modes@[0].1.env@.len() == 0,
        m.modes@[1].1.transport@ == "interactive_command"@,
        m.modes@[1].1.command@ == "{bin}"@,
        args_match(m.modes@[1].1.args@, seq![ArgPat::Lit("--add-dir"@), ArgPat::Lit("{agent.configDir}"@)]),
        views(m.modes@[1].1.model_args@) == seq!["--model"@, "{model}"@],
        m.modes@[1].1.session is None,
        m.modes@[1].1.interactive matches Some(i) && views(i.session.new_args@) == claude_interactive_args(false)
            && views(i.session.resume_args@) == claude_interactive_args(true),
        m.modes@[1].1.provider_kind matches Some(k) && k@ == id@,
{
    let first_args = vec![
        lit("--add-dir"), lit("{agent.configDir}"), lit("--permission-mode"), lit("bypassPermissions"),
        lit("--output-format"), lit("stream-json"), lit("--verbose"), lit("--session-id"), lit("{session.id}"),
        when("model", vec![lit("--model"), lit("{model}")]),
        lit("--append-system-prompt"), lit("{prompt.system}"), lit("-p"), lit("{prompt.user}"),
    ];
    let resume_args = vec![
        lit("--add-dir"), lit("{agent.configDir}"), lit("--permission-mode"), lit("bypassPermissions"),
        lit("--output-format"), lit("stream-json"), lit("--verbose"), lit("--resume"), lit("{session.id}"),
        when("model", vec![lit("--model"), lit("{model}")]),
        lit("--append-system-prompt"), lit("{prompt.system}"), lit("-p"), lit("{prompt.user}"),
    ];
    let print = command_mode("{bin}", first_args, base_prompt(), "claude_stream_json",
        Some(session(ProviderSessionIdSource::LoomUuid, resume_args)));
    let nonprint = ProviderModeSpec {
        transport: "interactive_command".to_owned(),
        command: "{bin}".to_owned(),
        args: vec![lit("--add-dir"), lit("{agent.configDir}")],
        env: Vec::new(),
        stdin: None,
        model_args: vec!["--model".to_owned(), "{model}".to_owned()],
        stdout: ProviderDecoderSpec { format: "text".to_owned(), name: None, events: Vec::new(), reduce: None, capture: None },
        stderr: None,
        session: None,
        timeout_ms: None,
        idle_timeout_ms: None,
        interactive: Some(ProviderInteractiveSpec {
            session: InteractiveSessionSpec {
                new_args: vec!["--permission-mode".to_owned(), "bypassPermissions".to_owned(), "{prompt}".to_owned(),
                    "--session-id".to_owned(), "{session_id}".to_owned()],
                resume_args: vec!["--permission-mode".to_owned(), "bypassPermissions".to_owned(), "{prompt}".to_owned(),
                    "--resume".to_owned(), "{session_id}".to_owned()],
            },
            prompt_template: String::new(),
        }),
        prompt: None,
        provider_kind: Some(id.to_owned()),
        custom_settings_path: None,
    };
    manifest(id, display_name, vec![binary.to_owned()],
        vec![("print".to_owned(), print), ("nonprint".to_owned(), nonprint)], model_list)
}

/// Qoder's `print` arguments; a resume adds `--resume {session.id}` before
/// the user prompt.
pub open spec fn qoder_print_args(resume: bool) -> Seq<ArgPat> {
    let head = seq![
        ArgPat::Lit("--add-dir"@), ArgPat::Lit("{agent.configDir}"@), ArgPat::Lit("--yolo"@),
        ArgPat::Lit("--output-format"@), ArgPat::Lit("stream-json"@), model_pat(),
        ArgPat::When("reasoningEffort"@, seq!["--reasoning-effort"@, "{reasoningEffort}"@]),
        ArgPat::Lit("--append-system-prompt"@), ArgPat::Lit("{prompt.system}"@),
    ];
    let tail = seq![ArgPat::Lit("-p"@), ArgPat::Lit("{prompt.user}"@)];
    if resume { head + seq![ArgPat::Lit("--resume"@), ArgPat::Lit("{session.id}"@)] + tail } else { head + tail }
}

/// Qoder CLI: a `print` command mode whose session id the stdout decoder
/// captures.
pub fn qoder_manifest() -> (m: ProviderManifest)
    ensures
        m.id@ == "qoder"@,
        m.modes@.len() == 1,
        m.modes@[0].0@ == "print"@,
        m.display_name@ == "Qoder CLI"@,
        views(m.detect.candidates@) == seq!["qodercli"@],
        m.modes@[0].1.transport@ == "command"@,
        m.modes@[0].1.command@ == "{bin}"@,
        args_match(m.modes@[0].1.args@, qoder_print_args(false)),
        m.modes@[0].1.session matches Some(s) && s.id_source == Some(ProviderSessionIdSource::ProviderCapture)
            && (s.scope matches Some(x) && x@ == "actor_scope"@) && args_match(s.resume_args@, qoder_print_args(true)),
        m.modes@[0].1.stdout.format@ == "builtin"@,
        m.modes@[0].1.stdout.name matches Some(n) && n@ == "claude_stream_json"@,
        captures_session(m.modes@[0].1.stdout, "$.session_id"@),
        m.modes@[0].1.prompt matches Some(p) && preset_prompt(p, base_prompt_outputs()),
        m.modes@[0].1.env@.len() == 0,
        pair_views(m.models@) == seq![("auto"@, "Auto"@), ("ultimate"@, "Ultimate"@),
            ("performance"@, "Performance"@), ("efficient"@, "Efficient"@), ("lite"@, "Lite"@)],
{
    let first_args = vec![
        lit("--add-dir"), lit("{agent.configDir}"), lit("--yolo"), lit("--output-format"), lit("stream-json"),
        when("model", vec![lit("--model"), lit("{model}")]),
        when("reasoningEffort", vec![lit("--reasoning-effort"), lit("{reasoningEffort}")]),
        lit("--append-system-prompt"), lit("{prompt.system}"), lit("-p"), lit("{prompt.user}"),
    ];
    let resume_args = vec![
        lit("--add-dir"), lit("{agent.configDir}"), lit("--yolo"), lit("--output-format"), lit("stream-json"),
        when("model", vec![lit("--model"), lit("{model}")]),
        when("reasoningEffort", vec![lit("--reasoning-effort"), lit("{reasoningEffort}")]),
        lit("--append-system-prompt"), lit("{prompt.system}"), lit("--resume"), lit("{session.id}"),
        lit("-p"), lit("{prompt.user}"),
    ];
    let mut print = command_mode("{bin}", first_args, base_prompt(), "claude_stream_json",
        Some(session(ProviderSessionIdSource::ProviderCapture, resume_args)));
    print.stdout.capture = Some(session_capture("$.session_id"));
    manifest("qoder", "Qoder CLI", vec!["qodercli".to_owned()], vec![("print".to_owned(), print)],
        models(&[("auto", "Auto"), ("ultimate", "Ultimate"), ("performance", "Performance"), ("efficient", "Efficient"),
            ("lite", "Lite")]))
}

/// The JSONL decoder of Copilot's final answer: the last non-empty main
/// assistant message that is not thinking, else its concatenated deltas.
fn copilot_jsonl_decoder() -> (d: ProviderDecoderSpec)
    ensures
        copilot_decoder(d),
{
    let mut phase = condition("$.data.phase");
    phase.not_in = Some(vec![JsonValue::String("thinking".to_owned()), JsonValue::String("reasoning".to_owned())]);
    let mut message = condition_equals("$.type", "assistant.message");
    message.path = None;
    message.equals = None;
    message.all = vec![
        condition_equals("$.type", "assistant.message"),
        condition_absent_or_null("$.agentId"),
        condition_absent_or_null("$.data.parentToolCallId"),
        phase,
    ];
    let mut delta = condition_equals("$.type", "assistant.message_delta");
    delta.path = None;
    delta.equals = None;
    delta.all = vec![
        condition_equals("$.type", "assistant.message_delta"),
        condition_absent_or_null("$.agentId"),
        condition_absent_or_null("$.data.parentToolCallId"),
    ];
    ProviderDecoderSpec {
        format: "jsonl".to_owned(),
        name: None,
        events: Vec::new(),
        reduce: Some(ProviderJsonlReduceSpec {
            final_text: Some(ProviderJsonlTextReducerSpec {
                mode: "lastNonEmpty".to_owned(),
                path: "$.data.content".to_owned(),
                when: Some(message),
                fallback: Some(Box::new(ProviderJsonlTextReducerSpec {
                    mode: "concat".to_owned(),
                    path: "$.data.deltaContent".to_owned(),
                    when: Some(delta),
                    fallback: None,
                })),
            }),
        }),
        capture: None,
    }
}

/// A top-level message (no agent id, no parent tool call) of this type.
pub open spec fn main_message(c: JsonCondition, msg_type: Seq<char>, n: nat) -> bool {
    &&& cond_all(c, n)
    &&& cond_equals(c.all@[0], "$.type"@, msg_type)
    &&& cond_absent(c.all@[1], "$.agentId"@)
    &&& cond_absent(c.all@[2], "$.data.parentToolCallId"@)
}

/// Copilot's JSONL decoder: the final text is the last non-empty
/// `$.data.content` of a main `assistant.message` whose phase is not
/// `thinking` or `reasoning`, else the concatenated `$.data.deltaContent`
/// of the main `assistant.message_delta` lines; no events, no capture.
pub open spec fn copilot_decoder(d: ProviderDecoderSpec) -> bool {
    &&& d.format@ == "jsonl"@ && d.name is None && d.events@.len() == 0 && d.capture is None
    &&& d.reduce matches Some(r) && (r.final_text matches Some(f) && {
        &&& f.mode@ == "lastNonEmpty"@ && f.path@ == "$.data.content"@
        &&& f.when matches Some(w) && main_message(w, "assistant.message"@, 4) && {
            let phase = w.all@[3];
            &&& phase.path matches Some(p) && p@ == "$.data.phase"@
            &&& phase.not_in matches Some(vs) && vs@.len() == 2
                && (vs@[0] matches JsonValue::String(a) && a@ == "thinking"@)
                && (vs@[1] matches JsonValue::String(b) && b@ == "reasoning"@)
            &&& phase.all@.len() == 0 && phase.any@.len() == 0 && phase.not is None && phase.exists is None
            &&& phase.absent_or_null is None && phase.not_empty is None && phase.equals is None
            &&& phase.not_equals is None && phase.in_values is None
        }
        &&& f.fallback matches Some(fb) && plain_reducer(*fb, "concat"@, "$.data.deltaContent"@)
            && (fb.when matches Some(w2) && main_message(w2, "assistant.message_delta"@, 3))
    })
}

/// Copilot's `print` arguments, the same for a first run and a resume.
pub open spec fn copilot_print_args() -> Seq<ArgPat> {
    seq![
        ArgPat::Lit("--add-dir"@), ArgPat::Lit("{agent.configDir}"@), ArgPat::Lit("--yolo"@),
        ArgPat::Lit("--output-format"@), ArgPat::Lit("json"@), ArgPat::Lit("--stream"@), ArgPat::Lit("off"@),
        ArgPat::Lit("--resume"@), ArgPat::Lit("{session.id}"@), model_pat(),
        ArgPat::When("reasoningEffort"@, seq!["--effort"@, "{reasoningEffort}"@]),
        ArgPat::Lit("-p"@), ArgPat::Lit("{prompt.full}"@),
    ]
}

/// GitHub Copilot CLI: a `print` command mode resuming runtime session ids.
pub fn copilot_manifest() -> (m: ProviderManifest)
    ensures
        m.id@ == "copilot"@,
        m.modes@.len() == 1,
        m.modes@[0].0@ == "print"@,
        m.display_name@ == "GitHub Copilot CLI"@,
        views(m.detect.candidates@) == seq!["copilot"@, "copilotcli"@],
        m.modes@[0].1.transport@ == "command"@,
        m.modes@[0].1.command@ == "{bin}"@,
        args_match(m.modes@[0].1.args@, copilot_print_args()),
        m.modes@[0].1.session matches Some(s) && s.id_source == Some(ProviderSessionIdSource::LoomUuid)
            && (s.scope matches Some(x) && x@ == "actor_scope"@) && args_match(s.resume_args@, copilot_print_args()),
        copilot_decoder(m.modes@[0].1.stdout),
        m.modes@[0].1.prompt matches Some(p) && preset_prompt(p, full_prompt_outputs()),
        m.modes@[0].1.env@.len() == 0,
        pair_views(m.models@) == seq![("gpt-5.5"@, "GPT-5.5"@), ("gpt-5.4"@, "GPT-5.4"@),
            ("gpt-5.3-codex"@, "GPT-5.3 Codex"@), ("gpt-5.2-codex"@, "GPT-5.2 Codex"@), ("gpt-5.2"@, "GPT-5.2"@),
            ("gpt-5.1"@, "GPT-5.1"@), ("gpt-5.4-mini"@, "GPT-5.4 Mini"@), ("gpt-5-mini"@, "GPT-5 Mini"@),
            ("gpt-4.1"@, "GPT-4.1"@)],
{
    let args = vec![
        lit("--add-dir"), lit("{agent.configDir}"), lit("--yolo"), lit("--output-format"), lit("json"),
        lit("--stream"), lit("off"), lit("--resume"), lit("{session.id}"),
        when("model", vec![lit("--model"), lit("{model}")]),
        when("reasoningEffort", vec![lit("--effort"), lit("{reasoningEffort}")]),
        lit("-p"), lit("{prompt.full}"),
    ];
    let resume_args = vec![
        lit("--add-dir"), lit("{agent.configDir}"), lit("--yolo"), lit("--output-format"), lit("json"),
        lit("--stream"), lit("off"), lit("--resume"), lit("{session.id}"),
        when("model", vec![lit("--model"), lit("{model}")]),
        when("reasoningEffort", vec![lit("--effort"), lit("{reasoningEffort}")]),
        lit("-p"), lit("{prompt.full}"),
    ];
    let mut print = command_mode("{bin}", args, full_prompt(), "copilot_jsonl_final_text",
        Some(session(ProviderSessionIdSource::LoomUuid, resume_args)));
    print.stdout = copilot_jsonl_decoder();
    manifest("copilot", "GitHub Copilot CLI", vec!["copilot".to_owned(), "copilotcli".to_owned()],
        vec![("print".to_owned(), print)],
        models(&[("gpt-5.5", "GPT-5.5"), ("gpt-5.4", "GPT-5.4"), ("gpt-5.3-codex", "GPT-5.3 Codex"),
            ("gpt-5.2-codex", "GPT-5.2 Codex"), ("gpt-5.2", "GPT-5.2"), ("gpt-5.1", "GPT-5.1"),
            ("gpt-5.4-mini", "GPT-5.4 Mini"), ("gpt-5-mini", "GPT-5 Mini"), ("gpt-4.1", "GPT-4.1")]))
}

/// Codex's `print` arguments; a resume runs `exec resume {session.id}`.
pub open spec fn codex_print_args(resume: bool) -> Seq<ArgPat> {
    let head = if resume {
        seq![ArgPat::Lit("exec"@), ArgPat::Lit("resume"@), ArgPat::Lit("{session.id}"@)]
    } else {
        seq![ArgPat::Lit("exec"@)]
    };
    head + seq![
        ArgPat::Lit("--skip-git-repo-check"@), ArgPat::Lit("--json"@), ArgPat::Lit("--sandbox"@),
        ArgPat::Lit("danger-full-access"@), ArgPat::Lit("-c"@),
        ArgPat::Lit("sandbox_workspace_write.network_access=true"@), ArgPat::Lit("--add-dir"@),
        ArgPat::Lit("{agent.configDir}"@), model_pat(), ArgPat::Lit("{prompt.full}"@),
    ]
}

/// Codex CLI: a `print` command mode whose session id the stdout decoder
/// captures, with the daemon disabled.
pub fn codex_manifest() -> (m: ProviderManifest)
    ensures
        m.id@ == "codex"@,
        m.modes@.len() == 1,
        m.modes@[0].0@ == "print"@,
        m.display_name@ == "Codex CLI"@,
        views(m.detect.candidates@) == seq!["codex"@, "codexcli"@],
        m.modes@[0].1.transport@ == "command"@,
        m.modes@[0].1.command@ == "{bin}"@,
        args_match(m.modes@[0].1.args@, codex_print_args(false)),
        m.modes@[0].1.session matches Some(s) && s.id_source == Some(ProviderSessionIdSource::ProviderCapture)
            && (s.scope matches Some(x) && x@ == "actor_scope"@) && args_match(s.resume_args@, codex_print_args(true)),
        m.modes@[0].1.stdout.format@ == "builtin"@,
        m.modes@[0].1.stdout.name matches Some(n) && n@ == "codex_stream_json"@,
        captures_session(m.modes@[0].1.stdout, "$.session_id"@),
        m.modes@[0].1.prompt matches Some(p) && preset_prompt(p, full_prompt_outputs()),
        pair_views(m.modes@[0].1.env@) == seq![("LOOM_NO_DAEMON"@, "1"@)],
        pair_views(m.models@) == seq![("gpt-5.5"@, "GPT-5.5"@), ("gpt-5.4"@, "GPT-5.4"@),
            ("gpt-5.4-mini"@, "GPT-5.4 Mini"@), ("gpt-5.3-codex"@, "GPT-5.3 Codex"@),
            ("gpt-5.3-codex-spark"@, "GPT-5.3 Codex Spark"@), ("gpt-5.2"@, "GPT-5.2"@)],
{
    let first_args = vec![
        lit("exec"), lit("--skip-git-repo-check"), lit("--json"), lit("--sandbox"), lit("danger-full-access"),
        lit("-c"), lit("sandbox_workspace_write.network_access=true"), lit("--add-dir"), lit("{agent.configDir}"),
        when("model", vec![lit("--model"), lit("{model}")]), lit("{prompt.full}"),
    ];
    let resume_args = vec![
        lit("exec"), lit("resume"), lit("{session.id}"), lit("--skip-git-repo-check"), lit("--json"),
        lit("--sandbox"), lit("danger-full-access"), lit("-c"), lit("sandbox_workspace_write.network_access=true"),
        lit("--add-dir"), lit("{agent.configDir}"), when("model", vec![lit("--model"), lit("{model}")]),
        lit("{prompt.full}"),
    ];
    let mut print = command_mode("{bin}", first_args, full_prompt(), "codex_stream_json",
        Some(session(ProviderSessionIdSource::ProviderCapture, resume_args)));
    print.stdout.capture = Some(session_capture("$.session_id"));
    print.env = vec![("LOOM_NO_DAEMON".to_owned(), "1".to_owned())];
    manifest("codex", "Codex CLI", vec!["codex".to_owned(), "codexcli".to_owned()], vec![("print".to_owned(), print)],
        models(&[("gpt-5.5", "GPT-5.5"), ("gpt-5.4", "GPT-5.4"), ("gpt-5.4-mini", "GPT-5.4 Mini"),
            ("gpt-5.3-codex", "GPT-5.3 Codex"), ("gpt-5.3-codex-spark", "GPT-5.3 Codex Spark"), ("gpt-5.2", "GPT-5.2")]))
}

/// The JSONL decoder of OpenCode: tool uses and errors as events, the last
/// non-empty text as the final answer, the session id captured.
fn opencode_jsonl_decoder() -> (d: ProviderDecoderSpec)
    ensures
        opencode_decoder(d),
{
    let mut tool = emit("tool_use");
    tool.tool_name = Some("$.part.tool".to_owned());
    tool.input = Some("$.part.state.input".to_owned());
    let mut error = emit("error");
    error.message = Some("$.error.data.message".to_owned());
    ProviderDecoderSpec {
        format: "jsonl".to_owned(),
        name: None,
        events: vec![
            ProviderDecoderEventSpec { when: Some(condition_equals("$.type", "tool_use")), emit: tool },
            ProviderDecoderEventSpec { when: Some(condition_equals("$.type", "error")), emit: error },
        ],
        reduce: Some(ProviderJsonlReduceSpec {
            final_text: Some(ProviderJsonlTextReducerSpec {
                mode: "lastNonEmpty".to_owned(),
                path: "$.part.text".to_owned(),
                when: Some(condition_equals("$.type", "text")),
                fallback: None,
            }),
        }),
        capture: Some(session_capture("$.sessionID")),
    }
}

/// OpenCode's JSONL decoder: a `tool_use` line emits a tool use (name at
/// `$.part.tool`, input at `$.part.state.input`), an `error` line an error
/// (message at `$.error.data.message`); the final text is the last
/// non-empty `$.part.text` of a `text` line; the session id is captured
/// from `$.sessionID`.
pub open spec fn opencode_decoder(d: ProviderDecoderSpec) -> bool {
    &&& d.format@ == "jsonl"@ && d.name is None
    &&& d.events@.len() == 2
    &&& d.events@[0].when matches Some(w) && cond_equals(w, "$.type"@, "tool_use"@)
    &&& d.events@[0].emit.emit_type@ == "tool_use"@
    &&& d.events@[0].emit.tool_name matches Some(t) && t@ == "$.part.tool"@
    &&& d.events@[0].emit.input matches Some(i) && i@ == "$.part.state.input"@
    &&& d.events@[0].emit.text is None && d.events@[0].emit.input_literal is None && d.events@[0].emit.message is None
    &&& d.events@[1].when matches Some(w) && cond_equals(w, "$.type"@, "error"@)
    &&& d.events@[1].emit.emit_type@ == "error"@
    &&& d.events@[1].emit.message matches Some(m) && m@ == "$.error.data.message"@
    &&& d.events@[1].emit.text is None && d.events@[1].emit.tool_name is None && d.events@[1].emit.input is None
    &&& d.reduce matches Some(r) && (r.final_text matches Some(f) && plain_reducer(f, "lastNonEmpty"@, "$.part.text"@)
        && (f.when matches Some(w) && cond_equals(w, "$.type"@, "text"@)))
    &&& captures_session(d, "$.sessionID"@)
}

/// OpenCode's `print` arguments; a resume adds `--session {session.id}`.
pub open spec fn opencode_print_args(resume: bool) -> Seq<ArgPat> {
    let head = seq![ArgPat::Lit("run"@), ArgPat::Lit("--dangerously-skip-permissions"@), ArgPat::Lit("--format"@),
        ArgPat::Lit("json"@)];
    let tail = seq![model_pat(), ArgPat::When("reasoningEffort"@, seq!["--variant"@, "{reasoningEffort}"@]),
        ArgPat::Lit("{prompt.full}"@)];
    if resume { head + seq![ArgPat::Lit("--session"@), ArgPat::Lit("{session.id}"@)] + tail } else { head + tail }
}

/// OpenCode: a `print` command mode whose session id the JSONL decoder
/// captures, with its data, state and cache under the agent profile.
pub fn opencode_manifest() -> (m: ProviderManifest)
    ensures
        m.id@ == "opencode"@,
        m.modes@.len() == 1,
        m.modes@[0].0@ == "print"@,
        m.display_name@ == "OpenCode"@,
        views(m.detect.candidates@) == seq!["opencode"@],
        m.modes@[0].1.transport@ == "command"@,
        m.modes@[0].1.command@ == "{bin}"@,
        args_match(m.modes@[0].1.args@, opencode_print_args(false)),
        m.modes@[0].1.session matches Some(s) && s.id_source == Some(ProviderSessionIdSource::ProviderCapture)
            && (s.scope matches Some(x) && x@ == "actor_scope"@)
            && args_match(s.resume_args@, opencode_print_args(true)),
        opencode_decoder(m.modes@[0].1.stdout),
        m.modes@[0].1.prompt matches Some(p) && preset_prompt(p, full_prompt_outputs()),
        pair_views(m.modes@[0].1.env@) == seq![("XDG_CACHE_HOME"@, "{agent.profile}/opencode/cache"@),
            ("XDG_DATA_HOME"@, "{agent.profile}/opencode/data"@), ("XDG_STATE_HOME"@, "{agent.profile}/opencode/state"@)],
        pair_views(m.models@) == seq![("opencode/big-pickle"@, "OpenCode Big Pickle"@),
            ("opencode/deepseek-v4-flash-free"@, "OpenCode DeepSeek V4 Flash Free"@),
            ("opencode/mimo-v2.5-free"@, "OpenCode Mimo V2.5 Free"@),
            ("opencode/nemotron-3-super-free"@, "OpenCode Nemotron 3 Super Free"@)],
{
    let first_args = vec![
        lit("run"), lit("--dangerously-skip-permissions"), lit("--format"), lit("json"),
        when("model", vec![lit("--model"), lit("{model}")]),
        when("reasoningEffort", vec![lit("--variant"), lit("{reasoningEffort}")]),
        lit("{prompt.full}"),
    ];
    let resume_args = vec![
        lit("run"), lit("--dangerously-skip-permissions"), lit("--format"), lit("json"), lit("--session"),
        lit("{session.id}"), when("model", vec![lit("--model"), lit("{model}")]),
        when("reasoningEffort", vec![lit("--variant"), lit("{reasoningEffort}")]),
        lit("{prompt.full}"),
    ];
    let mut print = command_mode("{bin}", first_args, full_prompt(), "text",
        Some(session(ProviderSessionIdSource::ProviderCapture, resume_args)));
    print.stdout = opencode_jsonl_decoder();
    print.env = vec![
        ("XDG_CACHE_HOME".to_owned(), "{agent.profile}/opencode/cache".to_owned()),
        ("XDG_DATA_HOME".to_owned(), "{agent.profile}/opencode/data".to_owned()),
        ("XDG_STATE_HOME".to_owned(), "{agent.profile}/opencode/state".to_owned()),
    ];
    manifest("opencode", "OpenCode", vec!["opencode".to_owned()], vec![("print".to_owned(), print)],
        models(&[("opencode/big-pickle", "OpenCode Big Pickle"),
            ("opencode/deepseek-v4-flash-free", "OpenCode DeepSeek V4 Flash Free"),
            ("opencode/mimo-v2.5-free", "OpenCode Mimo V2.5 Free"),
            ("opencode/nemotron-3-super-free", "OpenCode Nemotron 3 Super Free")]))
}

/// The built-in manifests: Qoder, Copilot, Codex and OpenCode.
pub fn builtin_provider_manifests() -> (v: Vec<ProviderManifest>)
    ensures
        v@.len() == 4,
        v@[0].id@ == "qoder"@,
        v@[1].id@ == "copilot"@,
        v@[2].id@ == "codex"@,
        v@[3].id@ == "opencode"@,
{
    vec![qoder_manifest(), copilot_manifest(), codex_manifest(), opencode_manifest()]
}

} // verus!
