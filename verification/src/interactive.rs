//! The interactive command transport's text handling: the completion
//! contract written into the prompt, the sentinel line that ends a turn,
//! and the arguments and signature of a turn.

use vstd::prelude::*;

use crate::acp::fit_chars;
use crate::argv::{kind_name, replace_vars, AdapterPrompt, ScopeKind};
use crate::signature::{
    push_str, push_tag, push_tagged, signature, signature_of, tag, tagged, utf8,
};
use crate::text::{
    chars_of, eq_chars, extend_chars, extend_str, lines, lines_chars, replace, replace_chars,
    replace_str, slice_chars, string_of, trim, trim_chars, trim_end, trim_end_chars, utf8_len, utf8_width,
    push_decimal,
    lemma_utf8_take_step, lemma_utf8_take_strict,
};

verus! {

/// Whether some line of `text`, trimmed, is the sentinel.
pub open spec fn has_sentinel_line(text: Seq<char>, sentinel: Seq<char>) -> bool {
    exists|i: int| 0 <= i < lines(text).len() && trim(#[trigger] lines(text)[i]) == sentinel
}

/// The lines before the first sentinel line, each followed by `\n`.
pub open spec fn before_sentinel(ls: Seq<Seq<char>>, sentinel: Seq<char>) -> Seq<char>
    decreases ls.len(),
{
    if ls.len() == 0 || trim(ls[0]) == sentinel {
        seq![]
    } else {
        ls[0] + seq!['\n'] + before_sentinel(ls.skip(1), sentinel)
    }
}

/// Whether the provider has printed the completion sentinel on a line of
/// its own.
pub fn contains_sentinel_line(text: &str, sentinel: &str) -> (b: bool)
    ensures
        b == has_sentinel_line(text@, sentinel@),
{
    let ls = lines_chars(&chars_of(text));
    let sc = chars_of(sentinel);
    let ghost lv = ls@.map_values(|l: Vec<char>| l@);
    let mut i: usize = 0;
    while i < ls.len()
        invariant
            i <= ls.len(),
            lv == lines(text@),
            lv == ls@.map_values(|l: Vec<char>| l@),
            sc@ == sentinel@,
            forall|k: int| 0 <= k < i ==> trim(#[trigger] lines(text@)[k]) != sentinel@,
        decreases ls.len() - i,
    {
        let t = trim_chars(&ls[i]);
        assert(lv[i as int] == ls@[i as int]@);
        if eq_chars(&t, &sc) {
            return true;
        }
        i += 1;
    }
    false
}

/// The text the provider wrote before the sentinel line.
pub fn text_before_sentinel(text: &str, sentinel: &str) -> (out: String)
    ensures
        out@ == before_sentinel(lines(text@), sentinel@),
{
    let ls = lines_chars(&chars_of(text));
    let sc = chars_of(sentinel);
    let ghost lv = ls@.map_values(|l: Vec<char>| l@);
    let mut out: Vec<char> = Vec::new();
    let mut i: usize = 0;
    assert(lv.skip(0) =~= lv);
    while i < ls.len()
        invariant
            i <= ls.len(),
            lv == lines(text@),
            lv == ls@.map_values(|l: Vec<char>| l@),
            sc@ == sentinel@,
            out@ + before_sentinel(lv.skip(i as int), sentinel@) == before_sentinel(lv, sentinel@),
        decreases ls.len() - i,
    {
        assert(lv.skip(i as int)[0] == ls@[i as int]@);
        let t = trim_chars(&ls[i]);
        if eq_chars(&t, &sc) {
            assert(out@ + Seq::<char>::empty() =~= out@);
            return string_of(&out);
        }
        extend_chars(&mut out, &ls[i]);
        out.push('\n');
        proof {
            assert(lv.skip(i as int).skip(1) =~= lv.skip(i + 1));
        }
        i += 1;
        assert(out@ + before_sentinel(lv.skip(i as int), sentinel@) =~= before_sentinel(lv, sentinel@));
    }
    assert(lv.skip(i as int).len() == 0);
    assert(out@ + Seq::<char>::empty() =~= out@);
    string_of(&out)
}

/// A shortened text: trimmed when it fits in `max` bytes; otherwise cut at
/// the last character that starts within `max` bytes, trimmed, with `…`.
pub open spec fn shortened(s: Seq<char>, max: nat) -> Seq<char> {
    if utf8_len(s) <= max {
        trim(s)
    } else {
        trim(s.take(fit_chars(s, max))).push('…')
    }
}

/// Shorten text at a character boundary.
pub fn truncate(s: &str, max: usize) -> (out: String)
    ensures
        out@ == shortened(s@, max as nat),
{
    let c = chars_of(s);
    let mut bytes: usize = 0;
    let mut k: usize = 0;
    assert(c@.take(0) =~= Seq::<char>::empty());
    while k < c.len() && width(c[k]) <= max - bytes
        invariant
            k <= c.len(),
            c@ == s@,
            bytes == utf8_len(c@.take(k as int)),
            bytes <= max,
        decreases c.len() - k,
    {
        proof {
            lemma_utf8_take_step(c@, k as int);
        }
        bytes = bytes + width(c[k]);
        k += 1;
    }
    if k == c.len() {
        assert(c@.take(k as int) =~= c@);
        let t = trim_chars(&c);
        return string_of(&t);
    }
    proof {
        lemma_utf8_take_step(c@, k as int);
        assert(c@.take(c@.len() as int) =~= c@);
        if k + 1 < c@.len() {
            lemma_utf8_take_strict(c@, k + 1, c@.len() as int);
        }
        let w = fit_chars(s@, max as nat);
        assert(0 <= k <= s@.len() && utf8_len(s@.take(k as int)) <= max
            && (k == s@.len() || utf8_len(s@.take(k + 1)) > max));
        if w < k {
            lemma_utf8_take_strict(c@, w + 1, k + 1);
            if w + 1 < k {
                lemma_utf8_take_strict(c@, w + 1, k as int);
            }
        } else if w > k {
            if w > k + 1 {
                lemma_utf8_take_strict(c@, k + 1, w);
            }
        }
        assert(w == k);
    }
    let head = slice_chars(&c, 0, k);
    assert(head@ =~= c@.take(k as int));
    let mut t = trim_chars(&head);
    t.push('…');
    string_of(&t)
}

fn width(c: char) -> (w: usize)
    ensures
        w == utf8_width(c),
{
    let u = c as u32;
    if u < 0x80 { 1 } else if u < 0x800 { 2 } else if u < 0x10000 { 3 } else { 4 }
}

/// The completion contract text: the instruction with `__LOOM_DONE__`
/// replaced by the trimmed sentinel, and the sentinel itself.
pub open spec fn contract_text(instruction: Seq<char>, sentinel: Seq<char>) -> Seq<char> {
    "=== Loom interactive command completion contract ===\n"@
        + replace(instruction, "__LOOM_DONE__"@, trim(sentinel)) + "\nCompletion sentinel: "@ + trim(sentinel)
}

/// The completion contract written into every interactive prompt.
pub fn completion_contract(instruction: &str, sentinel: &str) -> (out: String)
    ensures
        out@ == contract_text(instruction@, sentinel@),
{
    let s = trim_chars(&chars_of(sentinel));
    let i = replace_chars(&chars_of(instruction), &chars_of("__LOOM_DONE__"), &s);
    let mut out: Vec<char> = Vec::new();
    extend_str(&mut out, "=== Loom interactive command completion contract ===\n");
    extend_chars(&mut out, &i);
    extend_str(&mut out, "\nCompletion sentinel: ");
    extend_chars(&mut out, &s);
    string_of(&out)
}

/// The envelope with the contract placed before the user message section
/// (or, without one, before a user message section made of the whole
/// envelope).
pub open spec fn with_contract(envelope: Seq<char>, contract: Seq<char>) -> Seq<char> {
    match crate::text::find(envelope, "\n\n=== User message ==="@) {
        Some(idx) => envelope.take(idx) + "\n\n"@ + contract + envelope.skip(idx),
        None => contract + "\n\n=== User message ===\n"@ + envelope,
    }
}

/// The prompt sent to an interactive command: its template with the
/// envelope (contract included), the user message and the session id.
pub open spec fn interactive_prompt(template: Seq<char>, content: Seq<char>, session_id: Seq<char>, contract: Seq<char>) -> Seq<char> {
    replace(replace(replace(template, "{loom_envelope}"@, with_contract(content, contract)), "{user_message}"@, content),
        "{session_id}"@, session_id)
}

/// Build the prompt for an interactive command turn.
pub fn build_interactive_prompt(template: &str, content: &str, session_id: &str, contract: &str) -> (out: String)
    ensures
        out@ == interactive_prompt(template@, content@, session_id@, contract@),
{
    let env = chars_of(content);
    let marker = chars_of("\n\n=== User message ===");
    proof {
        crate::text::lemma_find_spec(env@, marker@);
    }
    let mut w: Vec<char> = Vec::new();
    match crate::text::find_chars(&env, &marker) {
        Some(idx) => {
            let head = slice_chars(&env, 0, idx);
            let tail = slice_chars(&env, idx, env.len());
            extend_chars(&mut w, &head);
            extend_str(&mut w, "\n\n");
            extend_str(&mut w, contract);
            extend_chars(&mut w, &tail);
            assert(head@ =~= env@.take(idx as int));
            assert(tail@ =~= env@.skip(idx as int));
        },
        None => {
            extend_str(&mut w, contract);
            extend_str(&mut w, "\n\n=== User message ===\n");
            extend_chars(&mut w, &env);
        },
    }
    let a = replace_chars(&chars_of(template), &chars_of("{loom_envelope}"), &w);
    let b = replace_chars(&a, &chars_of("{user_message}"), &env);
    let c = replace_chars(&b, &chars_of("{session_id}"), &chars_of(session_id));
    string_of(&c)
}

/// The model of a turn: the prompt's selection, else the configured model;
/// trimmed, and none when blank.
pub open spec fn interactive_model(prompt_model: Option<String>, configured: Option<String>) -> Option<Seq<char>> {
    let m = if prompt_model is Some { prompt_model } else { configured };
    match m {
        Some(x) => if trim(x@).len() != 0 { Some(trim(x@)) } else { None },
        None => None,
    }
}

/// The model of a turn.
pub fn active_model(prompt_model: &Option<String>, configured: &Option<String>) -> (r: Option<String>)
    ensures
        crate::server_url::opt_view(r) == interactive_model(*prompt_model, *configured),
{
    let m = match prompt_model {
        Some(x) => Some(x),
        None => match configured {
            Some(y) => Some(y),
            None => None,
        },
    };
    match m {
        Some(x) => {
            let t = trim_chars(&chars_of(x.as_str()));
            if t.len() != 0 { Some(string_of(&t)) } else { None }
        },
        None => None,
    }
}

/// A template with the interactive transport's placeholders expanded:
/// actor, scope, model, prompt, session id, then template variables.
pub open spec fn expand_interactive(input: Seq<char>, actor_id: Seq<char>, req: AdapterPrompt, model: Option<Seq<char>>,
    session_id: Option<Seq<char>>, prompt: Seq<char>) -> Seq<char>
{
    let a = replace(input, "{actor.id}"@, actor_id);
    let b = replace(a, "{scope.id}"@, req.scope.id@);
    let c = replace(b, "{scope.kind}"@, kind_name(req.scope.kind));
    let d = replace(c, "{model}"@, match model { Some(m) => m, None => seq![] });
    let e = replace(d, "{prompt}"@, prompt);
    let f = match session_id { Some(s) => replace(e, "{session_id}"@, s), None => e };
    replace_vars(f, req.template_vars@)
}

/// Expand a template for the interactive transport.
pub fn expand_template(input: &str, actor_id: &str, req: &AdapterPrompt, model: Option<&str>,
    session_id: Option<&str>, prompt: &str) -> (out: String)
    ensures
        out@ == expand_interactive(input@, actor_id@, *req, crate::server_url::opt_str_view(model),
            crate::server_url::opt_str_view(session_id), prompt@),
{
    let kind: &str = match req.scope.kind {
        ScopeKind::Thread => "thread",
        ScopeKind::Channel => "channel",
    };
    let m = match model {
        Some(x) => chars_of(x),
        None => Vec::new(),
    };
    let mut s = replace_chars(&chars_of(input), &chars_of("{actor.id}"), &chars_of(actor_id));
    s = replace_chars(&s, &chars_of("{scope.id}"), &chars_of(req.scope.id.as_str()));
    s = replace_chars(&s, &chars_of("{scope.kind}"), &chars_of(kind));
    s = replace_chars(&s, &chars_of("{model}"), &m);
    s = replace_chars(&s, &chars_of("{prompt}"), &chars_of(prompt));
    if let Some(sid) = session_id {
        s = replace_chars(&s, &chars_of("{session_id}"), &chars_of(sid));
    }
    assert(m@ == (match crate::server_url::opt_str_view(model) { Some(x) => x, None => Seq::<char>::empty() }));
    let ghost f = s@;
    let mut j: usize = 0;
    while j < req.template_vars.len()
        invariant
            j <= req.template_vars.len(),
            s@ == replace_vars(f, req.template_vars@.take(j as int)),
        decreases req.template_vars.len() - j,
    {
        let mut pat: Vec<char> = Vec::new();
        extend_str(&mut pat, "{");
        extend_str(&mut pat, req.template_vars[j].0.as_str());
        extend_str(&mut pat, "}");
        s = replace_chars(&s, &pat, &chars_of(req.template_vars[j].1.as_str()));
        proof {
            assert(req.template_vars@.take(j + 1).drop_last() =~= req.template_vars@.take(j as int));
        }
        j += 1;
    }
    assert(req.template_vars@.take(req.template_vars.len() as int) =~= req.template_vars@);
    string_of(&s)
}

/// One configured model argument, expanded, with `{model}` replaced.
pub open spec fn model_arg_text(a: Seq<char>, actor_id: Seq<char>, req: AdapterPrompt, model: Seq<char>) -> Seq<char> {
    replace(expand_interactive(a, actor_id, req, Some(model), None, seq![]), "{model}"@, model)
}

/// The model arguments of a turn: `--model=MODEL` by default, else the
/// configured model arguments, expanded, with `{model}` replaced.
pub open spec fn interactive_model_args(model_args: Seq<String>, actor_id: Seq<char>, req: AdapterPrompt,
    model: Seq<char>) -> Seq<Seq<char>>
{
    if model_args.len() == 0 {
        seq!["--model="@ + model]
    } else {
        model_args.map_values(|a: String| model_arg_text(a@, actor_id, req, model))
    }
}

/// Append the provider's settings flag (when the settings file is given)
/// and the model arguments (when a model is selected).
pub fn append_provider_args(argv: &mut Vec<String>, settings: Option<&str>, model_args: &Vec<String>,
    actor_id: &str, req: &AdapterPrompt, model: Option<&str>)
    ensures
        crate::argv::arg_views(final(argv)@) == crate::argv::arg_views(old(argv)@)
            + (match settings { Some(p) => seq!["--settings"@, p@], None => seq![] })
            + (match model { Some(m) => interactive_model_args(model_args@, actor_id@, *req, m@), None => seq![] }),
{
    let ghost a0 = crate::argv::arg_views(argv@);
    if let Some(p) = settings {
        argv.push("--settings".to_owned());
        argv.push(p.to_owned());
    }
    let ghost a1 = crate::argv::arg_views(argv@);
    assert(a1 =~= a0 + (match settings { Some(p) => seq!["--settings"@, p@], None => seq![] }));
    if let Some(m) = model {
        if model_args.len() == 0 {
            let mut f: Vec<char> = Vec::new();
            extend_str(&mut f, "--model=");
            extend_str(&mut f, m);
            argv.push(string_of(&f));
            assert(crate::argv::arg_views(argv@) =~= a1 + interactive_model_args(model_args@, actor_id@, *req, m@));
        } else {
            let mut i: usize = 0;
            assert(model_args@.take(0).map_values(|a: String| model_arg_text(a@, actor_id@, *req, m@)) =~= Seq::<Seq<char>>::empty());
            while i < model_args.len()
                invariant
                    i <= model_args.len(),
                    crate::argv::arg_views(argv@) == a1 + model_args@.take(i as int).map_values(|a: String| model_arg_text(a@, actor_id@, *req, m@)),
                decreases model_args.len() - i,
            {
                proof {
                    reveal_strlit("");
                    assert(""@ =~= Seq::<char>::empty());
                }
                let e = expand_template(model_args[i].as_str(), actor_id, req, Some(m), None, "");
                let r = replace_chars(&chars_of(e.as_str()), &chars_of("{model}"), &chars_of(m));
                let ghost before = crate::argv::arg_views(argv@);
                argv.push(string_of(&r));
                proof {
                    assert(r@ == model_arg_text(model_args@[i as int]@, actor_id@, *req, m@));
                    assert(crate::argv::arg_views(argv@) =~= before.push(r@));
                    assert(model_args@.take(i + 1).map_values(|a: String| model_arg_text(a@, actor_id@, *req, m@))
                        =~= model_args@.take(i as int).map_values(|a: String| model_arg_text(a@, actor_id@, *req, m@)).push(r@));
                }
                i += 1;
            }
            assert(model_args@.take(model_args.len() as int) =~= model_args@);
        }
    }
}

/// The signature of an interactive command configuration.
pub open spec fn interactive_config_bytes(command: Seq<char>, base_args: Seq<String>, model_args: Seq<String>,
    new_args: Seq<String>, resume_args: Seq<String>) -> Seq<u8>
{
    utf8("interactive_command"@) + utf8(command) + tagged_nul(base_args) + tagged("model_arg"@, model_args)
        + tagged("new"@, new_args) + tagged("resume"@, resume_args)
}

/// Each string preceded by a single NUL byte.
pub open spec fn tagged_nul(items: Seq<String>) -> Seq<u8>
    decreases items.len(),
{
    if items.len() == 0 { seq![] } else { tagged_nul(items.drop_last()) + seq![0u8] + utf8(items.last()@) }
}

/// The signature of an interactive command configuration: its command,
/// base, model, new-session and resume arguments.
pub fn interactive_command_signature(command: &str, base_args: &Vec<String>, model_args: &Vec<String>,
    new_args: &Vec<String>, resume_args: &Vec<String>) -> (s: String)
    ensures
        s@ == signature_of(interactive_config_bytes(command@, base_args@, model_args@, new_args@, resume_args@)),
{
    let mut b: Vec<u8> = Vec::new();
    push_str(&mut b, "interactive_command");
    push_str(&mut b, command);
    let ghost b0 = b@;
    let mut i: usize = 0;
    assert(base_args@.take(0) =~= Seq::<String>::empty());
    assert(b@ =~= b0 + tagged_nul(base_args@.take(0)));
    while i < base_args.len()
        invariant
            i <= base_args.len(),
            b@ == b0 + tagged_nul(base_args@.take(i as int)),
        decreases base_args.len() - i,
    {
        b.push(0u8);
        push_str(&mut b, base_args[i].as_str());
        proof {
            assert(base_args@.take(i + 1).drop_last() =~= base_args@.take(i as int));
        }
        i += 1;
        assert(b@ =~= b0 + tagged_nul(base_args@.take(i as int)));
    }
    assert(base_args@.take(base_args.len() as int) =~= base_args@);
    push_tagged(&mut b, "model_arg", model_args);
    push_tagged(&mut b, "new", new_args);
    push_tagged(&mut b, "resume", resume_args);
    assert(b@ =~= interactive_config_bytes(command@, base_args@, model_args@, new_args@, resume_args@));
    signature(&b)
}

/// The bytes hashed for one interactive turn.
pub open spec fn interactive_turn_bytes(base: Seq<char>, model: Option<Seq<char>>, sentinel: Seq<char>,
    settings: Option<Seq<char>>) -> Seq<u8>
{
    utf8(base) + (match model { Some(m) => tag("model"@) + utf8(m), None => seq![] })
        + tag("sentinel"@) + utf8(sentinel)
        + (match settings { Some(s) => tag("settings"@) + utf8(s), None => seq![] })
}

/// The signature a turn's interactive session is saved under: the
/// configuration's signature with the model, the sentinel, and the
/// provider settings identity.
pub fn interactive_signature_for_prompt(base: &str, model: Option<&str>, sentinel: &str, settings: Option<&str>) -> (s: String)
    ensures
        s@ == signature_of(interactive_turn_bytes(base@, crate::server_url::opt_str_view(model), sentinel@,
            crate::server_url::opt_str_view(settings))),
{
    let mut b: Vec<u8> = Vec::new();
    push_str(&mut b, base);
    if let Some(m) = model {
        push_tag(&mut b, "model");
        push_str(&mut b, m);
    }
    push_tag(&mut b, "sentinel");
    push_str(&mut b, sentinel);
    if let Some(st) = settings {
        push_tag(&mut b, "settings");
        push_str(&mut b, st);
    }
    assert(b@ =~= interactive_turn_bytes(base@, crate::server_url::opt_str_view(model), sentinel@,
        crate::server_url::opt_str_view(settings)));
    signature(&b)
}

// ───────────────────────── a turn ─────────────────────────

/// The views of a saved session: its id and the command signature it was
/// made under.
pub open spec fn saved_view(saved: Option<(String, String)>) -> Option<(Seq<char>, Seq<char>)> {
    match saved {
        Some((id, sig)) => Some((id@, sig@)),
        None => None,
    }
}

/// The session a turn resumes: the saved one when it was made under the
/// turn's command signature; otherwise the turn is a first run.
pub open spec fn resumable(saved: Option<(Seq<char>, Seq<char>)>, signature: Seq<char>) -> Option<Seq<char>> {
    match saved {
        Some((id, sig)) => if sig == signature { Some(id) } else { None },
        None => None,
    }
}

/// The session id to resume, if any: that of the saved session when its
/// command signature is the turn's.
pub fn plan_interactive_turn(saved: &Option<(String, String)>, signature: &str) -> (r: Option<String>)
    ensures
        crate::server_url::opt_view(r) == resumable(saved_view(*saved), signature@),
{
    match saved {
        Some((id, sig)) => {
            if eq_chars(&chars_of(sig.as_str()), &chars_of(signature)) {
                Some(id.clone())
            } else {
                None
            }
        },
        None => None,
    }
}

/// The session argument template of a turn: the new-session arguments on a
/// first run, else the resume arguments, or the new-session ones when there
/// are no resume arguments.
pub open spec fn session_template(first_run: bool, new_args: Seq<String>, resume_args: Seq<String>) -> Seq<String> {
    if first_run || resume_args.len() == 0 { new_args } else { resume_args }
}

/// The session argument template of a turn (see [`session_template`]).
pub fn session_args_template<'a>(first_run: bool, new_args: &'a Vec<String>, resume_args: &'a Vec<String>)
    -> (r: &'a Vec<String>)
    ensures
        r@ == session_template(first_run, new_args@, resume_args@),
{
    if first_run || resume_args.len() == 0 { new_args } else { resume_args }
}

/// How a finished turn ended: whether it succeeded and its summary.
#[derive(Debug, Clone)]
pub struct InteractiveEnd {
    pub success: bool,
    pub summary: String,
}

/// What is known while an interactive turn runs: the output so far, the
/// text before the sentinel once it was seen, whether it was seen, and the
/// end once the turn is over.
#[derive(Debug, Clone)]
pub struct InteractiveTurn {
    pub collected: String,
    pub final_text: String,
    pub found_done: bool,
    pub end: Option<InteractiveEnd>,
}

/// What happened since the last step.
#[derive(Debug)]
pub enum InteractiveEvent {
    /// The turn was asked to stop.
    CancelRequested,
    /// The turn's deadline passed.
    DeadlinePassed,
    /// The process wrote this output while running.
    Output(String),
    /// The completion kill policy ran, with this result.
    CompletionKilled(Result<(), String>),
    /// Output read after the process exited.
    OutputAfterExit(String),
    /// The process exited: whether its status is success, and its code.
    Exited { success: bool, code: Option<i32> },
}

/// What the runner does next.
#[derive(Debug, Clone, Copy, PartialEq, Eq)]
pub enum InteractiveAction {
    /// Keep reading.
    Continue,
    /// Apply the cancel kill policy; the turn is over.
    KillOnCancel,
    /// Apply the timeout kill policy; the turn is over.
    KillOnTimeout,
    /// Apply the completion kill policy and report its result.
    KillOnComplete,
    /// The turn is over.
    Finish,
}

/// A turn's state as values: output, final text, sentinel seen, and the end
/// (success and summary).
pub open spec fn turn_view(t: InteractiveTurn) -> (Seq<char>, Seq<char>, bool, Option<(bool, Seq<char>)>) {
    (t.collected@, t.final_text@, t.found_done, match t.end {
        Some(e) => Some((e.success, e.summary@)),
        None => None,
    })
}

/// The text before the sentinel, with trailing white space removed when the
/// sentinel is stripped.
pub open spec fn final_text_of(collected: Seq<char>, sentinel: Seq<char>, strip: bool) -> Seq<char> {
    let t = before_sentinel(lines(collected), sentinel);
    if strip { trim_end(t) } else { t }
}

/// The summary of a process that exited before the sentinel.
pub open spec fn early_exit_summary(success: bool, code: Option<i32>) -> Seq<char> {
    if success {
        "process exited before completion sentinel"@
    } else {
        "process exited before completion sentinel with code "@
            + crate::outcome::signed_decimal(match code { Some(c) => c as int, None => -1 })
    }
}

/// One step of an interactive turn. A finished turn stays as it is. A
/// cancel or a passed deadline ends it unsuccessfully (`cancelled`,
/// `timeout waiting for interactive command sentinel`) and kills the
/// process. Output is collected; when a line of it is the sentinel the text
/// before it becomes the final text and the completion kill policy runs,
/// whose result ends the turn: successfully with an empty summary, or with
/// `completion kill policy failed: …`. Output read after exit is collected
/// the same way but kills nothing. An exit ends the turn: successfully when
/// the sentinel was seen, else with the early-exit summary.
pub open spec fn interactive_step_of(t: (Seq<char>, Seq<char>, bool, Option<(bool, Seq<char>)>),
    ev: InteractiveEvent, sentinel: Seq<char>, strip: bool)
    -> ((Seq<char>, Seq<char>, bool, Option<(bool, Seq<char>)>), InteractiveAction)
{
    let (collected, final_text, found, end) = t;
    if end is Some {
        (t, InteractiveAction::Finish)
    } else {
        match ev {
            InteractiveEvent::CancelRequested =>
                ((collected, final_text, found, Some((false, "cancelled"@))), InteractiveAction::KillOnCancel),
            InteractiveEvent::DeadlinePassed =>
                ((collected, final_text, found, Some((false, "timeout waiting for interactive command sentinel"@))),
                    InteractiveAction::KillOnTimeout),
            InteractiveEvent::Output(chunk) => {
                let c = collected + chunk@;
                if has_sentinel_line(c, sentinel) {
                    ((c, final_text_of(c, sentinel, strip), true, None), InteractiveAction::KillOnComplete)
                } else {
                    ((c, final_text, found, None), InteractiveAction::Continue)
                }
            },
            InteractiveEvent::CompletionKilled(r) => match r {
                Ok(()) => ((collected, final_text, found, Some((true, seq![]))), InteractiveAction::Finish),
                Err(e) => ((collected, final_text, found, Some((false, "completion kill policy failed: "@ + e@))),
                    InteractiveAction::Finish),
            },
            InteractiveEvent::OutputAfterExit(chunk) => {
                let c = collected + chunk@;
                if has_sentinel_line(c, sentinel) {
                    ((c, final_text_of(c, sentinel, strip), true, None), InteractiveAction::Continue)
                } else {
                    ((c, final_text, found, None), InteractiveAction::Continue)
                }
            },
            InteractiveEvent::Exited { success, code } =>
                if found {
                    ((collected, final_text, found, Some((true, seq![]))), InteractiveAction::Finish)
                } else {
                    ((collected, final_text, found, Some((false, early_exit_summary(success, code)))),
                        InteractiveAction::Finish)
                },
        }
    }
}

/// Whether a finished turn succeeded: it ended successfully and the
/// sentinel was seen.
pub open spec fn turn_success(t: (Seq<char>, Seq<char>, bool, Option<(bool, Seq<char>)>)) -> bool {
    t.3 matches Some((ok, _)) && ok && t.2
}

/// A turn that has seen nothing yet.
pub fn new_interactive_turn() -> (t: InteractiveTurn)
    ensures
        turn_view(t) == (Seq::<char>::empty(), Seq::<char>::empty(), false, None::<(bool, Seq<char>)>),
{
    InteractiveTurn { collected: String::new(), final_text: String::new(), found_done: false, end: None }
}

fn ended(t: &InteractiveTurn, success: bool, summary: Vec<char>) -> (r: InteractiveTurn)
    ensures
        turn_view(r) == (t.collected@, t.final_text@, t.found_done, Some((success, summary@))),
{
    InteractiveTurn {
        collected: t.collected.clone(),
        final_text: t.final_text.clone(),
        found_done: t.found_done,
        end: Some(InteractiveEnd { success, summary: string_of(&summary) }),
    }
}

fn collect(t: &InteractiveTurn, chunk: &str, sentinel: &str, strip: bool) -> (r: (InteractiveTurn, bool))
    ensures
        ({
            let c = t.collected@ + chunk@;
            if has_sentinel_line(c, sentinel@) {
                turn_view(r.0) == (c, final_text_of(c, sentinel@, strip), true, None::<(bool, Seq<char>)>) && r.1
            } else {
                turn_view(r.0) == (c, t.final_text@, t.found_done, None::<(bool, Seq<char>)>) && !r.1
            }
        }),
{
    let mut cv = chars_of(t.collected.as_str());
    extend_str(&mut cv, chunk);
    let c = string_of(&cv);
    if contains_sentinel_line(c.as_str(), sentinel) {
        let before = text_before_sentinel(c.as_str(), sentinel);
        let ft = if strip { string_of(&trim_end_chars(&chars_of(before.as_str()))) } else { before };
        (InteractiveTurn { collected: c, final_text: ft, found_done: true, end: None }, true)
    } else {
        (InteractiveTurn { collected: c, final_text: t.final_text.clone(), found_done: t.found_done, end: None }, false)
    }
}

fn push_signed(out: &mut Vec<char>, c: i32)
    ensures
        final(out)@ == old(out)@ + crate::outcome::signed_decimal(c as int),
{
    if c < 0 {
        out.push('-');
        let m: u64 = (-(c as i64)) as u64;
        push_decimal(out, m);
    } else {
        push_decimal(out, c as u64);
    }
}

/// One step of an interactive turn (see [`interactive_step_of`]); `sentinel`
/// is the trimmed completion sentinel and `strip` whether trailing white
/// space is removed from the final text.
pub fn interactive_step(t: &InteractiveTurn, ev: InteractiveEvent, sentinel: &str, strip: bool)
    -> (r: (InteractiveTurn, InteractiveAction))
    ensures
        (turn_view(r.0), r.1) == interactive_step_of(turn_view(*t), ev, sentinel@, strip),
{
    if let Some(e) = &t.end {
        let kept = InteractiveTurn {
            collected: t.collected.clone(),
            final_text: t.final_text.clone(),
            found_done: t.found_done,
            end: Some(InteractiveEnd { success: e.success, summary: e.summary.clone() }),
        };
        return (kept, InteractiveAction::Finish);
    }
    proof {
        reveal_strlit("cancelled");
        reveal_strlit("timeout waiting for interactive command sentinel");
        reveal_strlit("completion kill policy failed: ");
        reveal_strlit("process exited before completion sentinel");
        reveal_strlit("process exited before completion sentinel with code ");
    }
    match ev {
        InteractiveEvent::CancelRequested => {
            let mut m: Vec<char> = Vec::new();
            extend_str(&mut m, "cancelled");
            (ended(t, false, m), InteractiveAction::KillOnCancel)
        },
        InteractiveEvent::DeadlinePassed => {
            let mut m: Vec<char> = Vec::new();
            extend_str(&mut m, "timeout waiting for interactive command sentinel");
            (ended(t, false, m), InteractiveAction::KillOnTimeout)
        },
        InteractiveEvent::Output(chunk) => {
            let (n, seen) = collect(t, chunk.as_str(), sentinel, strip);
            (n, if seen { InteractiveAction::KillOnComplete } else { InteractiveAction::Continue })
        },
        InteractiveEvent::CompletionKilled(r) => match r {
            Ok(()) => (ended(t, true, Vec::new()), InteractiveAction::Finish),
            Err(e) => {
                let mut m: Vec<char> = Vec::new();
                extend_str(&mut m, "completion kill policy failed: ");
                extend_str(&mut m, e.as_str());
                (ended(t, false, m), InteractiveAction::Finish)
            },
        },
        InteractiveEvent::OutputAfterExit(chunk) => {
            let (n, _) = collect(t, chunk.as_str(), sentinel, strip);
            (n, InteractiveAction::Continue)
        },
        InteractiveEvent::Exited { success, code } => {
            if t.found_done {
                (ended(t, true, Vec::new()), InteractiveAction::Finish)
            } else {
                let mut m: Vec<char> = Vec::new();
                if success {
                    extend_str(&mut m, "process exited before completion sentinel");
                } else {
                    extend_str(&mut m, "process exited before completion sentinel with code ");
                    push_signed(&mut m, match code { Some(c) => c, None => -1 });
                }
                (ended(t, false, m), InteractiveAction::Finish)
            }
        },
    }
}

/// Whether a finished turn succeeded (see [`turn_success`]).
pub fn interactive_turn_succeeded(t: &InteractiveTurn) -> (b: bool)
    ensures
        b == turn_success(turn_view(*t)),
{
    match &t.end {
        Some(e) => e.success && t.found_done,
        None => false,
    }
}

} // verus!
