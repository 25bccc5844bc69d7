//! The argument vector of a command-transport turn: template expansion of
//! `{placeholders}`, model arguments, conditional argument specs, and where
//! the prompt goes.

use vstd::prelude::*;

use crate::text::{
    chars_of, contains, contains_str, eq_chars, eq_str, extend_str, is_blank, replace, replace_chars,
    replace_str, string_of, trim, trim_chars,
};

verus! {

/// The kind of conversation a prompt belongs to.
#[derive(Debug, Clone, Copy, PartialEq, Eq)]
pub enum ScopeKind {
    Thread,
    Channel,
}

/// A conversation scope: its kind and id.
#[derive(Debug, Clone)]
pub struct ScopeRef {
    pub kind: ScopeKind,
    pub id: String,
}

/// How the prompt reaches the provider command.
#[derive(Debug, Clone, Copy, PartialEq, Eq)]
pub enum PromptVia {
    Args,
    Stdin,
    Env,
}

/// A provider-manifest argument: a literal template, or arguments that are
/// present only when a condition holds.
#[derive(Debug)]
pub enum ProviderArgSpec {
    Literal(String),
    Conditional(ProviderConditionalArgSpec),
}

/// Arguments present only when `when` holds for the request.
#[derive(Debug)]
pub struct ProviderConditionalArgSpec {
    pub when: String,
    pub args: Vec<ProviderArgSpec>,
}

/// What a turn asks of the command: its scope, selected model, the
/// rendered prompt outputs and the template variables. Maps are lists of
/// (key, value) pairs in key order without repeated keys, as a `BTreeMap`
/// iterates them.
#[derive(Debug, Clone)]
pub struct AdapterPrompt {
    pub scope: ScopeRef,
    pub content: String,
    pub outputs: Vec<(String, String)>,
    pub model: Option<String>,
    pub template_vars: Vec<(String, String)>,
}

/// The parts of a command configuration that shape its argument vector.
#[derive(Debug)]
pub struct CommandArgs {
    pub actor_id: String,
    /// First-run argv template.
    pub args: Vec<String>,
    /// Provider-manifest argv, preserving conditional fragments; used
    /// instead of `args` when not empty.
    pub arg_specs: Vec<ProviderArgSpec>,
    /// Appended (or inserted before the prompt) when a model is selected.
    pub model_args: Vec<String>,
    pub prompt_via: PromptVia,
}

// ───────────────────────── template expansion ─────────────────────────

/// The value of the first pair with key `k`.
pub open spec fn map_get(m: Seq<(String, String)>, k: Seq<char>) -> Option<Seq<char>>
    decreases m.len(),
{
    if m.len() == 0 {
        None
    } else if m[0].0@ == k {
        Some(m[0].1@)
    } else {
        map_get(m.skip(1), k)
    }
}

/// The selected model, trimmed, unless blank.
pub open spec fn active_model_of(model: Option<String>) -> Option<Seq<char>> {
    match model {
        Some(m) => if trim(m@).len() != 0 { Some(trim(m@)) } else { None },
        None => None,
    }
}

/// The name of a scope kind.
pub open spec fn kind_name(k: ScopeKind) -> Seq<char> {
    match k {
        ScopeKind::Thread => "thread"@,
        ScopeKind::Channel => "channel"@,
    }
}

/// `{prompt.NAME}` replaced by each output in order.
pub open spec fn replace_outputs(s: Seq<char>, outs: Seq<(String, String)>) -> Seq<char>
    decreases outs.len(),
{
    if outs.len() == 0 {
        s
    } else {
        replace(replace_outputs(s, outs.drop_last()), "{prompt."@ + outs.last().0@ + "}"@, outs.last().1@)
    }
}

/// `{KEY}` replaced by each template variable in order.
pub open spec fn replace_vars(s: Seq<char>, vars: Seq<(String, String)>) -> Seq<char>
    decreases vars.len(),
{
    if vars.len() == 0 {
        s
    } else {
        replace(replace_vars(s, vars.drop_last()), "{"@ + vars.last().0@ + "}"@, vars.last().1@)
    }
}

/// The full rendered prompt, or the plain prompt when there is none.
pub open spec fn full_prompt(req: AdapterPrompt, prompt: Seq<char>) -> Seq<char> {
    match map_get(req.outputs@, "full"@) {
        Some(f) => f,
        None => prompt,
    }
}

/// A template with every placeholder expanded, in the order the runtime
/// replaces them: actor, scope, model, prompt (emptied when the prompt goes
/// by stdin and this is not the stdin body), the full prompt, the
/// envelope, the session id when there is one, prompt outputs, then
/// template variables.
pub open spec fn expand(input: Seq<char>, actor_id: Seq<char>, req: AdapterPrompt, session_id: Option<Seq<char>>,
    prompt: Seq<char>, strip_prompt: bool) -> Seq<char>
{
    let model = match active_model_of(req.model) { Some(m) => m, None => seq![] };
    let full = full_prompt(req, prompt);
    let a = replace(input, "{actor.id}"@, actor_id);
    let b = replace(a, "{scope.id}"@, req.scope.id@);
    let c = replace(b, "{scope.kind}"@, kind_name(req.scope.kind));
    let d = replace(c, "{model}"@, model);
    let e = replace(d, "{prompt}"@, if strip_prompt { seq![] } else { prompt });
    let f = replace(e, "{prompt.full}"@, if strip_prompt { seq![] } else { full });
    let g = replace(f, "{loom_envelope}"@, full);
    let h = match session_id {
        Some(sid) => replace(replace(g, "{session_id}"@, sid), "{session.id}"@, sid),
        None => g,
    };
    replace_vars(replace_outputs(h, req.outputs@), req.template_vars@)
}

/// The value for key `k`.
pub fn map_lookup<'a>(m: &'a Vec<(String, String)>, k: &str) -> (r: Option<&'a String>)
    ensures
        match r {
            Some(v) => map_get(m@, k@) == Some(v@),
            None => map_get(m@, k@) is None,
        },
{
    let kc = chars_of(k);
    let mut i: usize = 0;
    assert(m@.skip(0) =~= m@);
    while i < m.len()
        invariant
            i <= m.len(),
            kc@ == k@,
            map_get(m@, k@) == map_get(m@.skip(i as int), k@),
        decreases m.len() - i,
    {
        let c = chars_of(m[i].0.as_str());
        if eq_chars(&c, &kc) {
            assert(m@.skip(i as int)[0] == m@[i as int]);
            return Some(&m[i].1);
        }
        assert(m@.skip(i as int).skip(1) =~= m@.skip(i + 1));
        i += 1;
    }
    None
}

/// The selected model, trimmed, unless blank.
pub fn active_model(req: &AdapterPrompt) -> (r: Option<String>)
    ensures
        crate::server_url::opt_view(r) == active_model_of(req.model),
{
    match &req.model {
        Some(m) => {
            let t = trim_chars(&chars_of(m.as_str()));
            if t.len() != 0 { Some(string_of(&t)) } else { None }
        },
        None => None,
    }
}

fn replace_in(s: Vec<char>, from: &[char], to: &[char]) -> (out: Vec<char>)
    ensures
        out@ == replace(s@, from@, to@),
{
    replace_chars(&s, from, to)
}

/// Expand a template's placeholders (see `expand`). `strip_prompt` empties
/// `{prompt}` and `{prompt.full}`.
pub fn expand_template_inner(input: &str, actor_id: &str, req: &AdapterPrompt, session_id: Option<&str>,
    prompt: &str, strip_prompt: bool) -> (out: String)
    ensures
        out@ == expand(input@, actor_id@, *req, crate::server_url::opt_str_view(session_id), prompt@, strip_prompt),
{
    let empty: Vec<char> = Vec::new();
    let model = match active_model(req) {
        Some(m) => chars_of(m.as_str()),
        None => Vec::new(),
    };
    let full = match map_lookup(&req.outputs, "full") {
        Some(f) => chars_of(f.as_str()),
        None => chars_of(prompt),
    };
    let pc = chars_of(prompt);
    let kind: &str = match req.scope.kind {
        ScopeKind::Thread => "thread",
        ScopeKind::Channel => "channel",
    };
    let mut s = chars_of(input);
    s = replace_in(s, &chars_of("{actor.id}"), &chars_of(actor_id));
    s = replace_in(s, &chars_of("{scope.id}"), &chars_of(req.scope.id.as_str()));
    s = replace_in(s, &chars_of("{scope.kind}"), &chars_of(kind));
    s = replace_in(s, &chars_of("{model}"), &model);
    s = replace_in(s, &chars_of("{prompt}"), if strip_prompt { &empty } else { &pc });
    s = replace_in(s, &chars_of("{prompt.full}"), if strip_prompt { &empty } else { &full });
    s = replace_in(s, &chars_of("{loom_envelope}"), &full);
    if let Some(sid) = session_id {
        let sc = chars_of(sid);
        s = replace_in(s, &chars_of("{session_id}"), &sc);
        s = replace_in(s, &chars_of("{session.id}"), &sc);
    }
    assert(empty@ =~= Seq::<char>::empty());
    let ghost h = s@;
    let mut i: usize = 0;
    while i < req.outputs.len()
        invariant
            i <= req.outputs.len(),
            s@ == replace_outputs(h, req.outputs@.take(i as int)),
        decreases req.outputs.len() - i,
    {
        let mut pat: Vec<char> = Vec::new();
        extend_str(&mut pat, "{prompt.");
        extend_str(&mut pat, req.outputs[i].0.as_str());
        extend_str(&mut pat, "}");
        s = replace_in(s, &pat, &chars_of(req.outputs[i].1.as_str()));
        proof {
            assert(req.outputs@.take(i + 1).drop_last() =~= req.outputs@.take(i as int));
        }
        i += 1;
    }
    assert(req.outputs@.take(req.outputs.len() as int) =~= req.outputs@);
    let ghost o = s@;
    let mut j: usize = 0;
    while j < req.template_vars.len()
        invariant
            j <= req.template_vars.len(),
            s@ == replace_vars(o, req.template_vars@.take(j as int)),
        decreases req.template_vars.len() - j,
    {
        let mut pat: Vec<char> = Vec::new();
        extend_str(&mut pat, "{");
        extend_str(&mut pat, req.template_vars[j].0.as_str());
        extend_str(&mut pat, "}");
        s = replace_in(s, &pat, &chars_of(req.template_vars[j].1.as_str()));
        proof {
            assert(req.template_vars@.take(j + 1).drop_last() =~= req.template_vars@.take(j as int));
        }
        j += 1;
    }
    assert(req.template_vars@.take(req.template_vars.len() as int) =~= req.template_vars@);
    string_of(&s)
}

// ───────────────────────── argument vectors ─────────────────────────

/// Whether an argument template refers to the prompt.
pub open spec fn has_prompt_ref(s: Seq<char>) -> bool {
    contains(s, "{prompt"@) || contains(s, "{loom_envelope}"@)
}

/// Index of the first template argument that refers to the prompt.
pub open spec fn first_prompt_ref(t: Seq<String>) -> Option<int>
    decreases t.len(),
{
    if t.len() == 0 {
        None
    } else if has_prompt_ref(t[0]@) {
        Some(0)
    } else {
        match first_prompt_ref(t.skip(1)) {
            Some(i) => Some(i + 1),
            None => None,
        }
    }
}

/// Flags whose value is the prompt.
pub open spec fn is_prompt_value_flag(a: Seq<char>) -> bool {
    a == "-p"@ || a == "--prompt"@ || a == "--append-system-prompt"@ || a == "--system-prompt"@
}

/// The prompt flags removed when the prompt goes by stdin.
pub open spec fn is_prompt_flag(a: Seq<char>) -> bool {
    a == "-p"@ || a == "--prompt"@
}

/// Where model arguments go when the template places the prompt itself:
/// before the prompt argument, or before the flag that introduces it.
pub open spec fn insert_pos(template: Seq<String>, argv: Seq<Seq<char>>) -> Option<int> {
    match first_prompt_ref(template) {
        None => None,
        Some(pos) => if pos > 0 && is_prompt_value_flag(argv[pos - 1]) { Some(pos - 1) } else { Some(pos) },
    }
}

/// The position of a trailing `-p`/`--prompt` that still needs its value.
pub open spec fn trailing_prompt_flag(argv: Seq<Seq<char>>) -> Option<int> {
    if argv.len() > 0 && is_prompt_flag(argv.last()) { Some(argv.len() - 1) } else { None }
}

/// `argv` without `-p`/`--prompt` and the value after each.
pub open spec fn strip_prompt(argv: Seq<Seq<char>>) -> Seq<Seq<char>>
    decreases argv.len(),
{
    if argv.len() == 0 {
        seq![]
    } else if is_prompt_flag(argv[0]) {
        if argv.len() >= 2 { strip_prompt(argv.skip(2)) } else { seq![] }
    } else {
        seq![argv[0]] + strip_prompt(argv.skip(1))
    }
}

/// Each template expanded.
pub open spec fn expand_each(t: Seq<String>, actor_id: Seq<char>, req: AdapterPrompt, sid: Option<Seq<char>>,
    prompt: Seq<char>, strip: bool) -> Seq<Seq<char>>
{
    t.map_values(|a: String| expand(a@, actor_id, req, sid, prompt, strip))
}

/// The expanded model arguments, when a model is selected.
pub open spec fn model_args_for(cfg: CommandArgs, req: AdapterPrompt, sid: Option<Seq<char>>, prompt: Seq<char>) -> Seq<Seq<char>> {
    if active_model_of(req.model) is None {
        seq![]
    } else {
        expand_each(cfg.model_args@, cfg.actor_id@, req, sid, prompt, cfg.prompt_via == PromptVia::Stdin)
    }
}

/// Whether a template variable is set to something not blank.
pub open spec fn var_set(v: Option<Seq<char>>) -> bool {
    v matches Some(x) && trim(x).len() != 0
}

/// Whether a conditional argument's `when` holds: `model` when a model is
/// selected, `reasoningEffort` (or `reasoning_effort`) when either spelling
/// of the variable is set, any other name when that variable is set.
pub open spec fn arg_condition(when: Seq<char>, req: AdapterPrompt) -> bool {
    let w = trim(when);
    if w == "model"@ {
        active_model_of(req.model) is Some
    } else if w == "reasoningEffort"@ || w == "reasoning_effort"@ {
        var_set(match map_get(req.template_vars@, "reasoningEffort"@) {
            Some(x) => Some(x),
            None => map_get(req.template_vars@, "reasoning_effort"@),
        })
    } else {
        var_set(map_get(req.template_vars@, w))
    }
}

/// The arguments of manifest argument specs, conditionals expanded in place.
pub open spec fn spec_args(specs: Seq<ProviderArgSpec>, cfg: CommandArgs, req: AdapterPrompt,
    sid: Option<Seq<char>>, prompt: Seq<char>) -> Seq<Seq<char>>
    decreases specs,
{
    if specs.len() == 0 {
        seq![]
    } else {
        let rest = spec_args(specs.drop_last(), cfg, req, sid, prompt);
        match specs.last() {
            ProviderArgSpec::Literal(v) =>
                rest.push(expand(v@, cfg.actor_id@, req, sid, prompt, cfg.prompt_via == PromptVia::Stdin)),
            ProviderArgSpec::Conditional(c) =>
                if arg_condition(c.when@, req) { rest + spec_args(c.args@, cfg, req, sid, prompt) } else { rest },
        }
    }
}

/// The argument vector for a template: the expanded template with the
/// model arguments and the prompt placed as the command expects.
/// `dedupe_prompt` also counts an argument equal to the prompt as the
/// prompt already being present.
pub open spec fn argv_from(template: Seq<String>, cfg: CommandArgs, req: AdapterPrompt, sid: Option<Seq<char>>,
    prompt: Seq<char>, dedupe_prompt: bool) -> Seq<Seq<char>>
{
    let stdin = cfg.prompt_via == PromptVia::Stdin;
    let argv = expand_each(template, cfg.actor_id@, req, sid, prompt, stdin);
    let models = model_args_for(cfg, req, sid, prompt);
    let has_ref = first_prompt_ref(template) is Some;
    match insert_pos(template, argv) {
        Some(pos) => {
            let a = argv.take(pos) + models + argv.skip(pos);
            if stdin { strip_prompt(a) } else { a }
        },
        None => if cfg.prompt_via == PromptVia::Args && !has_ref && trailing_prompt_flag(argv) is Some {
            let pos = argv.len() - 1;
            argv.take(pos) + models + seq![argv[pos]] + seq![prompt]
        } else {
            let a = argv + models;
            let already = has_ref || (dedupe_prompt && argv.contains(prompt));
            let b = if cfg.prompt_via == PromptVia::Args && !already { a.push(prompt) } else { a };
            if stdin { strip_prompt(b) } else { b }
        },
    }
}

/// The first-run argument vector: the manifest argument specs when there
/// are any (prompt flags removed when the prompt goes by stdin), else the
/// argument template.
pub open spec fn first_run_argv(cfg: CommandArgs, req: AdapterPrompt, sid: Option<Seq<char>>, prompt: Seq<char>) -> Seq<Seq<char>> {
    if cfg.arg_specs@.len() != 0 {
        let a = spec_args(cfg.arg_specs@, cfg, req, sid, prompt);
        if cfg.prompt_via == PromptVia::Stdin { strip_prompt(a) } else { a }
    } else {
        argv_from(cfg.args@, cfg, req, sid, prompt, true)
    }
}

/// The views of an argument vector.
pub open spec fn arg_views(v: Seq<String>) -> Seq<Seq<char>> {
    v.map_values(|s: String| s@)
}

/// Whether a template argument refers to the prompt.
pub fn contains_prompt_ref(input: &str) -> (b: bool)
    ensures
        b == has_prompt_ref(input@),
{
    let c = chars_of(input);
    contains_str(&c, "{prompt") || contains_str(&c, "{loom_envelope}")
}

proof fn lemma_first_prompt_ref(t: Seq<String>)
    ensures
        first_prompt_ref(t) matches Some(i) ==> 0 <= i < t.len(),
    decreases t.len(),
{
    if t.len() > 0 && !has_prompt_ref(t[0]@) {
        lemma_first_prompt_ref(t.skip(1));
    }
}

fn first_prompt_ref_index(t: &Vec<String>) -> (r: Option<usize>)
    ensures
        match r {
            Some(i) => first_prompt_ref(t@) == Some(i as int) && i < t@.len(),
            None => first_prompt_ref(t@) is None,
        },
{
    let mut i: usize = 0;
    assert(t@.skip(0) =~= t@);
    while i < t.len()
        invariant
            i <= t.len(),
            first_prompt_ref(t@) == (match first_prompt_ref(t@.skip(i as int)) { Some(k) => Some(k + i), None => None }),
        decreases t.len() - i,
    {
        if contains_prompt_ref(t[i].as_str()) {
            assert(t@.skip(i as int)[0] == t@[i as int]);
            return Some(i);
        }
        assert(t@.skip(i as int).skip(1) =~= t@.skip(i + 1));
        i += 1;
    }
    None
}

fn is_prompt_value_flag_str(a: &str) -> (b: bool)
    ensures
        b == is_prompt_value_flag(a@),
{
    let c = chars_of(a);
    eq_str(&c, "-p") || eq_str(&c, "--prompt") || eq_str(&c, "--append-system-prompt") || eq_str(&c, "--system-prompt")
}

fn is_prompt_flag_str(a: &str) -> (b: bool)
    ensures
        b == is_prompt_flag(a@),
{
    let c = chars_of(a);
    eq_str(&c, "-p") || eq_str(&c, "--prompt")
}

/// Where model arguments go in an expanded template that places the prompt.
pub fn prompt_ref_insert_pos(template: &Vec<String>, argv: &Vec<String>) -> (r: Option<usize>)
    requires
        argv@.len() == template@.len(),
    ensures
        match r {
            Some(p) => insert_pos(template@, arg_views(argv@)) == Some(p as int),
            None => insert_pos(template@, arg_views(argv@)) is None,
        },
{
    let pos = match first_prompt_ref_index(template) {
        Some(p) => p,
        None => return None,
    };
    if pos > 0 && is_prompt_value_flag_str(argv[pos - 1].as_str()) {
        Some(pos - 1)
    } else {
        Some(pos)
    }
}

/// The index of a trailing `-p`/`--prompt` that still needs its value.
pub fn prompt_flag_without_value(argv: &Vec<String>) -> (r: Option<usize>)
    ensures
        match r {
            Some(p) => trailing_prompt_flag(arg_views(argv@)) == Some(p as int),
            None => trailing_prompt_flag(arg_views(argv@)) is None,
        },
{
    if argv.len() > 0 && is_prompt_flag_str(argv[argv.len() - 1].as_str()) {
        Some(argv.len() - 1)
    } else {
        None
    }
}

/// Remove `-p <prompt>` and `--prompt <prompt>` (and a trailing bare flag),
/// for prompts delivered on stdin.
pub fn strip_prompt_args(argv: &mut Vec<String>)
    ensures
        arg_views(final(argv)@) == strip_prompt(arg_views(old(argv)@)),
{
    let mut i: usize = 0;
    let ghost orig = arg_views(argv@);
    assert(orig.skip(0) =~= orig);
    assert(arg_views(argv@).take(0) + strip_prompt(orig) =~= strip_prompt(orig));
    loop
        invariant
            i <= argv.len(),
            arg_views(argv@).take(i as int) + strip_prompt(arg_views(argv@).skip(i as int)) == strip_prompt(orig),
            orig == arg_views(old(argv)@),
        ensures
            arg_views(argv@) == strip_prompt(orig),
        decreases argv.len() - i,
    {
        if i >= argv.len() {
            assert(arg_views(argv@).skip(i as int) =~= Seq::<Seq<char>>::empty());
            assert(arg_views(argv@).take(i as int) =~= arg_views(argv@));
            assert(strip_prompt(Seq::<Seq<char>>::empty()) == Seq::<Seq<char>>::empty());
            assert(arg_views(argv@) + Seq::<Seq<char>>::empty() =~= arg_views(argv@));
            break;
        }
        let ghost before = arg_views(argv@);
        if is_prompt_flag_str(argv[i].as_str()) {
            if i + 1 < argv.len() {
                argv.remove(i);
                argv.remove(i);
                proof {
                    assert(arg_views(argv@).take(i as int) =~= before.take(i as int));
                    assert(arg_views(argv@).skip(i as int) =~= before.skip(i as int).skip(2));
                }
            } else {
                argv.remove(i);
                proof {
                    assert(arg_views(argv@).take(i as int) =~= before.take(i as int));
                    assert(arg_views(argv@).skip(i as int) =~= Seq::<Seq<char>>::empty());
                }
            }
        } else {
            proof {
                assert(before.skip(i as int)[0] == before[i as int]);
                assert(before.take(i + 1) =~= before.take(i as int).push(before[i as int]));
                assert(before.skip(i as int).skip(1) =~= before.skip(i + 1));
            }
            i += 1;
        }
    }
}

/// Expand each template of `t`.
fn expand_all(t: &Vec<String>, cfg: &CommandArgs, req: &AdapterPrompt, sid: Option<&str>, prompt: &str) -> (out: Vec<String>)
    ensures
        arg_views(out@) == expand_each(t@, cfg.actor_id@, *req, crate::server_url::opt_str_view(sid), prompt@,
            cfg.prompt_via == PromptVia::Stdin),
        out@.len() == t@.len(),
{
    let strip = matches!(cfg.prompt_via, PromptVia::Stdin);
    let mut out: Vec<String> = Vec::new();
    let mut i: usize = 0;
    while i < t.len()
        invariant
            i <= t.len(),
            strip == (cfg.prompt_via == PromptVia::Stdin),
            arg_views(out@) == expand_each(t@.take(i as int), cfg.actor_id@, *req, crate::server_url::opt_str_view(sid),
                prompt@, strip),
        decreases t.len() - i,
    {
        let e = expand_template_inner(t[i].as_str(), cfg.actor_id.as_str(), req, sid, prompt, strip);
        let ghost before = out@;
        out.push(e);
        proof {
            assert(arg_views(out@) =~= arg_views(before).push(e@));
            assert(expand_each(t@.take(i + 1), cfg.actor_id@, *req, crate::server_url::opt_str_view(sid), prompt@, strip)
                =~= expand_each(t@.take(i as int), cfg.actor_id@, *req, crate::server_url::opt_str_view(sid), prompt@, strip).push(e@));
        }
        i += 1;
    }
    assert(t@.take(t.len() as int) =~= t@);
    out
}

/// The expanded model arguments, when a model is selected.
fn model_args(cfg: &CommandArgs, req: &AdapterPrompt, sid: Option<&str>, prompt: &str) -> (out: Vec<String>)
    ensures
        arg_views(out@) == model_args_for(*cfg, *req, crate::server_url::opt_str_view(sid), prompt@),
{
    if active_model(req).is_none() {
        let e: Vec<String> = Vec::new();
        assert(arg_views(e@) =~= Seq::<Seq<char>>::empty());
        return e;
    }
    expand_all(&cfg.model_args, cfg, req, sid, prompt)
}

/// Whether a conditional argument's `when` holds for the request.
pub fn arg_condition_matches(when: &str, req: &AdapterPrompt) -> (b: bool)
    ensures
        b == arg_condition(when@, *req),
{
    let w = trim_chars(&chars_of(when));
    if eq_str(&w, "model") {
        return active_model(req).is_some();
    }
    let v: Option<&String> = if eq_str(&w, "reasoningEffort") || eq_str(&w, "reasoning_effort") {
        match map_lookup(&req.template_vars, "reasoningEffort") {
            Some(x) => Some(x),
            None => map_lookup(&req.template_vars, "reasoning_effort"),
        }
    } else {
        let ws = string_of(&w);
        map_lookup(&req.template_vars, ws.as_str())
    };
    match v {
        Some(x) => !is_blank(&chars_of(x.as_str())),
        None => false,
    }
}

/// Append the arguments of manifest argument specs.
pub fn append_arg_specs(out: &mut Vec<String>, specs: &Vec<ProviderArgSpec>, cfg: &CommandArgs, req: &AdapterPrompt,
    sid: Option<&str>, prompt: &str)
    ensures
        arg_views(final(out)@) == arg_views(old(out)@) + spec_args(specs@, *cfg, *req, crate::server_url::opt_str_view(sid), prompt@),
    decreases specs@,
{
    let ghost sv = crate::server_url::opt_str_view(sid);
    let mut i: usize = 0;
    assert(specs@.take(0) =~= Seq::<ProviderArgSpec>::empty());
    assert(arg_views(out@) =~= arg_views(old(out)@) + spec_args(specs@.take(0), *cfg, *req, sv, prompt@));
    while i < specs.len()
        invariant
            i <= specs.len(),
            sv == crate::server_url::opt_str_view(sid),
            arg_views(out@) == arg_views(old(out)@) + spec_args(specs@.take(i as int), *cfg, *req, sv, prompt@),
        decreases specs.len() - i,
    {
        proof {
            assert(specs@.take(i + 1).drop_last() =~= specs@.take(i as int));
            assert(specs@.take(i + 1).last() == specs@[i as int]);
        }
        let ghost before = arg_views(out@);
        match &specs[i] {
            ProviderArgSpec::Literal(v) => {
                let e = expand_template_inner(v.as_str(), cfg.actor_id.as_str(), req, sid, prompt,
                    matches!(cfg.prompt_via, PromptVia::Stdin));
                out.push(e);
                assert(arg_views(out@) =~= before.push(e@));
            },
            ProviderArgSpec::Conditional(c) => {
                if arg_condition_matches(c.when.as_str(), req) {
                    proof {
                        assert(decreases_to!(specs@ => specs@[i as int]));
                        assert(decreases_to!(specs@[i as int] => (specs@[i as int])->Conditional_0));
                        assert(decreases_to!(*c => c.args));
                        assert(decreases_to!(c.args => c.args@));
                    }
                    append_arg_specs(out, &c.args, cfg, req, sid, prompt);
                }
            },
        }
        i += 1;
    }
    assert(specs@.take(specs.len() as int) =~= specs@);
}

/// Whether one of the first `n` arguments equals `p`.
fn holds_arg(v: &Vec<String>, n: usize, p: &str) -> (b: bool)
    requires
        n <= v@.len(),
    ensures
        b == arg_views(v@).take(n as int).contains(p@),
{
    let pc = chars_of(p);
    let mut j: usize = 0;
    while j < n
        invariant
            j <= n,
            n <= v@.len(),
            pc@ == p@,
            forall|k: int| 0 <= k < j ==> v@[k]@ != p@,
        decreases n - j,
    {
        if eq_chars(&chars_of(v[j].as_str()), &pc) {
            assert(arg_views(v@).take(n as int)[j as int] == p@);
            return true;
        }
        j += 1;
    }
    proof {
        if arg_views(v@).take(n as int).contains(p@) {
            let k = choose|k: int| 0 <= k < n && arg_views(v@).take(n as int)[k] == p@;
            assert(v@[k]@ == p@);
        }
    }
    false
}

/// Splice `items` into `v` at `pos`.
fn splice_at(v: &mut Vec<String>, pos: usize, items: Vec<String>)
    requires
        pos <= old(v)@.len(),
    ensures
        arg_views(final(v)@) == arg_views(old(v)@).take(pos as int) + arg_views(items@) + arg_views(old(v)@).skip(pos as int),
{
    let ghost v0 = arg_views(v@);
    let mut rest = items;
    let mut k: usize = 0;
    let ghost iv = arg_views(rest@);
    let n_items = rest.len();
    assert(iv.skip(0) =~= iv);
    while rest.len() > 0
        invariant
            k <= iv.len(),
            iv.len() == n_items,
            pos + k <= v.len(),
            pos <= v0.len(),
            arg_views(rest@) == iv.skip(k as int),
            arg_views(v@) == v0.take(pos as int) + iv.take(k as int) + v0.skip(pos as int),
        decreases rest.len(),
    {
        let ghost before = arg_views(v@);
        let ghost rk = arg_views(rest@);
        let ghost rv = rest@;
        let x = rest.remove(0);
        assert(x@ == rk[0]);
        assert(rest@ =~= rv.skip(1));
        let ghost vb = v@;
        v.insert(pos + k, x);
        proof {
            assert(v@ =~= vb.insert((pos + k) as int, x));
            assert(arg_views(v@) =~= before.insert((pos + k) as int, x@));
            assert(arg_views(rest@) =~= rk.skip(1));
            assert(arg_views(rest@) =~= iv.skip(k + 1));
            assert(iv.take(k + 1) =~= iv.take(k as int).push(x@));
            assert(arg_views(v@) =~= v0.take(pos as int) + iv.take(k + 1) + v0.skip(pos as int));
        }
        k += 1;
    }
    assert(iv.take(k as int) =~= iv);
}

/// The argument vector for a template (see `argv_from`).
fn argv_for(template: &Vec<String>, cfg: &CommandArgs, req: &AdapterPrompt, sid: Option<&str>, prompt: &str,
    dedupe_prompt: bool) -> (out: Vec<String>)
    ensures
        arg_views(out@) == argv_from(template@, *cfg, *req, crate::server_url::opt_str_view(sid), prompt@, dedupe_prompt),
{
    let mut argv = expand_all(template, cfg, req, sid, prompt);
    let stdin = matches!(cfg.prompt_via, PromptVia::Stdin);
    if let Some(pos) = prompt_ref_insert_pos(template, &argv) {
        proof {
            lemma_first_prompt_ref(template@);
        }
        let models = model_args(cfg, req, sid, prompt);
        splice_at(&mut argv, pos, models);
        if stdin {
            strip_prompt_args(&mut argv);
        }
        return argv;
    }
    let has_ref = first_prompt_ref_index(template).is_some();
    if matches!(cfg.prompt_via, PromptVia::Args) && !has_ref {
        if let Some(pos) = prompt_flag_without_value(&argv) {
            let models = model_args(cfg, req, sid, prompt);
            let ghost a0 = arg_views(argv@);
            splice_at(&mut argv, pos, models);
            argv.push(prompt.to_owned());
            proof {
                assert(a0.skip(pos as int) =~= seq![a0[pos as int]]);
            }
            return argv;
        }
    }
    let models = model_args(cfg, req, sid, prompt);
    let n = argv.len();
    let ghost a = arg_views(argv@);
    let ghost mv = arg_views(models@);
    splice_at(&mut argv, n, models);
    proof {
        assert(a.take(n as int) =~= a);
        assert(a.skip(n as int) =~= Seq::<Seq<char>>::empty());
        assert(arg_views(argv@) =~= a + mv);
        assert(arg_views(argv@).take(n as int) =~= a);
    }
    let already = has_ref || (dedupe_prompt && holds_arg(&argv, n, prompt));
    if matches!(cfg.prompt_via, PromptVia::Args) && !already {
        let ghost b0 = arg_views(argv@);
        argv.push(prompt.to_owned());
        assert(arg_views(argv@) =~= b0.push(prompt@));
    }
    if stdin {
        strip_prompt_args(&mut argv);
    }
    argv
}

/// The argument vector for a resumed turn's template.
pub fn expand_argv(template: &Vec<String>, cfg: &CommandArgs, req: &AdapterPrompt, sid: Option<&str>, prompt: &str) -> (out: Vec<String>)
    ensures
        arg_views(out@) == argv_from(template@, *cfg, *req, crate::server_url::opt_str_view(sid), prompt@, false),
{
    argv_for(template, cfg, req, sid, prompt, false)
}

/// The argument vector for a first run (see `first_run_argv`).
pub fn expand_first_run_argv(cfg: &CommandArgs, req: &AdapterPrompt, sid: Option<&str>, prompt: &str) -> (out: Vec<String>)
    ensures
        arg_views(out@) == first_run_argv(*cfg, *req, crate::server_url::opt_str_view(sid), prompt@),
{
    if cfg.arg_specs.len() != 0 {
        let mut argv: Vec<String> = Vec::new();
        append_arg_specs(&mut argv, &cfg.arg_specs, cfg, req, sid, prompt);
        assert(arg_views(argv@) =~= spec_args(cfg.arg_specs@, *cfg, *req, crate::server_url::opt_str_view(sid), prompt@));
        if matches!(cfg.prompt_via, PromptVia::Stdin) {
            strip_prompt_args(&mut argv);
        }
        return argv;
    }
    argv_for(&cfg.args, cfg, req, sid, prompt, true)
}

} // verus!
