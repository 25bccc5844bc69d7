//! How a provider mode runs: the plan resolved from a manifest, a mode and
//! the provider's binary.

use vstd::prelude::*;

use crate::argv::{ProviderArgSpec, ProviderConditionalArgSpec};
use crate::manifest::{mode_prefix, ProviderInteractiveSpec, ProviderManifest, ProviderModeSpec, ProviderSessionIdSource};
use crate::manifest_check::{arg_literal_list, arg_literals, manifest_error, plain_command, validate_manifest};
use crate::provider::{expand_static_template, normalize_session_tokens, ProviderPromptSpec};
use crate::provider_decoder::{decoder_format, output_format, ProviderDecoderSpec};
use crate::server_url::opt_view;
use crate::text::{chars_of, eq_str, extend_str, is_blank, replace, string_of, trim, trim_chars, views};

verus! {

/// `{bin}` replaced by the provider binary.
pub open spec fn with_bin(s: Seq<char>, bin: Seq<char>) -> Seq<char> {
    replace(s, "{bin}"@, bin)
}

/// `{session.id}` spelled `{session_id}`.
pub open spec fn session_token(s: Seq<char>) -> Seq<char> {
    replace(s, "{session.id}"@, "{session_id}"@)
}

/// Whether `b` is `a` with `{bin}` replaced in every literal, nested ones
/// included, conditions kept.
pub open spec fn args_expanded(a: Seq<ProviderArgSpec>, b: Seq<ProviderArgSpec>, bin: Seq<char>) -> bool
    decreases a,
{
    if a.len() == 0 {
        b.len() == 0
    } else {
        &&& b.len() == a.len()
        &&& args_expanded(a.drop_last(), b.drop_last(), bin)
        &&& match (a.last(), b.last()) {
                (ProviderArgSpec::Literal(x), ProviderArgSpec::Literal(y)) => y@ == with_bin(x@, bin),
                (ProviderArgSpec::Conditional(c), ProviderArgSpec::Conditional(d)) => {
                    proof {
                        assert(decreases_to!(a => a[a.len() - 1]));
                        assert(decreases_to!(a[a.len() - 1] => c));
                        assert(decreases_to!(c => c.args));
                        assert(decreases_to!(c.args => c.args@));
                    }
                    d.when@ == c.when@ && args_expanded(c.args@, d.args@, bin)
                },
                _ => false,
            }
    }
}

/// Argument specs with `{bin}` replaced in every literal.
pub fn expand_static_arg_specs(specs: &Vec<ProviderArgSpec>, bin: &str) -> (out: Vec<ProviderArgSpec>)
    ensures
        args_expanded(specs@, out@, bin@),
    decreases specs@,
{
    let mut out: Vec<ProviderArgSpec> = Vec::new();
    let mut i: usize = 0;
    while i < specs.len()
        invariant
            i <= specs.len(),
            args_expanded(specs@.take(i as int), out@, bin@),
        decreases specs.len() - i,
    {
        let e = match &specs[i] {
            ProviderArgSpec::Literal(v) => ProviderArgSpec::Literal(expand_static_template(v.as_str(), bin)),
            ProviderArgSpec::Conditional(c) => {
                proof {
                    assert(decreases_to!(specs@ => specs@[i as int]));
                    assert(decreases_to!(specs@[i as int] => *c));
                    assert(decreases_to!(*c => c.args));
                    assert(decreases_to!(c.args => c.args@));
                }
                ProviderArgSpec::Conditional(ProviderConditionalArgSpec {
                    when: c.when.clone(),
                    args: expand_static_arg_specs(&c.args, bin),
                })
            },
        };
        let ghost before = out@;
        out.push(e);
        proof {
            let t = specs@.take(i + 1);
            assert(t.drop_last() =~= specs@.take(i as int));
            assert(out@.drop_last() =~= before);
            assert(t.last() == specs@[i as int]);
        }
        i += 1;
    }
    assert(specs@.take(specs.len() as int) =~= specs@);
    out
}

/// A provider session as a plan carries it.
#[derive(Debug)]
pub struct PlanSession {
    pub id_source: Option<ProviderSessionIdSource>,
    pub scope: Option<String>,
    /// The resume arguments, flattened, when there are any.
    pub resume_args: Option<Vec<String>>,
    pub resume_arg_specs: Vec<ProviderArgSpec>,
}

/// How a provider mode runs.
#[derive(Debug)]
pub struct ProviderRuntimePlan {
    pub provider_id: String,
    pub mode: String,
    pub transport_kind: String,
    pub command: String,
    pub args: Vec<String>,
    pub arg_specs: Vec<ProviderArgSpec>,
    pub env: Vec<(String, String)>,
    pub model: Option<String>,
    pub model_args: Vec<String>,
    pub session: Option<PlanSession>,
    pub decoder: ProviderDecoderSpec,
    pub stderr_decoder: Option<ProviderDecoderSpec>,
    pub prompt: Option<ProviderPromptSpec>,
    pub stdin: Option<String>,
    pub timeout_ms: Option<u64>,
    pub idle_timeout_ms: Option<u64>,
    pub interactive: Option<ProviderInteractiveSpec>,
    pub provider_kind: Option<String>,
    pub custom_settings_path: Option<String>,
}

/// The mode used when none is asked for: `print` when the manifest has
/// one, else its first mode, else `print`.
pub open spec fn default_mode(modes: Seq<(String, ProviderModeSpec)>) -> Seq<char> {
    if exists|i: int| 0 <= i < modes.len() && (#[trigger] modes[i]).0@ == "print"@ {
        "print"@
    } else if modes.len() > 0 {
        modes[0].0@
    } else {
        "print"@
    }
}

/// The mode used when none is asked for (see [`default_mode`]).
pub fn default_mode_name(m: &ProviderManifest) -> (out: String)
    ensures
        out@ == default_mode(m.modes@),
{
    let mut i: usize = 0;
    while i < m.modes.len()
        invariant
            i <= m.modes.len(),
            forall|j: int| 0 <= j < i ==> (#[trigger] m.modes@[j]).0@ != "print"@,
        decreases m.modes.len() - i,
    {
        if eq_str(&chars_of(m.modes[i].0.as_str()), "print") {
            return "print".to_owned();
        }
        i += 1;
    }
    if m.modes.len() > 0 {
        m.modes[0].0.clone()
    } else {
        "print".to_owned()
    }
}

/// The mode's command when it can stand for the binary itself: a
/// non-blank command without a template.
pub open spec fn command_candidate(command: Seq<char>) -> Option<Seq<char>> {
    let c = trim(command);
    if c.len() == 0 || c.contains('{') { None } else { Some(c) }
}

/// The mode's command when it can stand for the binary itself (see
/// [`command_candidate`]).
pub fn command_candidate_from_mode(mode: &ProviderModeSpec) -> (r: Option<String>)
    ensures
        opt_view(r) == command_candidate(mode.command@),
{
    let c = trim_chars(&chars_of(mode.command.as_str()));
    let mut i: usize = 0;
    while i < c.len()
        invariant
            i <= c.len(),
            c@ == trim(mode.command@),
            forall|j: int| 0 <= j < i ==> c@[j] != '{',
        decreases c.len() - i,
    {
        if c[i] == '{' {
            assert(c@[i as int] == '{');
            assert(c@.contains('{'));
            return None;
        }
        i += 1;
    }
    if c.len() == 0 {
        return None;
    }
    Some(string_of(&c))
}

/// The refusal of a provider whose binary was not found.
pub fn not_detected_message(id: &str, candidates: &Vec<String>) -> (out: String)
    ensures
        out@ == "provider `"@ + id@ + "` was not detected; candidates: "@ + crate::text::join(views(candidates@), ", "@),
{
    let mut parts: Vec<Vec<char>> = Vec::new();
    let mut i: usize = 0;
    while i < candidates.len()
        invariant
            i <= candidates.len(),
            parts@.map_values(|l: Vec<char>| l@) == views(candidates@.take(i as int)),
        decreases candidates.len() - i,
    {
        let ghost before = parts@.map_values(|l: Vec<char>| l@);
        parts.push(chars_of(candidates[i].as_str()));
        proof {
            assert(parts@.map_values(|l: Vec<char>| l@) =~= before.push(candidates@[i as int]@));
            assert(views(candidates@.take(i + 1)) =~= views(candidates@.take(i as int)).push(candidates@[i as int]@));
        }
        i += 1;
    }
    assert(candidates@.take(candidates.len() as int) =~= candidates@);
    let j = crate::text::join_chars(&parts, chars_of(", ").as_slice());
    let mut m: Vec<char> = Vec::new();
    extend_str(&mut m, "provider `");
    extend_str(&mut m, id);
    extend_str(&mut m, "` was not detected; candidates: ");
    crate::text::extend_chars(&mut m, &j);
    string_of(&m)
}

/// The position of the first mode named `name`.
pub open spec fn mode_pos(modes: Seq<(String, ProviderModeSpec)>, name: Seq<char>) -> Option<int>
    decreases modes.len(),
{
    if modes.len() == 0 {
        None
    } else if modes[0].0@ == name {
        Some(0)
    } else {
        match mode_pos(modes.skip(1), name) {
            Some(i) => Some(i + 1),
            None => None,
        }
    }
}

proof fn lemma_mode_pos(modes: Seq<(String, ProviderModeSpec)>, name: Seq<char>)
    ensures
        match mode_pos(modes, name) {
            Some(i) => 0 <= i < modes.len() && modes[i].0@ == name
                && forall|j: int| 0 <= j < i ==> (#[trigger] modes[j]).0@ != name,
            None => forall|j: int| 0 <= j < modes.len() ==> (#[trigger] modes[j]).0@ != name,
        },
    decreases modes.len(),
{
    if modes.len() > 0 {
        lemma_mode_pos(modes.skip(1), name);
        assert forall|j: int| 0 < j < modes.len() implies (#[trigger] modes[j]) == modes.skip(1)[j - 1] by {}
    }
}

/// The model asked for, trimmed, when it is not blank.
pub open spec fn chosen_model(model: Option<Seq<char>>) -> Option<Seq<char>> {
    match model {
        Some(m) => if trim(m).len() > 0 { Some(trim(m)) } else { None },
        None => None,
    }
}

/// Whether `plan` is the plan of `mode` (named `mode_name`) of the
/// provider `id`, with the binary `bin` and the model asked for: `{bin}`
/// replaced in the command, args, env, model args and stdin; the args
/// flattened with `{session.id}` spelled `{session_id}`; a blank transport
/// taken as `command`; everything else carried over.
pub open spec fn plan_of(id: Seq<char>, mode_name: Seq<char>, mode: ProviderModeSpec, bin: Seq<char>,
    model: Option<Seq<char>>, plan: ProviderRuntimePlan) -> bool {
    &&& plan.provider_id@ == id
    &&& plan.mode@ == mode_name
    &&& plan.transport_kind@ == (if trim(mode.transport@).len() == 0 { "command"@ } else { mode.transport@ })
    &&& plan.command@ == with_bin(mode.command@, bin)
    &&& args_expanded(mode.args@, plan.arg_specs@, bin)
    &&& views(plan.args@) == arg_literals(plan.arg_specs@).map_values(|a: Seq<char>| session_token(a))
    &&& plan.env@.len() == mode.env@.len()
    &&& forall|i: int| 0 <= i < mode.env@.len() ==> (#[trigger] plan.env@[i]).0@ == mode.env@[i].0@
            && plan.env@[i].1@ == with_bin(mode.env@[i].1@, bin)
    &&& opt_view(plan.model) == chosen_model(model)
    &&& views(plan.model_args@) == views(mode.model_args@).map_values(|a: Seq<char>| with_bin(a, bin))
    &&& match mode.session {
            None => plan.session is None,
            Some(s) => plan.session matches Some(ps) && ps.id_source == s.id_source
                && opt_view(ps.scope) == opt_view(s.scope)
                && args_expanded(s.resume_args@, ps.resume_arg_specs@, bin)
                && if arg_literals(ps.resume_arg_specs@).len() == 0 {
                    ps.resume_args is None
                } else {
                    ps.resume_args matches Some(ra)
                        && views(ra@) == arg_literals(ps.resume_arg_specs@).map_values(|a: Seq<char>| session_token(a))
                },
        }
    &&& plan.decoder == mode.stdout
    &&& plan.stderr_decoder == mode.stderr
    &&& plan.prompt == mode.prompt
    &&& opt_view(plan.stdin) == match mode.stdin { Some(s) => Some(with_bin(s@, bin)), None => None }
    &&& plan.timeout_ms == mode.timeout_ms
    &&& plan.idle_timeout_ms == mode.idle_timeout_ms
    &&& plan.interactive == mode.interactive
    &&& plan.provider_kind == mode.provider_kind
    &&& plan.custom_settings_path == mode.custom_settings_path
}

fn find_mode(modes: &Vec<(String, ProviderModeSpec)>, name: &str) -> (r: Option<usize>)
    ensures
        match r {
            Some(i) => mode_pos(modes@, name@) == Some(i as int),
            None => mode_pos(modes@, name@) is None,
        },
{
    proof {
        lemma_mode_pos(modes@, name@);
    }
    let mut i: usize = 0;
    while i < modes.len()
        invariant
            i <= modes.len(),
            forall|j: int| 0 <= j < i ==> (#[trigger] modes@[j]).0@ != name@,
            match mode_pos(modes@, name@) {
                Some(p) => 0 <= p < modes@.len() && modes@[p].0@ == name@
                    && forall|j: int| 0 <= j < p ==> (#[trigger] modes@[j]).0@ != name@,
                None => forall|j: int| 0 <= j < modes@.len() ==> (#[trigger] modes@[j]).0@ != name@,
            },
        decreases modes.len() - i,
    {
        if eq_str(&chars_of(modes[i].0.as_str()), name) {
            assert(modes@[i as int].0@ == name@);
            return Some(i);
        }
        i += 1;
    }
    None
}

fn with_bin_all(values: &Vec<String>, bin: &str) -> (out: Vec<String>)
    ensures
        views(out@) == views(values@).map_values(|a: Seq<char>| with_bin(a, bin@)),
{
    let mut out: Vec<String> = Vec::new();
    let mut i: usize = 0;
    while i < values.len()
        invariant
            i <= values.len(),
            views(out@) == views(values@.take(i as int)).map_values(|a: Seq<char>| with_bin(a, bin@)),
        decreases values.len() - i,
    {
        let ghost before = views(out@);
        out.push(expand_static_template(values[i].as_str(), bin));
        proof {
            assert(views(out@) =~= before.push(with_bin(values@[i as int]@, bin@)));
            assert(views(values@.take(i + 1)).map_values(|a: Seq<char>| with_bin(a, bin@))
                =~= views(values@.take(i as int)).map_values(|a: Seq<char>| with_bin(a, bin@)).push(with_bin(values@[i as int]@, bin@)));
        }
        i += 1;
    }
    assert(values@.take(values.len() as int) =~= values@);
    out
}

/// Resolve the plan of the mode `mode_name` of a manifest, with the
/// provider binary `bin` and the model asked for. The mode must exist, its
/// stdout decoder must have a known format, and the manifest must pass its
/// checks (see [`manifest_error`]); whether a mode's command is an explicit
/// path is decided by the platform's path rules.
pub fn runtime_plan_from_manifest(manifest: ProviderManifest, mode_name: &str, bin: &str, model: Option<&str>)
    -> (r: Result<ProviderRuntimePlan, String>)
    ensures
        mode_pos(manifest.modes@, mode_name@) is None ==> (r matches Err(e)
            && e@ == "provider `"@ + manifest.id@ + "` does not define mode `"@ + mode_name@ + "`"@),
        mode_pos(manifest.modes@, mode_name@) matches Some(i) ==> (decoder_format(manifest.modes@[i].1.stdout.format@,
            opt_view(manifest.modes@[i].1.stdout.name)) is Err ==> (r matches Err(e)
            && decoder_format(manifest.modes@[i].1.stdout.format@, opt_view(manifest.modes@[i].1.stdout.name))
                == Err::<crate::outcome::CommandOutputFormat, Seq<char>>(e@))),
        mode_pos(manifest.modes@, mode_name@) matches Some(i) ==> (decoder_format(manifest.modes@[i].1.stdout.format@,
            opt_view(manifest.modes@[i].1.stdout.name)) is Ok ==> exists|explicit: Seq<bool>| #![trigger manifest_error(manifest, explicit)] explicit.len() == manifest.modes@.len()
            && (forall|j: int| 0 <= j < explicit.len() && plain_command((#[trigger] manifest.modes@[j]).1.command@) ==> !explicit[j])
            && match r {
                Ok(plan) => manifest_error(manifest, explicit) is None
                    && plan_of(manifest.id@, mode_name@, manifest.modes@[i].1, bin@,
                        match model { Some(m) => Some(m@), None => None }, plan),
                Err(e) => manifest_error(manifest, explicit) == Some(e@),
            }),
{
    let ghost m0 = manifest;
    let i = match find_mode(&manifest.modes, mode_name) {
        Some(i) => i,
        None => {
            let mut m: Vec<char> = Vec::new();
            extend_str(&mut m, "provider `");
            extend_str(&mut m, manifest.id.as_str());
            extend_str(&mut m, "` does not define mode `");
            extend_str(&mut m, mode_name);
            extend_str(&mut m, "`");
            return Err(string_of(&m));
        },
    };
    proof {
        lemma_mode_pos(manifest.modes@, mode_name@);
    }
    output_format(&manifest.modes[i].1.stdout)?;
    validate_manifest(&manifest)?;
    let mut man = manifest;
    let (_, mode) = man.modes.remove(i);
    let ghost mv = mode;
    assert(mv == m0.modes@[i as int].1);
    let ProviderModeSpec {
        transport, command, args, env, stdin, model_args, stdout, stderr, session, timeout_ms, idle_timeout_ms,
        interactive, prompt, provider_kind, custom_settings_path,
    } = mode;
    let arg_specs = expand_static_arg_specs(&args, bin);
    let flat = arg_literal_list(&arg_specs);
    let plan_args = normalize_session_tokens(flat);
    let mut plan_env: Vec<(String, String)> = Vec::new();
    let mut k: usize = 0;
    while k < env.len()
        invariant
            k <= env.len(),
            plan_env@.len() == k,
            forall|j: int| 0 <= j < k ==> (#[trigger] plan_env@[j]).0@ == env@[j].0@
                && plan_env@[j].1@ == with_bin(env@[j].1@, bin@),
        decreases env.len() - k,
    {
        plan_env.push((env[k].0.clone(), expand_static_template(env[k].1.as_str(), bin)));
        k += 1;
    }
    let plan_model = match model {
        Some(m) => {
            let t = trim_chars(&chars_of(m));
            if t.len() > 0 { Some(string_of(&t)) } else { None }
        },
        None => None,
    };
    let plan_model_args = with_bin_all(&model_args, bin);
    let plan_session = match session {
        None => None,
        Some(s) => {
            let resume_arg_specs = expand_static_arg_specs(&s.resume_args, bin);
            let resume_flat = arg_literal_list(&resume_arg_specs);
            let resume_args = if resume_flat.len() == 0 { None } else { Some(normalize_session_tokens(resume_flat)) };
            Some(PlanSession { id_source: s.id_source, scope: s.scope, resume_args, resume_arg_specs })
        },
    };
    let plan_stdin = match &stdin {
        Some(v) => Some(expand_static_template(v.as_str(), bin)),
        None => None,
    };
    let transport_kind = if is_blank(&chars_of(transport.as_str())) { "command".to_owned() } else { transport };
    let plan = ProviderRuntimePlan {
        provider_id: man.id,
        mode: mode_name.to_owned(),
        transport_kind,
        command: expand_static_template(command.as_str(), bin),
        args: plan_args,
        arg_specs,
        env: plan_env,
        model: plan_model,
        model_args: plan_model_args,
        session: plan_session,
        decoder: stdout,
        stderr_decoder: stderr,
        prompt,
        stdin: plan_stdin,
        timeout_ms,
        idle_timeout_ms,
        interactive,
        provider_kind,
        custom_settings_path,
    };
    proof {
        let mm = m0.modes@[i as int].1;
        let mo = match model { Some(m) => Some(m@), None => None };
        assert(plan.provider_id@ == m0.id@);
        assert(plan.transport_kind@ == (if trim(mm.transport@).len() == 0 { "command"@ } else { mm.transport@ }));
        assert(args_expanded(mm.args@, plan.arg_specs@, bin@));
        assert(views(plan.args@) == arg_literals(plan.arg_specs@).map_values(|a: Seq<char>| session_token(a)));
        assert(opt_view(plan.model) == chosen_model(mo));
        assert(plan.env@.len() == mm.env@.len());
        assert(forall|j: int| 0 <= j < mm.env@.len() ==> (#[trigger] plan.env@[j]).0@ == mm.env@[j].0@
            && plan.env@[j].1@ == with_bin(mm.env@[j].1@, bin@));
        assert(views(plan.model_args@) == views(mm.model_args@).map_values(|a: Seq<char>| with_bin(a, bin@)));
        assert(plan.decoder == mm.stdout);
        assert(plan.stderr_decoder == mm.stderr);
        assert(plan.prompt == mm.prompt);
        assert(plan.interactive == mm.interactive);
        assert(opt_view(plan.stdin) == match mm.stdin { Some(s) => Some(with_bin(s@, bin@)), None => None });
        assert(match mm.session {
            None => plan.session is None,
            Some(s) => plan.session matches Some(ps) && ps.id_source == s.id_source
                && opt_view(ps.scope) == opt_view(s.scope)
                && args_expanded(s.resume_args@, ps.resume_arg_specs@, bin@)
                && if arg_literals(ps.resume_arg_specs@).len() == 0 {
                    ps.resume_args is None
                } else {
                    ps.resume_args matches Some(ra)
                        && views(ra@) == arg_literals(ps.resume_arg_specs@).map_values(|a: Seq<char>| session_token(a))
                },
        });
        assert(plan_of(m0.id@, mode_name@, mm, bin@, mo, plan));
    }
    Ok(plan)
}

} // verus!
