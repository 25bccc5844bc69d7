//! The whole check of a provider manifest: template variables, prompt
//! outputs and references, and each mode in turn.

use vstd::prelude::*;

use crate::argv::ProviderArgSpec;
use crate::manifest::{
    condition_names_error, interactive_error, mode_command_error, mode_prefix, session_spec_error, validate_condition_names,
    validate_interactive_mode, validate_mode_command, validate_session_spec, ProviderManifest, ProviderModeSpec,
};
use crate::provider::{
    is_known_prompt_part, is_prompt_part_placeholder, known_parts, part_placeholder, preset, preset_parts,
    validate_workspace_file_spec, workspace_file_error, PromptOutputSpec, ProviderPromptSpec, ProviderWorkspaceFileSpec,
};
use crate::provider::{
    args_deliver_prompt, collect_prompt_refs, prompt_refs, provider_id_error, string_args_have_prompt_reference,
    validate_provider_id, delivers_prompt, is_prompt_delivery_var, is_supported_runtime_template_var, placeholders, runtime_vars,
    template_placeholders,
};
use crate::provider_decoder::{decoder_error, first_error, validate_decoder_spec};
use crate::text::{views, chars_of, decimal, is_blank, push_decimal, trim, eq_str, extend_chars, extend_str, starts_with, starts_with_chars, slice_chars, string_of};

verus! {

/// The message of a manifest error: the mode prefix, then the pieces.
fn mode_message(id: &str, mode: &str, a: &str, b: &[char], c: &str) -> (out: String)
    ensures
        out@ == mode_prefix(id@, mode@) + a@ + b@ + c@,
{
    let mut m: Vec<char> = Vec::new();
    extend_str(&mut m, "provider `");
    extend_str(&mut m, id);
    extend_str(&mut m, "` mode `");
    extend_str(&mut m, mode);
    extend_str(&mut m, "` ");
    extend_str(&mut m, a);
    extend_chars(&mut m, b);
    extend_str(&mut m, c);
    string_of(&m)
}

// ───────────────────────── template variables ─────────────────────────

/// Whether `name` is one of `names`.
fn contains_name(names: &Vec<String>, name: &[char]) -> (b: bool)
    ensures
        b == crate::text::views(names@).contains(name@),
{
    let mut i: usize = 0;
    while i < names.len()
        invariant
            i <= names.len(),
            forall|k: int| 0 <= k < i ==> names@[k]@ != name@,
        decreases names.len() - i,
    {
        if crate::text::eq_chars(chars_of(names[i].as_str()).as_slice(), name) {
            assert(crate::text::views(names@)[i as int] == name@);
            return true;
        }
        i += 1;
    }
    proof {
        if crate::text::views(names@).contains(name@) {
            let k = choose|k: int| 0 <= k < crate::text::views(names@).len() && crate::text::views(names@)[k] == name@;
            assert(names@[k]@ == name@);
        }
    }
    false
}

/// Why a template variable is refused, if it is: `prompt.NAME` must name
/// one of the prompt outputs; any other variable must be a runtime
/// variable or a `vars.*` one.
pub open spec fn template_var_error(id: Seq<char>, mode: Seq<char>, at: Seq<char>, name: Seq<char>,
    outputs: Seq<Seq<char>>) -> Option<Seq<char>> {
    if starts_with(name, "prompt."@) {
        let o = name.skip(7);
        if outputs.contains(o) {
            None
        } else {
            Some(mode_prefix(id, mode) + at + " references unknown prompt output `"@ + o + "`"@)
        }
    } else if runtime_vars().contains(name) || starts_with(name, "vars."@) {
        None
    } else {
        Some(mode_prefix(id, mode) + at + " references unknown template variable `"@ + name + "`"@)
    }
}

/// The first refused variable among `names`.
pub open spec fn vars_error(id: Seq<char>, mode: Seq<char>, at: Seq<char>, names: Seq<Seq<char>>,
    outputs: Seq<Seq<char>>) -> Option<Seq<char>>
    decreases names.len(),
{
    if names.len() == 0 {
        None
    } else {
        first_error(template_var_error(id, mode, at, names[0], outputs),
            vars_error(id, mode, at, names.skip(1), outputs))
    }
}

/// The first refused variable of the templates `values`, in order.
pub open spec fn templates_error(id: Seq<char>, mode: Seq<char>, at: Seq<char>, values: Seq<Seq<char>>,
    outputs: Seq<Seq<char>>) -> Option<Seq<char>>
    decreases values.len(),
{
    if values.len() == 0 {
        None
    } else {
        first_error(vars_error(id, mode, at, placeholders(values[0]), outputs),
            templates_error(id, mode, at, values.skip(1), outputs))
    }
}

/// Check one template variable (see [`template_var_error`]).
pub fn validate_template_variable(id: &str, mode: &str, at: &str, name: &[char], outputs: &Vec<String>) -> (r: Result<(), String>)
    ensures
        match r {
            Ok(()) => template_var_error(id@, mode@, at@, name@, crate::text::views(outputs@)) is None,
            Err(m) => template_var_error(id@, mode@, at@, name@, crate::text::views(outputs@)) == Some(m@),
        },
{
    let prefix = chars_of("prompt.");
    proof {
        reveal_strlit("prompt.");
        reveal_strlit("");
    }
    if starts_with_chars(name, &prefix) {
        let o = slice_chars(name, 7, name.len());
        assert(o@ =~= name@.skip(7));
        if contains_name(outputs, &o) {
            return Ok(());
        }
        let mut a: Vec<char> = Vec::new();
        extend_str(&mut a, at);
        extend_str(&mut a, " references unknown prompt output `");
        extend_chars(&mut a, &o);
        let r = Err(mode_message(id, mode, "", &a, "`"));
        assert(r->Err_0@ =~= mode_prefix(id@, mode@) + at@ + " references unknown prompt output `"@ + o@ + "`"@);
        return r;
    }
    if is_supported_runtime_template_var(name) {
        return Ok(());
    }
    let mut a: Vec<char> = Vec::new();
    extend_str(&mut a, at);
    extend_str(&mut a, " references unknown template variable `");
    extend_chars(&mut a, name);
    let r = Err(mode_message(id, mode, "", &a, "`"));
    assert(r->Err_0@ =~= mode_prefix(id@, mode@) + at@ + " references unknown template variable `"@ + name@ + "`"@);
    r
}

/// Check the variables of one template (see [`vars_error`]).
pub fn validate_string_template(id: &str, mode: &str, at: &str, value: &str, outputs: &Vec<String>) -> (r: Result<(), String>)
    ensures
        match r {
            Ok(()) => vars_error(id@, mode@, at@, placeholders(value@), crate::text::views(outputs@)) is None,
            Err(m) => vars_error(id@, mode@, at@, placeholders(value@), crate::text::views(outputs@)) == Some(m@),
        },
{
    let names = template_placeholders(value);
    let ghost nv = names@.map_values(|l: Vec<char>| l@);
    let ghost outs = crate::text::views(outputs@);
    assert(nv.skip(0) =~= nv);
    let mut i: usize = 0;
    while i < names.len()
        invariant
            i <= names.len(),
            nv == names@.map_values(|l: Vec<char>| l@),
            nv == placeholders(value@),
            outs == crate::text::views(outputs@),
            vars_error(id@, mode@, at@, nv.skip(i as int), outs) == vars_error(id@, mode@, at@, nv, outs),
        decreases names.len() - i,
    {
        assert(nv.skip(i as int)[0] == names@[i as int]@);
        assert(nv.skip(i as int).skip(1) =~= nv.skip(i + 1));
        if let Err(m) = validate_template_variable(id, mode, at, &names[i], outputs) {
            return Err(m);
        }
        i += 1;
    }
    assert(nv.skip(i as int).len() == 0);
    Ok(())
}

/// Check the variables of several templates (see [`templates_error`]).
pub fn validate_templates(id: &str, mode: &str, at: &str, values: &Vec<String>, outputs: &Vec<String>) -> (r: Result<(), String>)
    ensures
        match r {
            Ok(()) => templates_error(id@, mode@, at@, crate::text::views(values@), crate::text::views(outputs@)) is None,
            Err(m) => templates_error(id@, mode@, at@, crate::text::views(values@), crate::text::views(outputs@)) == Some(m@),
        },
{
    let ghost vv = crate::text::views(values@);
    let ghost outs = crate::text::views(outputs@);
    assert(vv.skip(0) =~= vv);
    let mut i: usize = 0;
    while i < values.len()
        invariant
            i <= values.len(),
            vv == crate::text::views(values@),
            outs == crate::text::views(outputs@),
            templates_error(id@, mode@, at@, vv.skip(i as int), outs) == templates_error(id@, mode@, at@, vv, outs),
        decreases values.len() - i,
    {
        assert(vv.skip(i as int)[0] == values@[i as int]@);
        assert(vv.skip(i as int).skip(1) =~= vv.skip(i + 1));
        if let Err(m) = validate_string_template(id, mode, at, values[i].as_str(), outputs) {
            return Err(m);
        }
        i += 1;
    }
    assert(vv.skip(i as int).len() == 0);
    Ok(())
}

// ───────────────────────── the templates of a mode ─────────────────────────

/// The literal templates of argument specs, in order, nested ones included.
pub open spec fn arg_literals(args: Seq<ProviderArgSpec>) -> Seq<Seq<char>>
    decreases args,
{
    if args.len() == 0 {
        seq![]
    } else {
        let head = match args[0] {
            ProviderArgSpec::Literal(v) => seq![v@],
            ProviderArgSpec::Conditional(c) => {
                proof {
                    assert(decreases_to!(args => args[0]));
                    assert(decreases_to!(args[0] => c));
                    assert(decreases_to!(c => c.args));
                    assert(decreases_to!(c.args => c.args@));
                }
                arg_literals(c.args@)
            },
        };
        head + arg_literals(args.skip(1))
    }
}

/// Append the literal templates of `args` from `from` on to `out`.
pub fn collect_arg_literals(args: &Vec<ProviderArgSpec>, from: usize, out: &mut Vec<String>)
    requires
        from <= args@.len(),
    ensures
        views(final(out)@) == views(old(out)@) + arg_literals(args@.skip(from as int)),
    decreases args@.skip(from as int),
{
    let ghost rest = args@.skip(from as int);
    if from >= args.len() {
        assert(rest.len() == 0);
        assert(views(out@) + arg_literals(rest) =~= views(out@));
        return;
    }
    assert(rest[0] == args@[from as int]);
    assert(rest.skip(1) =~= args@.skip(from + 1));
    let ghost before = views(out@);
    match &args[from] {
        ProviderArgSpec::Literal(v) => {
            out.push(v.clone());
            assert(views(out@) =~= before + seq![v@]);
        },
        ProviderArgSpec::Conditional(c) => {
            proof {
                assert(decreases_to!(rest => rest[0]));
                assert(decreases_to!(rest[0] => *c));
                assert(decreases_to!(*c => c.args));
                assert(decreases_to!(c.args => c.args@));
                assert(c.args@.skip(0) =~= c.args@);
            }
            collect_arg_literals(&c.args, 0, out);
        },
    }
    let ghost mid = views(out@);
    proof {
        assert(decreases_to!(rest => rest.skip(1)));
    }
    collect_arg_literals(args, from + 1, out);
    assert(views(out@) =~= before + arg_literals(rest));
}

/// The literal templates of argument specs, in order.
pub fn arg_literal_list(args: &Vec<ProviderArgSpec>) -> (out: Vec<String>)
    ensures
        views(out@) == arg_literals(args@),
{
    let mut out: Vec<String> = Vec::new();
    assert(args@.skip(0) =~= args@);
    collect_arg_literals(args, 0, &mut out);
    assert(views(out@) =~= arg_literals(args@));
    out
}

/// The values of an environment template list, in order.
pub open spec fn env_values(env: Seq<(String, String)>) -> Seq<Seq<char>> {
    env.map_values(|p: (String, String)| p.1@)
}

fn env_value_list(env: &Vec<(String, String)>) -> (out: Vec<String>)
    ensures
        views(out@) == env_values(env@),
{
    let mut out: Vec<String> = Vec::new();
    let mut i: usize = 0;
    while i < env.len()
        invariant
            i <= env.len(),
            views(out@) == env_values(env@.take(i as int)),
        decreases env.len() - i,
    {
        let ghost before = views(out@);
        out.push(env[i].1.clone());
        assert(views(out@) =~= before.push(env@[i as int].1@));
        assert(env_values(env@.take(i + 1)) =~= env_values(env@.take(i as int)).push(env@[i as int].1@));
        i += 1;
    }
    assert(env@.take(env.len() as int) =~= env@);
    out
}

/// The names of a mode's prompt outputs: those it declares, or `full`
/// when it declares none.
pub open spec fn output_names(prompt: Option<ProviderPromptSpec>) -> Seq<Seq<char>> {
    match prompt {
        Some(p) => if p.outputs@.len() > 0 {
            p.outputs@.map_values(|o: (String, crate::provider::PromptOutputSpec)| o.0@)
        } else {
            seq!["full"@]
        },
        None => seq!["full"@],
    }
}

/// The names of a mode's prompt outputs (see [`output_names`]).
pub fn prompt_output_names(prompt: &Option<ProviderPromptSpec>) -> (out: Vec<String>)
    ensures
        views(out@) == output_names(*prompt),
{
    let mut out: Vec<String> = Vec::new();
    if let Some(p) = prompt {
        if p.outputs.len() > 0 {
            let mut i: usize = 0;
            while i < p.outputs.len()
                invariant
                    i <= p.outputs.len(),
                    views(out@) == p.outputs@.take(i as int).map_values(|o: (String, crate::provider::PromptOutputSpec)| o.0@),
                decreases p.outputs.len() - i,
            {
                let ghost before = views(out@);
                out.push(p.outputs[i].0.clone());
                assert(views(out@) =~= before.push(p.outputs@[i as int].0@));
                assert(p.outputs@.take(i + 1).map_values(|o: (String, crate::provider::PromptOutputSpec)| o.0@)
                    =~= p.outputs@.take(i as int).map_values(|o: (String, crate::provider::PromptOutputSpec)| o.0@).push(p.outputs@[i as int].0@));
                i += 1;
            }
            assert(p.outputs@.take(p.outputs.len() as int) =~= p.outputs@);
            return out;
        }
    }
    out.push("full".to_owned());
    proof {
        reveal_strlit("full");
    }
    assert(views(out@) =~= seq!["full"@]);
    out
}

/// The first refused template variable of a mode, in the order the
/// templates are checked: command, args, env, stdin, model args, session
/// resume args, the interactive templates, the custom settings path; then
/// the conditions of args and of session resume args.
pub open spec fn template_vars_error(id: Seq<char>, n: Seq<char>, m: ProviderModeSpec, outs: Seq<Seq<char>>) -> Option<Seq<char>> {
    let stdin_err = match m.stdin {
        Some(s) => vars_error(id, n, "stdin"@, placeholders(s@), outs),
        None => None,
    };
    let session_err = match m.session {
        Some(s) => templates_error(id, n, "session.resumeArgs"@, arg_literals(s.resume_args@), outs),
        None => None,
    };
    let interactive_err = match m.interactive {
        Some(i) => first_error(templates_error(id, n, "interactive.session.newArgs"@, views(i.session.new_args@), outs),
            first_error(templates_error(id, n, "interactive.session.resumeArgs"@, views(i.session.resume_args@), outs),
                vars_error(id, n, "interactive.prompt.template"@, placeholders(i.prompt_template@), outs))),
        None => None,
    };
    let settings_err = match m.custom_settings_path {
        Some(p) => vars_error(id, n, "provider.settings.path"@, placeholders(p@), outs),
        None => None,
    };
    let session_cond = match m.session {
        Some(s) => condition_names_error(id, n, s.resume_args@),
        None => None,
    };
    first_error(vars_error(id, n, "command"@, placeholders(m.command@), outs),
    first_error(templates_error(id, n, "args"@, arg_literals(m.args@), outs),
    first_error(templates_error(id, n, "env"@, env_values(m.env@), outs),
    first_error(stdin_err,
    first_error(templates_error(id, n, "modelArgs"@, views(m.model_args@), outs),
    first_error(session_err,
    first_error(interactive_err,
    first_error(settings_err,
    first_error(condition_names_error(id, n, m.args@), session_cond)))))))))
}

/// Check the template variables of a mode (see [`template_vars_error`]).
pub fn validate_template_variables(id: &str, n: &str, m: &ProviderModeSpec, outputs: &Vec<String>) -> (r: Result<(), String>)
    ensures
        match r {
            Ok(()) => template_vars_error(id@, n@, *m, views(outputs@)) is None,
            Err(e) => template_vars_error(id@, n@, *m, views(outputs@)) == Some(e@),
        },
{
    validate_string_template(id, n, "command", m.command.as_str(), outputs)?;
    let args = arg_literal_list(&m.args);
    validate_templates(id, n, "args", &args, outputs)?;
    let env = env_value_list(&m.env);
    validate_templates(id, n, "env", &env, outputs)?;
    if let Some(s) = &m.stdin {
        validate_string_template(id, n, "stdin", s.as_str(), outputs)?;
    }
    validate_templates(id, n, "modelArgs", &m.model_args, outputs)?;
    if let Some(s) = &m.session {
        let resume = arg_literal_list(&s.resume_args);
        validate_templates(id, n, "session.resumeArgs", &resume, outputs)?;
    }
    if let Some(i) = &m.interactive {
        validate_templates(id, n, "interactive.session.newArgs", &i.session.new_args, outputs)?;
        validate_templates(id, n, "interactive.session.resumeArgs", &i.session.resume_args, outputs)?;
        validate_string_template(id, n, "interactive.prompt.template", i.prompt_template.as_str(), outputs)?;
    }
    if let Some(p) = &m.custom_settings_path {
        validate_string_template(id, n, "provider.settings.path", p.as_str(), outputs)?;
    }
    assert(m.args@.skip(0) =~= m.args@);
    validate_condition_names(id, n, &m.args, 0)?;
    if let Some(s) = &m.session {
        assert(s.resume_args@.skip(0) =~= s.resume_args@);
        validate_condition_names(id, n, &s.resume_args, 0)?;
    }
    Ok(())
}

// ───────────────────────── prompt outputs ─────────────────────────

/// The prompt part key of a workspace file.
pub open spec fn part_key(key: Seq<char>) -> Seq<char> {
    "workspace_file."@ + key
}

/// The prompt part keys of workspace files, in order.
pub open spec fn file_part_keys(files: Seq<ProviderWorkspaceFileSpec>) -> Seq<Seq<char>> {
    files.map_values(|f: ProviderWorkspaceFileSpec| part_key(f.key@))
}

/// The first refused workspace file, `seen` holding the part keys of those
/// before it: an invalid spec, or a part key declared twice.
pub open spec fn files_error(id: Seq<char>, n: Seq<char>, files: Seq<ProviderWorkspaceFileSpec>, seen: Seq<Seq<char>>) -> Option<Seq<char>>
    decreases files.len(),
{
    if files.len() == 0 {
        None
    } else {
        let f = files[0];
        match workspace_file_error(f) {
            Some(e) => Some(mode_prefix(id, n) + "workspace file `"@ + f.key@ + "`: "@ + e),
            None => if seen.contains(part_key(f.key@)) {
                Some(mode_prefix(id, n) + "declares duplicate workspace prompt part `"@ + part_key(f.key@) + "`"@)
            } else {
                files_error(id, n, files.skip(1), seen.push(part_key(f.key@)))
            },
        }
    }
}

/// Why a prompt output's reference to a part is refused, if it is: the
/// part must be a runtime part or a declared workspace file part.
pub open spec fn part_ref_error(id: Seq<char>, n: Seq<char>, name: Seq<char>, key: Seq<char>, wparts: Seq<Seq<char>>) -> Option<Seq<char>> {
    if known_parts().contains(key) || wparts.contains(key) {
        None
    } else {
        Some(mode_prefix(id, n) + "prompt output `"@ + name + "` references unknown prompt part `"@ + key + "`"@)
    }
}

/// The first refused part among included or required keys (`full` is
/// always accepted there).
pub open spec fn keys_error(id: Seq<char>, n: Seq<char>, name: Seq<char>, keys: Seq<Seq<char>>, wparts: Seq<Seq<char>>) -> Option<Seq<char>>
    decreases keys.len(),
{
    if keys.len() == 0 {
        None
    } else {
        first_error(if keys[0] == "full"@ { None } else { part_ref_error(id, n, name, keys[0], wparts) },
            keys_error(id, n, name, keys.skip(1), wparts))
    }
}

/// The first refused part among a template's placeholders that name
/// prompt parts.
pub open spec fn template_parts_error(id: Seq<char>, n: Seq<char>, name: Seq<char>, keys: Seq<Seq<char>>, wparts: Seq<Seq<char>>) -> Option<Seq<char>>
    decreases keys.len(),
{
    if keys.len() == 0 {
        None
    } else {
        first_error(if part_placeholder(keys[0]) { part_ref_error(id, n, name, keys[0], wparts) } else { None },
            template_parts_error(id, n, name, keys.skip(1), wparts))
    }
}

/// Why a prompt output is refused, if it is: an unknown preset, then an
/// unknown part among its included and required parts, then among its
/// template's.
pub open spec fn output_error(id: Seq<char>, n: Seq<char>, name: Seq<char>, o: PromptOutputSpec, wparts: Seq<Seq<char>>) -> Option<Seq<char>> {
    let preset_err = match o.preset {
        Some(p) => if preset(p@) is None {
            Some(mode_prefix(id, n) + "prompt output `"@ + name + "`: "@ + "unknown prompt preset `"@ + p@ + "`"@)
        } else {
            None
        },
        None => None,
    };
    let template_err = match o.template {
        Some(t) => template_parts_error(id, n, name, placeholders(t@), wparts),
        None => None,
    };
    first_error(preset_err, first_error(keys_error(id, n, name, views(o.parts@) + views(o.required@), wparts), template_err))
}

/// The first refused prompt output, in order.
pub open spec fn outputs_error(id: Seq<char>, n: Seq<char>, outs: Seq<(String, PromptOutputSpec)>, wparts: Seq<Seq<char>>) -> Option<Seq<char>>
    decreases outs.len(),
{
    if outs.len() == 0 {
        None
    } else {
        first_error(output_error(id, n, outs[0].0@, outs[0].1, wparts), outputs_error(id, n, outs.skip(1), wparts))
    }
}

/// Why a mode's prompt configuration is refused, if it is: its workspace
/// files first, then its outputs.
pub open spec fn prompt_outputs_error(id: Seq<char>, n: Seq<char>, prompt: Option<ProviderPromptSpec>) -> Option<Seq<char>> {
    match prompt {
        None => None,
        Some(p) => first_error(files_error(id, n, p.workspace_files@, seq![]),
            outputs_error(id, n, p.outputs@, file_part_keys(p.workspace_files@))),
    }
}

fn part_key_exec(key: &str) -> (out: String)
    ensures
        out@ == part_key(key@),
{
    let mut m: Vec<char> = Vec::new();
    extend_str(&mut m, "workspace_file.");
    extend_str(&mut m, key);
    string_of(&m)
}

/// Check the workspace files of a prompt (see [`files_error`]); on
/// success, their part keys.
fn validate_files(id: &str, n: &str, files: &Vec<ProviderWorkspaceFileSpec>) -> (r: Result<Vec<String>, String>)
    ensures
        match r {
            Ok(keys) => files_error(id@, n@, files@, seq![]) is None && views(keys@) == file_part_keys(files@),
            Err(e) => files_error(id@, n@, files@, seq![]) == Some(e@),
        },
{
    let mut seen: Vec<String> = Vec::new();
    assert(files@.skip(0) =~= files@);
    assert(views(seen@) =~= seq![]);
    assert(files@.take(0).map_values(|f: ProviderWorkspaceFileSpec| part_key(f.key@)) =~= views(seen@));
    let mut i: usize = 0;
    while i < files.len()
        invariant
            i <= files.len(),
            views(seen@) == file_part_keys(files@.take(i as int)),
            files_error(id@, n@, files@.skip(i as int), views(seen@)) == files_error(id@, n@, files@, seq![]),
        decreases files.len() - i,
    {
        let ghost rest = files@.skip(i as int);
        assert(rest[0] == files@[i as int]);
        assert(rest.skip(1) =~= files@.skip(i + 1));
        let f = &files[i];
        if let Err(e) = validate_workspace_file_spec(f) {
            let mut a: Vec<char> = Vec::new();
            extend_str(&mut a, f.key.as_str());
            extend_str(&mut a, "`: ");
            extend_str(&mut a, e.as_str());
            let r = Err(mode_message(id, n, "workspace file `", &a, ""));
            proof {
                reveal_strlit("");
                assert(r->Err_0@ =~= mode_prefix(id@, n@) + "workspace file `"@ + f.key@ + "`: "@ + e@);
            }
            return r;
        }
        let k = part_key_exec(f.key.as_str());
        if contains_name(&seen, chars_of(k.as_str()).as_slice()) {
            let r = Err(mode_message(id, n, "declares duplicate workspace prompt part `", chars_of(k.as_str()).as_slice(), "`"));
            return r;
        }
        let ghost before = views(seen@);
        seen.push(k);
        assert(views(seen@) =~= before.push(part_key(f.key@)));
        assert(file_part_keys(files@.take(i + 1)) =~= file_part_keys(files@.take(i as int)).push(part_key(f.key@)));
        i += 1;
    }
    assert(files@.take(files.len() as int) =~= files@);
    assert(files@.skip(i as int).len() == 0);
    Ok(seen)
}

fn part_ref_check(id: &str, n: &str, name: &str, key: &[char], wparts: &Vec<String>) -> (r: Result<(), String>)
    ensures
        match r {
            Ok(()) => part_ref_error(id@, n@, name@, key@, views(wparts@)) is None,
            Err(e) => part_ref_error(id@, n@, name@, key@, views(wparts@)) == Some(e@),
        },
{
    if is_known_prompt_part(key) || contains_name(wparts, key) {
        return Ok(());
    }
    let mut a: Vec<char> = Vec::new();
    extend_str(&mut a, name);
    extend_str(&mut a, "` references unknown prompt part `");
    extend_chars(&mut a, key);
    let r = Err(mode_message(id, n, "prompt output `", &a, "`"));
    assert(r->Err_0@ =~= mode_prefix(id@, n@) + "prompt output `"@ + name@ + "` references unknown prompt part `"@ + key@ + "`"@);
    r
}

fn keys_check(id: &str, n: &str, name: &str, keys: &Vec<String>, wparts: &Vec<String>) -> (r: Result<(), String>)
    ensures
        match r {
            Ok(()) => keys_error(id@, n@, name@, views(keys@), views(wparts@)) is None,
            Err(e) => keys_error(id@, n@, name@, views(keys@), views(wparts@)) == Some(e@),
        },
{
    let ghost kv = views(keys@);
    assert(kv.skip(0) =~= kv);
    let mut i: usize = 0;
    while i < keys.len()
        invariant
            i <= keys.len(),
            kv == views(keys@),
            keys_error(id@, n@, name@, kv.skip(i as int), views(wparts@)) == keys_error(id@, n@, name@, kv, views(wparts@)),
        decreases keys.len() - i,
    {
        assert(kv.skip(i as int)[0] == keys@[i as int]@);
        assert(kv.skip(i as int).skip(1) =~= kv.skip(i + 1));
        let k = chars_of(keys[i].as_str());
        if !eq_str(&k, "full") {
            part_ref_check(id, n, name, &k, wparts)?;
        }
        i += 1;
    }
    assert(kv.skip(i as int).len() == 0);
    Ok(())
}

fn template_parts_check(id: &str, n: &str, name: &str, template: &str, wparts: &Vec<String>) -> (r: Result<(), String>)
    ensures
        match r {
            Ok(()) => template_parts_error(id@, n@, name@, placeholders(template@), views(wparts@)) is None,
            Err(e) => template_parts_error(id@, n@, name@, placeholders(template@), views(wparts@)) == Some(e@),
        },
{
    let keys = template_placeholders(template);
    let ghost kv = keys@.map_values(|l: Vec<char>| l@);
    assert(kv.skip(0) =~= kv);
    let mut i: usize = 0;
    while i < keys.len()
        invariant
            i <= keys.len(),
            kv == keys@.map_values(|l: Vec<char>| l@),
            kv == placeholders(template@),
            template_parts_error(id@, n@, name@, kv.skip(i as int), views(wparts@))
                == template_parts_error(id@, n@, name@, kv, views(wparts@)),
        decreases keys.len() - i,
    {
        assert(kv.skip(i as int)[0] == keys@[i as int]@);
        assert(kv.skip(i as int).skip(1) =~= kv.skip(i + 1));
        if is_prompt_part_placeholder(&keys[i]) {
            part_ref_check(id, n, name, &keys[i], wparts)?;
        }
        i += 1;
    }
    assert(kv.skip(i as int).len() == 0);
    Ok(())
}

fn concat_strings(a: &Vec<String>, b: &Vec<String>) -> (out: Vec<String>)
    ensures
        views(out@) == views(a@) + views(b@),
{
    let mut out: Vec<String> = Vec::new();
    let mut i: usize = 0;
    while i < a.len()
        invariant
            i <= a.len(),
            views(out@) == views(a@.take(i as int)),
        decreases a.len() - i,
    {
        out.push(a[i].clone());
        assert(views(a@.take(i + 1)) =~= views(a@.take(i as int)).push(a@[i as int]@));
        assert(views(out@) =~= views(a@.take(i + 1)));
        i += 1;
    }
    assert(a@.take(a.len() as int) =~= a@);
    let mut j: usize = 0;
    while j < b.len()
        invariant
            j <= b.len(),
            views(out@) == views(a@) + views(b@.take(j as int)),
        decreases b.len() - j,
    {
        let ghost before = views(out@);
        out.push(b[j].clone());
        assert(views(out@) =~= before.push(b@[j as int]@));
        assert(views(b@.take(j + 1)) =~= views(b@.take(j as int)).push(b@[j as int]@));
        assert(views(out@) =~= views(a@) + views(b@.take(j + 1)));
        j += 1;
    }
    assert(b@.take(b.len() as int) =~= b@);
    out
}

fn output_check(id: &str, n: &str, name: &str, o: &PromptOutputSpec, wparts: &Vec<String>) -> (r: Result<(), String>)
    ensures
        match r {
            Ok(()) => output_error(id@, n@, name@, *o, views(wparts@)) is None,
            Err(e) => output_error(id@, n@, name@, *o, views(wparts@)) == Some(e@),
        },
{
    if let Some(p) = &o.preset {
        if let Err(e) = preset_parts(p.as_str()) {
            let mut a: Vec<char> = Vec::new();
            extend_str(&mut a, name);
            extend_str(&mut a, "`: ");
            extend_str(&mut a, e.as_str());
            let r = Err(mode_message(id, n, "prompt output `", &a, ""));
            proof {
                reveal_strlit("");
                assert(r->Err_0@ =~= mode_prefix(id@, n@) + "prompt output `"@ + name@ + "`: "@ + "unknown prompt preset `"@ + p@ + "`"@);
            }
            return r;
        }
    }
    let keys = concat_strings(&o.parts, &o.required);
    keys_check(id, n, name, &keys, wparts)?;
    if let Some(t) = &o.template {
        template_parts_check(id, n, name, t.as_str(), wparts)?;
    }
    Ok(())
}

/// Check a mode's prompt configuration (see [`prompt_outputs_error`]).
pub fn validate_prompt_outputs(id: &str, n: &str, prompt: &Option<ProviderPromptSpec>) -> (r: Result<(), String>)
    ensures
        match r {
            Ok(()) => prompt_outputs_error(id@, n@, *prompt) is None,
            Err(e) => prompt_outputs_error(id@, n@, *prompt) == Some(e@),
        },
{
    let p = match prompt {
        None => return Ok(()),
        Some(p) => p,
    };
    let wparts = validate_files(id, n, &p.workspace_files)?;
    let ghost ov = p.outputs@;
    assert(ov.skip(0) =~= ov);
    let mut i: usize = 0;
    while i < p.outputs.len()
        invariant
            i <= p.outputs.len(),
            ov == p.outputs@,
            views(wparts@) == file_part_keys(p.workspace_files@),
            files_error(id@, n@, p.workspace_files@, seq![]) is None,
            *prompt == Some(*p),
            outputs_error(id@, n@, ov.skip(i as int), views(wparts@)) == outputs_error(id@, n@, ov, views(wparts@)),
        decreases p.outputs.len() - i,
    {
        assert(ov.skip(i as int)[0] == ov[i as int]);
        assert(ov.skip(i as int).skip(1) =~= ov.skip(i + 1));
        match output_check(id, n, p.outputs[i].0.as_str(), &p.outputs[i].1, &wparts) {
            Err(e) => {
                assert(outputs_error(id@, n@, ov.skip(i as int), views(wparts@)) == Some(e@));
                assert(outputs_error(id@, n@, ov, views(wparts@)) == Some(e@));
                assert(prompt_outputs_error(id@, n@, *prompt) == Some(e@));
                return Err(e);
            },
            Ok(()) => {},
        }
        i += 1;
    }
    assert(ov.skip(i as int).len() == 0);
    Ok(())
}

// ───────────────────────── prompt references ─────────────────────────

/// The templates whose `{prompt.NAME}` references are checked: args,
/// env values, stdin and session resume args, in that order.
pub open spec fn ref_templates(m: ProviderModeSpec) -> Seq<Seq<char>> {
    arg_literals(m.args@) + env_values(m.env@)
        + (match m.stdin { Some(s) => seq![s@], None => seq![] })
        + (match m.session { Some(s) => arg_literals(s.resume_args@), None => seq![] })
}

/// The `{prompt.NAME}` references of templates, in order.
pub open spec fn refs_of(values: Seq<Seq<char>>) -> Seq<Seq<char>>
    decreases values.len(),
{
    if values.len() == 0 {
        seq![]
    } else {
        prompt_refs(values[0]) + refs_of(values.skip(1))
    }
}

/// The first reference to a prompt output the mode does not have.
pub open spec fn refs_error(id: Seq<char>, n: Seq<char>, refs: Seq<Seq<char>>, outs: Seq<Seq<char>>) -> Option<Seq<char>>
    decreases refs.len(),
{
    if refs.len() == 0 {
        None
    } else {
        first_error(if outs.contains(refs[0]) { None } else {
            Some(mode_prefix(id, n) + "references unknown prompt output `"@ + refs[0] + "`"@)
        }, refs_error(id, n, refs.skip(1), outs))
    }
}

/// The templates that may deliver the prompt: the command, the args (or,
/// on resume, the session resume args), env values and stdin.
pub open spec fn delivery_templates(m: ProviderModeSpec, resume: bool) -> Seq<Seq<char>> {
    seq![m.command@]
        + (if resume {
            match m.session { Some(s) => arg_literals(s.resume_args@), None => seq![] }
        } else {
            arg_literals(m.args@)
        })
        + env_values(m.env@)
        + (match m.stdin { Some(s) => seq![s@], None => seq![] })
}

/// Whether some template delivers the prompt through a placeholder.
pub open spec fn templates_deliver(values: Seq<Seq<char>>) -> bool {
    exists|i: int, j: int| 0 <= i < values.len() && 0 <= j < placeholders(values[i]).len()
        && delivers_prompt(#[trigger] placeholders(values[i])[j])
}

/// Why a `command` mode is refused for not passing the prompt, if it is.
pub open spec fn delivery_error(id: Seq<char>, n: Seq<char>, m: ProviderModeSpec) -> Option<Seq<char>> {
    if m.transport@ != "command"@ {
        None
    } else if !templates_deliver(delivery_templates(m, false)) {
        Some(mode_prefix(id, n) + "must pass one prompt output through args, env, or stdin"@)
    } else if (match m.session { Some(s) => s.resume_args@.len() > 0, None => false })
        && !templates_deliver(delivery_templates(m, true)) {
        Some(mode_prefix(id, n) + "session resumeArgs must pass one prompt output"@)
    } else {
        None
    }
}

/// Why a mode's prompt wiring is refused, if it is: its prompt outputs,
/// its template variables, its session spec, a reference to a prompt
/// output it does not have (the first, in template order), and for a
/// `command` mode the prompt delivery.
pub open spec fn prompt_references_error(id: Seq<char>, n: Seq<char>, m: ProviderModeSpec) -> Option<Seq<char>> {
    let outs = output_names(m.prompt);
    first_error(prompt_outputs_error(id, n, m.prompt),
    first_error(template_vars_error(id, n, m, outs),
    first_error(session_spec_error(id, n, m),
    first_error(refs_error(id, n, refs_of(ref_templates(m)), outs),
        delivery_error(id, n, m)))))
}

fn push_all(out: &mut Vec<String>, v: &Vec<String>)
    ensures
        views(final(out)@) == views(old(out)@) + views(v@),
{
    let ghost start = views(out@);
    let mut i: usize = 0;
    while i < v.len()
        invariant
            i <= v.len(),
            views(out@) == start + views(v@.take(i as int)),
        decreases v.len() - i,
    {
        let ghost before = views(out@);
        out.push(v[i].clone());
        assert(views(out@) =~= before.push(v@[i as int]@));
        assert(views(v@.take(i + 1)) =~= views(v@.take(i as int)).push(v@[i as int]@));
        i += 1;
    }
    assert(v@.take(v.len() as int) =~= v@);
}

fn ref_template_list(m: &ProviderModeSpec) -> (out: Vec<String>)
    ensures
        views(out@) == ref_templates(*m),
{
    let mut out = arg_literal_list(&m.args);
    push_all(&mut out, &env_value_list(&m.env));
    let ghost a = views(out@);
    if let Some(s) = &m.stdin {
        out.push(s.clone());
        assert(views(out@) =~= a + seq![s@]);
    } else {
        assert(views(out@) =~= a + Seq::<Seq<char>>::empty());
    }
    let ghost b = views(out@);
    if let Some(s) = &m.session {
        push_all(&mut out, &arg_literal_list(&s.resume_args));
    } else {
        assert(views(out@) =~= b + Seq::<Seq<char>>::empty());
    }
    out
}

fn delivery_template_list(m: &ProviderModeSpec, resume: bool) -> (out: Vec<String>)
    ensures
        views(out@) == delivery_templates(*m, resume),
{
    let mut out: Vec<String> = Vec::new();
    out.push(m.command.clone());
    assert(views(out@) =~= seq![m.command@]);
    if resume {
        if let Some(s) = &m.session {
            push_all(&mut out, &arg_literal_list(&s.resume_args));
        } else {
            assert(views(out@) =~= seq![m.command@] + Seq::<Seq<char>>::empty());
        }
    } else {
        push_all(&mut out, &arg_literal_list(&m.args));
    }
    push_all(&mut out, &env_value_list(&m.env));
    let ghost a = views(out@);
    if let Some(s) = &m.stdin {
        out.push(s.clone());
        assert(views(out@) =~= a + seq![s@]);
    } else {
        assert(views(out@) =~= a + Seq::<Seq<char>>::empty());
    }
    out
}

fn deliver_check(v: &Vec<String>) -> (b: bool)
    ensures
        b == templates_deliver(views(v@)),
{
    let b = string_args_have_prompt_reference(v);
    proof {
        let vv = views(v@);
        if b {
            let (i, j) = choose|i: int, j: int| 0 <= i < v@.len() && 0 <= j < placeholders(v@[i]@).len()
                && delivers_prompt(#[trigger] placeholders(v@[i]@)[j]);
            assert(vv[i] == v@[i]@);
            assert(delivers_prompt(placeholders(vv[i])[j]));
        }
        if templates_deliver(vv) {
            let (i, j) = choose|i: int, j: int| 0 <= i < vv.len() && 0 <= j < placeholders(vv[i]).len()
                && delivers_prompt(#[trigger] placeholders(vv[i])[j]);
            assert(vv[i] == v@[i]@);
            assert(delivers_prompt(placeholders(v@[i]@)[j]));
        }
    }
    b
}

fn refs_list(values: &Vec<String>) -> (out: Vec<String>)
    ensures
        views(out@) == refs_of(views(values@)),
{
    let ghost vv = views(values@);
    let mut out: Vec<String> = Vec::new();
    let mut k: usize = 0;
    assert(vv.skip(0) =~= vv);
    assert(views(out@) =~= seq![]);
    while k < values.len()
        invariant
            k <= values.len(),
            vv == views(values@),
            views(out@) + refs_of(vv.skip(k as int)) == refs_of(vv),
        decreases values.len() - k,
    {
        let ghost before = views(out@);
        assert(vv.skip(k as int)[0] == values@[k as int]@);
        assert(vv.skip(k as int).skip(1) =~= vv.skip(k + 1));
        collect_prompt_refs(values[k].as_str(), &mut out);
        assert(views(out@) + refs_of(vv.skip(k + 1)) =~= before + refs_of(vv.skip(k as int)));
        k += 1;
    }
    assert(vv.skip(k as int).len() == 0);
    assert(views(out@) + refs_of(vv.skip(k as int)) =~= views(out@));
    out
}

/// Check a mode's prompt wiring (see [`prompt_references_error`]).
pub fn validate_prompt_references(id: &str, n: &str, m: &ProviderModeSpec) -> (r: Result<(), String>)
    ensures
        match r {
            Ok(()) => prompt_references_error(id@, n@, *m) is None,
            Err(e) => prompt_references_error(id@, n@, *m) == Some(e@),
        },
{
    let outputs = prompt_output_names(&m.prompt);
    validate_prompt_outputs(id, n, &m.prompt)?;
    validate_template_variables(id, n, m, &outputs)?;
    validate_session_spec(id, n, m)?;
    let refs = refs_list(&ref_template_list(m));
    let ghost rv = views(refs@);
    assert(rv.skip(0) =~= rv);
    let mut i: usize = 0;
    while i < refs.len()
        invariant
            i <= refs.len(),
            rv == views(refs@),
            rv == refs_of(ref_templates(*m)),
            views(outputs@) == output_names(m.prompt),
            prompt_outputs_error(id@, n@, m.prompt) is None,
            template_vars_error(id@, n@, *m, views(outputs@)) is None,
            session_spec_error(id@, n@, *m) is None,
            refs_error(id@, n@, rv.skip(i as int), views(outputs@)) == refs_error(id@, n@, rv, views(outputs@)),
        decreases refs.len() - i,
    {
        assert(rv.skip(i as int)[0] == refs@[i as int]@);
        assert(rv.skip(i as int).skip(1) =~= rv.skip(i + 1));
        let name = chars_of(refs[i].as_str());
        if !contains_name(&outputs, &name) {
            let r = Err(mode_message(id, n, "references unknown prompt output `", &name, "`"));
            assert(refs_error(id@, n@, rv.skip(i as int), views(outputs@)) == Some(r->Err_0@));
            return r;
        }
        i += 1;
    }
    assert(rv.skip(i as int).len() == 0);
    proof {
        reveal_strlit("");
    }
    if eq_str(&chars_of(m.transport.as_str()), "command") {
        if !deliver_check(&delivery_template_list(m, false)) {
            let r = Err(mode_message(id, n, "must pass one prompt output through args, env, or stdin", &[], ""));
            assert(r->Err_0@ =~= mode_prefix(id@, n@) + "must pass one prompt output through args, env, or stdin"@);
            return r;
        }
        let resumes = match &m.session {
            Some(s) => s.resume_args.len() > 0,
            None => false,
        };
        if resumes && !deliver_check(&delivery_template_list(m, true)) {
            let r = Err(mode_message(id, n, "session resumeArgs must pass one prompt output", &[], ""));
            assert(r->Err_0@ =~= mode_prefix(id@, n@) + "session resumeArgs must pass one prompt output"@);
            return r;
        }
    }
    Ok(())
}

// ───────────────────────── modes and manifests ─────────────────────────

/// Why a mode is refused, if it is, in the order of the checks: a blank
/// transport or command, the command, the stdout and stderr decoders, the
/// prompt wiring, the interactive configuration. `explicit_path` says
/// whether the command is an explicit path.
pub open spec fn mode_error(id: Seq<char>, candidates: Seq<String>, n: Seq<char>, m: ProviderModeSpec,
    explicit_path: bool) -> Option<Seq<char>> {
    if trim(m.transport@).len() == 0 {
        Some(mode_prefix(id, n) + "has empty transport"@)
    } else if trim(m.command@).len() == 0 {
        Some(mode_prefix(id, n) + "has empty command"@)
    } else {
        first_error(mode_command_error(id, n, m.command@, candidates, explicit_path),
        first_error(decoder_error(id, n, "stdout"@, m.stdout),
        first_error(match m.stderr { Some(d) => decoder_error(id, n, "stderr"@, d), None => None },
        first_error(prompt_references_error(id, n, m),
            interactive_error(id, n, m)))))
    }
}

/// The first refused mode, in order; `explicit` says of each mode whether
/// its command is an explicit path.
pub open spec fn modes_error(id: Seq<char>, candidates: Seq<String>, modes: Seq<(String, ProviderModeSpec)>,
    explicit: Seq<bool>) -> Option<Seq<char>>
    decreases modes.len(),
{
    if modes.len() == 0 {
        None
    } else {
        first_error(mode_error(id, candidates, modes[0].0@, modes[0].1, explicit[0]),
            modes_error(id, candidates, modes.skip(1), explicit.skip(1)))
    }
}

/// Why a manifest is refused, if it is: an unsupported schema version, a
/// blank or malformed id, no modes, or the first refused mode.
pub open spec fn manifest_error(m: ProviderManifest, explicit: Seq<bool>) -> Option<Seq<char>> {
    if m.schema_version != 1 {
        Some("provider `"@ + m.id@ + "` uses unsupported schemaVersion "@ + decimal(m.schema_version as nat))
    } else if trim(m.id@).len() == 0 {
        Some("provider id is required"@)
    } else if provider_id_error(m.id@) is Some {
        provider_id_error(m.id@)
    } else if m.modes@.len() == 0 {
        Some("provider `"@ + m.id@ + "` must define at least one mode"@)
    } else {
        modes_error(m.id@, m.detect.candidates@, m.modes@, explicit)
    }
}

/// A command that no platform splits into several path components: it has
/// no `/`, `\` or `:`.
pub open spec fn plain_command(command: Seq<char>) -> bool {
    !(trim(command).contains('/') || trim(command).contains('\\') || trim(command).contains(':'))
}

/// Check one mode (see [`mode_error`]); whether its command is an
/// explicit path is decided by the platform's path rules.
pub fn validate_mode(id: &str, candidates: &Vec<String>, n: &str, m: &ProviderModeSpec) -> (r: Result<(), String>)
    ensures
        exists|explicit: bool| (plain_command(m.command@) ==> !explicit)
            && match r {
                Ok(()) => mode_error(id@, candidates@, n@, *m, explicit) is None,
                Err(e) => mode_error(id@, candidates@, n@, *m, explicit) == Some(e@),
            },
{
    proof {
        reveal_strlit("");
    }
    if is_blank(&chars_of(m.transport.as_str())) {
        let r = Err(mode_message(id, n, "has empty transport", &[], ""));
        assert(r->Err_0@ =~= mode_prefix(id@, n@) + "has empty transport"@);
        assert(mode_error(id@, candidates@, n@, *m, false) == Some(r->Err_0@));
        return r;
    }
    if is_blank(&chars_of(m.command.as_str())) {
        let r = Err(mode_message(id, n, "has empty command", &[], ""));
        assert(r->Err_0@ =~= mode_prefix(id@, n@) + "has empty command"@);
        assert(mode_error(id@, candidates@, n@, *m, false) == Some(r->Err_0@));
        return r;
    }
    let c = validate_mode_command(id, n, m.command.as_str(), candidates);
    let ghost explicit = choose|explicit: bool| (plain_command(m.command@) ==> !explicit)
        && match c {
            Ok(()) => mode_command_error(id@, n@, m.command@, candidates@, explicit) is None,
            Err(e) => mode_command_error(id@, n@, m.command@, candidates@, explicit) == Some(e@),
        };
    if let Err(e) = c {
        assert(mode_error(id@, candidates@, n@, *m, explicit) == Some(e@));
        return Err(e);
    }
    let rest = validate_mode_rest(id, n, m);
    assert(match rest {
        Ok(()) => mode_error(id@, candidates@, n@, *m, explicit) is None,
        Err(e) => mode_error(id@, candidates@, n@, *m, explicit) == Some(e@),
    });
    rest
}

/// The checks of a mode after its command.
fn validate_mode_rest(id: &str, n: &str, m: &ProviderModeSpec) -> (r: Result<(), String>)
    ensures
        match r {
            Ok(()) => first_error(decoder_error(id@, n@, "stdout"@, m.stdout),
                first_error(match m.stderr { Some(d) => decoder_error(id@, n@, "stderr"@, d), None => None },
                first_error(prompt_references_error(id@, n@, *m), interactive_error(id@, n@, *m)))) is None,
            Err(e) => first_error(decoder_error(id@, n@, "stdout"@, m.stdout),
                first_error(match m.stderr { Some(d) => decoder_error(id@, n@, "stderr"@, d), None => None },
                first_error(prompt_references_error(id@, n@, *m), interactive_error(id@, n@, *m)))) == Some(e@),
        },
{
    validate_decoder_spec(id, n, "stdout", &m.stdout)?;
    if let Some(d) = &m.stderr {
        validate_decoder_spec(id, n, "stderr", d)?;
    }
    validate_prompt_references(id, n, m)?;
    validate_interactive_mode(id, n, m)?;
    Ok(())
}

/// Check a provider manifest (see [`manifest_error`]); whether a mode's
/// command is an explicit path is decided by the platform's path rules.
pub fn validate_manifest(man: &ProviderManifest) -> (r: Result<(), String>)
    ensures
        exists|explicit: Seq<bool>| explicit.len() == man.modes@.len()
            && (forall|i: int| 0 <= i < explicit.len() && plain_command((#[trigger] man.modes@[i]).1.command@) ==> !explicit[i])
            && match r {
                Ok(()) => manifest_error(*man, explicit) is None,
                Err(e) => manifest_error(*man, explicit) == Some(e@),
            },
{
    let ghost none = Seq::new(man.modes@.len(), |i: int| false);
    if man.schema_version != 1 {
        let mut m: Vec<char> = Vec::new();
        extend_str(&mut m, "provider `");
        extend_str(&mut m, man.id.as_str());
        extend_str(&mut m, "` uses unsupported schemaVersion ");
        push_decimal(&mut m, man.schema_version as u64);
        let r = Err(string_of(&m));
        assert(manifest_error(*man, none) == Some(r->Err_0@));
        return r;
    }
    if is_blank(&chars_of(man.id.as_str())) {
        let r = Err("provider id is required".to_owned());
        assert(manifest_error(*man, none) == Some(r->Err_0@));
        return r;
    }
    if let Err(e) = validate_provider_id(man.id.as_str()) {
        assert(manifest_error(*man, none) == Some(e@));
        return Err(e);
    }
    if man.modes.len() == 0 {
        let mut m: Vec<char> = Vec::new();
        extend_str(&mut m, "provider `");
        extend_str(&mut m, man.id.as_str());
        extend_str(&mut m, "` must define at least one mode");
        let r = Err(string_of(&m));
        assert(manifest_error(*man, none) == Some(r->Err_0@));
        return r;
    }
    let ghost modes = man.modes@;
    let ghost mut ex: Seq<bool> = Seq::empty();
    assert(modes.skip(0) =~= modes);
    let mut i: usize = 0;
    while i < man.modes.len()
        invariant
            i <= man.modes.len(),
            modes == man.modes@,
            ex.len() == i,
            forall|k: int| 0 <= k < i && plain_command((#[trigger] modes[k]).1.command@) ==> !ex[k],
            man.schema_version == 1,
            trim(man.id@).len() != 0,
            provider_id_error(man.id@) is None,
            modes.len() != 0,
            forall|tail: Seq<bool>| tail.len() == modes.len() - i ==>
                #[trigger] modes_error(man.id@, man.detect.candidates@, modes.skip(i as int), tail)
                    == modes_error(man.id@, man.detect.candidates@, modes, ex + tail),
        decreases man.modes.len() - i,
    {
        let c = validate_mode(man.id.as_str(), &man.detect.candidates, man.modes[i].0.as_str(), &man.modes[i].1);
        let ghost e = choose|explicit: bool| (plain_command(modes[i as int].1.command@) ==> !explicit)
            && match c {
                Ok(()) => mode_error(man.id@, man.detect.candidates@, modes[i as int].0@, modes[i as int].1, explicit) is None,
                Err(er) => mode_error(man.id@, man.detect.candidates@, modes[i as int].0@, modes[i as int].1, explicit) == Some(er@),
            };
        proof {
            assert(modes.skip(i as int)[0] == modes[i as int]);
            assert(modes.skip(i as int).skip(1) =~= modes.skip(i + 1));
        }
        if let Err(er) = c {
            proof {
                let full = ex.push(e) + Seq::new((modes.len() - i - 1) as nat, |k: int| false);
                let t2 = seq![e] + Seq::new((modes.len() - i - 1) as nat, |k: int| false);
                assert(ex + t2 =~= full);
                assert(modes_error(man.id@, man.detect.candidates@, modes.skip(i as int), t2) == Some(er@));
                assert(manifest_error(*man, full) == Some(er@));
                assert forall|k: int| 0 <= k < full.len() && plain_command((#[trigger] man.modes@[k]).1.command@) implies !full[k] by {
                    if k < i {
                        assert(full[k] == ex[k]);
                    }
                }
            }
            return Err(er);
        }
        proof {
            assert forall|tail: Seq<bool>| tail.len() == modes.len() - (i + 1) implies
                #[trigger] modes_error(man.id@, man.detect.candidates@, modes.skip(i + 1), tail)
                    == modes_error(man.id@, man.detect.candidates@, modes, ex.push(e) + tail) by {
                let t2 = seq![e] + tail;
                assert(t2.skip(1) =~= tail);
                assert(t2[0] == e);
                assert(ex + t2 =~= ex.push(e) + tail);
                assert(modes_error(man.id@, man.detect.candidates@, modes.skip(i as int), t2)
                    == modes_error(man.id@, man.detect.candidates@, modes, ex + t2));
            }
        }
        proof {
            ex = ex.push(e);
        }
        i += 1;
    }
    proof {
        assert(modes.skip(i as int).len() == 0);
        assert(ex + Seq::<bool>::empty() =~= ex);
        assert(modes_error(man.id@, man.detect.candidates@, modes.skip(i as int), Seq::<bool>::empty()) is None);
        assert(manifest_error(*man, ex) is None);
    }
    Ok(())
}

} // verus!
