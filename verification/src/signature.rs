//! Command signatures: a SHA-256 over the parts of a provider command that
//! decide whether a saved session can be resumed. A changed template, model
//! or reasoning effort gives a different signature and a fresh session.

use sha2::Digest;
use vstd::prelude::*;

use crate::argv::{map_get, map_lookup};
use crate::text::{chars_of, extend_str, is_blank, string_of, trim, trim_chars};

verus! {

/// The UTF-8 encoding of one character.
pub open spec fn utf8_char(c: char) -> Seq<u8> {
    let u = c as u32 as int;
    if u < 0x80 {
        seq![u as u8]
    } else if u < 0x800 {
        seq![(0xC0 + u / 64) as u8, (0x80 + u % 64) as u8]
    } else if u < 0x10000 {
        seq![(0xE0 + u / 4096) as u8, (0x80 + (u / 64) % 64) as u8, (0x80 + u % 64) as u8]
    } else {
        seq![(0xF0 + u / 262144) as u8, (0x80 + (u / 4096) % 64) as u8, (0x80 + (u / 64) % 64) as u8,
            (0x80 + u % 64) as u8]
    }
}

/// The UTF-8 encoding of a string, as `str::as_bytes` gives it.
pub open spec fn utf8(s: Seq<char>) -> Seq<u8>
    decreases s.len(),
{
    if s.len() == 0 { seq![] } else { utf8(s.drop_last()) + utf8_char(s.last()) }
}

/// The lowercase hexadecimal digit for `d < 16`.
pub open spec fn hex_digit(d: nat) -> char {
    if d < 10 { (('0' as u32) + d) as char } else { (('a' as u32) + (d - 10)) as char }
}

/// Lowercase hexadecimal text of bytes, two digits per byte.
pub open spec fn hex_text(b: Seq<u8>) -> Seq<char>
    decreases b.len(),
{
    if b.len() == 0 {
        seq![]
    } else {
        hex_text(b.drop_last()) + seq![hex_digit((b.last() / 16) as nat), hex_digit((b.last() % 16) as nat)]
    }
}

/// The SHA-256 digest of `b`.
pub uninterp spec fn sha256(b: Seq<u8>) -> Seq<u8>;

/// Calls `str::as_bytes`: the UTF-8 encoding of `s`.
#[verifier::external_body]
pub(crate) fn str_bytes(s: &str) -> (b: Vec<u8>)
    ensures
        b@ == utf8(s@),
{
    s.as_bytes().to_vec()
}

/// Calls `sha2::Sha256::digest`; the contract names the digest (`sha256`)
/// and gives its length, 32 bytes.
#[verifier::external_body]
fn sha256_digest(b: &[u8]) -> (d: Vec<u8>)
    ensures
        d@ == sha256(b@),
        d@.len() == 32,
{
    sha2::Sha256::digest(b).to_vec()
}

/// Calls `hex::encode`, which writes each byte as two lowercase hex digits.
#[verifier::external_body]
fn hex_encode(b: &[u8]) -> (s: String)
    ensures
        s@ == hex_text(b@),
{
    hex::encode(b)
}

/// `sha256:` and the lowercase hex SHA-256 of `b`.
pub open spec fn signature_of(b: Seq<u8>) -> Seq<char> {
    "sha256:"@ + hex_text(sha256(b))
}

/// A lowercase hexadecimal digit.
pub open spec fn is_lower_hex(c: char) -> bool {
    ('0' <= c && c <= '9') || ('a' <= c && c <= 'f')
}

/// The shape of a signature: `sha256:` and 64 lowercase hex digits.
pub open spec fn is_signature_text(s: Seq<char>) -> bool {
    &&& s.len() == 71
    &&& s.take(7) == "sha256:"@
    &&& forall|i: int| 7 <= i < 71 ==> is_lower_hex(#[trigger] s[i])
}

/// Hex text has two lowercase hex digits per byte.
pub proof fn lemma_hex_text(b: Seq<u8>)
    ensures
        hex_text(b).len() == 2 * b.len(),
        forall|i: int| 0 <= i < hex_text(b).len() ==> is_lower_hex(#[trigger] hex_text(b)[i]),
    decreases b.len(),
{
    if b.len() > 0 {
        lemma_hex_text(b.drop_last());
        let hi = (b.last() / 16) as nat;
        let lo = (b.last() % 16) as nat;
        assert(is_lower_hex(hex_digit(hi)) && is_lower_hex(hex_digit(lo)));
        let h = hex_text(b);
        let p = hex_text(b.drop_last());
        assert forall|i: int| 0 <= i < h.len() implies is_lower_hex(#[trigger] h[i]) by {
            if i < p.len() {
                assert(h[i] == p[i]);
            }
        }
    }
}

/// Law: a signature is `sha256:` and 64 lowercase hex digits whenever the
/// digest has its 32 bytes.
pub proof fn law_signature_shape(b: Seq<u8>)
    requires
        sha256(b).len() == 32,
    ensures
        is_signature_text(signature_of(b)),
{
    lemma_hex_text(sha256(b));
    reveal_strlit("sha256:");
    let s = signature_of(b);
    assert(s.take(7) =~= "sha256:"@);
    assert forall|i: int| 7 <= i < 71 implies is_lower_hex(#[trigger] s[i]) by {
        assert(s[i] == hex_text(sha256(b))[i - 7]);
    }
}

/// A tag byte string `\0tag\0`.
pub open spec fn tag(t: Seq<char>) -> Seq<u8> {
    seq![0u8] + utf8(t) + seq![0u8]
}

/// Each string preceded by the tag.
pub open spec fn tagged(t: Seq<char>, items: Seq<String>) -> Seq<u8>
    decreases items.len(),
{
    if items.len() == 0 { seq![] } else { tagged(t, items.drop_last()) + tag(t) + utf8(items.last()@) }
}

/// The session settings that enter a command signature.
#[derive(Debug, Clone)]
pub struct SessionSignature {
    /// Configured session scope; blank means `actor_scope`.
    pub scope: Option<String>,
    pub resume_args: Option<Vec<String>>,
    /// JSON of the resume argument specs; `None` when there are none.
    pub resume_arg_specs_json: Option<Vec<u8>>,
}

/// The effective session scope name.
pub open spec fn effective_scope(scope: Option<String>) -> Seq<char> {
    match scope {
        Some(s) => if trim(s@).len() != 0 { trim(s@) } else { "actor_scope"@ },
        None => "actor_scope"@,
    }
}

/// The bytes hashed for a command configuration: the command, its
/// arguments (or the JSON of its argument specs), model arguments, and the
/// session scope and resume arguments (or their specs' JSON).
pub open spec fn config_bytes(command: Seq<char>, args: Seq<String>, arg_specs_json: Option<Seq<u8>>,
    model_args: Seq<String>, session: Option<SessionSignature>) -> Seq<u8>
{
    let head = utf8(command) + match arg_specs_json {
        None => tagged("arg"@, args),
        Some(j) => tag("arg_specs"@) + j,
    } + tagged("model_arg"@, model_args);
    match session {
        None => head,
        Some(s) => {
            let sc = effective_scope(s.scope);
            head + (if sc != "actor_scope"@ { tag("session_scope"@) + utf8(sc) } else { seq![] })
                + match s.resume_arg_specs_json {
                    None => match s.resume_args { Some(r) => tagged("resume_arg"@, r@), None => seq![] },
                    Some(j) => tag("resume_arg_specs"@) + j@,
                }
        },
    }
}

pub(crate) fn push_bytes(out: &mut Vec<u8>, b: &[u8])
    ensures
        final(out)@ == old(out)@ + b@,
{
    let mut i: usize = 0;
    let ghost o = out@;
    while i < b.len()
        invariant
            i <= b.len(),
            out@ == o + b@.take(i as int),
        decreases b.len() - i,
    {
        out.push(b[i]);
        i += 1;
        assert(out@ =~= o + b@.take(i as int));
    }
    assert(b@.take(b.len() as int) =~= b@);
}

pub(crate) fn push_str(out: &mut Vec<u8>, s: &str)
    ensures
        final(out)@ == old(out)@ + utf8(s@),
{
    let b = str_bytes(s);
    push_bytes(out, &b);
}

pub(crate) fn push_tag(out: &mut Vec<u8>, t: &str)
    ensures
        final(out)@ == old(out)@ + tag(t@),
{
    let ghost o = out@;
    out.push(0u8);
    push_str(out, t);
    out.push(0u8);
    assert(out@ =~= o + tag(t@));
}

pub(crate) fn push_tagged(out: &mut Vec<u8>, t: &str, items: &Vec<String>)
    ensures
        final(out)@ == old(out)@ + tagged(t@, items@),
{
    let ghost o = out@;
    let mut i: usize = 0;
    assert(items@.take(0) =~= Seq::<String>::empty());
    assert(out@ =~= o + tagged(t@, items@.take(0)));
    while i < items.len()
        invariant
            i <= items.len(),
            out@ == o + tagged(t@, items@.take(i as int)),
        decreases items.len() - i,
    {
        push_tag(out, t);
        push_str(out, items[i].as_str());
        proof {
            assert(items@.take(i + 1).drop_last() =~= items@.take(i as int));
        }
        i += 1;
        assert(out@ =~= o + tagged(t@, items@.take(i as int)));
    }
    assert(items@.take(items.len() as int) =~= items@);
}

/// `sha256:` and the hex digest of `b`.
pub(crate) fn signature(b: &Vec<u8>) -> (s: String)
    ensures
        s@ == signature_of(b@),
        is_signature_text(s@),
{
    let d = sha256_digest(b);
    proof {
        law_signature_shape(b@);
    }
    let h = hex_encode(&d);
    let mut out: Vec<char> = Vec::new();
    extend_str(&mut out, "sha256:");
    crate::text::extend_str(&mut out, h.as_str());
    string_of(&out)
}

/// Law: two configurations that agree on the command, the arguments (or
/// their specs' JSON), the model arguments, the effective session scope
/// (absent, blank and `actor_scope` are one) and the resume arguments (or
/// their specs' JSON) have the same signature, whatever else differs.
pub proof fn law_signature_of_equal_parts(command: Seq<char>, args: Seq<String>, arg_specs_json: Option<Seq<u8>>,
    model_args: Seq<String>, s1: SessionSignature, s2: SessionSignature)
    requires
        effective_scope(s1.scope) == effective_scope(s2.scope),
        match (s1.resume_arg_specs_json, s2.resume_arg_specs_json) {
            (Some(a), Some(b)) => a@ == b@,
            (None, None) => match (s1.resume_args, s2.resume_args) {
                (Some(a), Some(b)) => a@ == b@,
                (None, None) => true,
                _ => false,
            },
            _ => false,
        },
    ensures
        signature_of(config_bytes(command, args, arg_specs_json, model_args, Some(s1)))
            == signature_of(config_bytes(command, args, arg_specs_json, model_args, Some(s2))),
{
    assert(config_bytes(command, args, arg_specs_json, model_args, Some(s1))
        =~= config_bytes(command, args, arg_specs_json, model_args, Some(s2)));
}

/// The signature of a command configuration. `arg_specs_json` is the JSON
/// of the argument specs, `None` when there are none.
pub fn command_signature(command: &str, args: &Vec<String>, arg_specs_json: Option<&Vec<u8>>,
    model_args: &Vec<String>, session: Option<&SessionSignature>) -> (s: String)
    ensures
        s@ == signature_of(config_bytes(command@, args@, match arg_specs_json { Some(j) => Some(j@), None => None },
            model_args@, match session { Some(x) => Some(*x), None => None })),
        is_signature_text(s@),
{
    let mut b: Vec<u8> = Vec::new();
    push_str(&mut b, command);
    match arg_specs_json {
        None => push_tagged(&mut b, "arg", args),
        Some(j) => {
            push_tag(&mut b, "arg_specs");
            push_bytes(&mut b, j);
        },
    }
    push_tagged(&mut b, "model_arg", model_args);
    if let Some(s) = session {
        let sc: Vec<char> = match &s.scope {
            Some(x) => {
                let t = trim_chars(&chars_of(x.as_str()));
                if t.len() != 0 { t } else { chars_of("actor_scope") }
            },
            None => chars_of("actor_scope"),
        };
        if !crate::text::eq_str(&sc, "actor_scope") {
            push_tag(&mut b, "session_scope");
            let scs = string_of(&sc);
            push_str(&mut b, scs.as_str());
        }
        match &s.resume_arg_specs_json {
            None => {
                if let Some(r) = &s.resume_args {
                    push_tagged(&mut b, "resume_arg", r);
                }
            },
            Some(j) => {
                push_tag(&mut b, "resume_arg_specs");
                push_bytes(&mut b, j);
            },
        }
    }
    proof {
        let aj = match arg_specs_json { Some(j) => Some(j@), None => None };
        let ss = match session { Some(x) => Some(*x), None => None };
        assert(b@ =~= config_bytes(command@, args@, aj, model_args@, ss));
    }
    signature(&b)
}

/// The reasoning effort a turn asks for, trimmed, unless blank.
pub open spec fn reasoning_effort_of(vars: Seq<(String, String)>) -> Option<Seq<char>> {
    let v = match map_get(vars, "reasoningEffort"@) {
        Some(x) => Some(x),
        None => map_get(vars, "reasoning_effort"@),
    };
    match v {
        Some(x) => if trim(x).len() != 0 { Some(trim(x)) } else { None },
        None => None,
    }
}

/// The signature for one turn: the configuration's signature, extended by
/// the selected model and reasoning effort when there are any.
pub open spec fn prompt_signature(base: Seq<char>, model: Option<Seq<char>>, effort: Option<Seq<char>>) -> Seq<char> {
    if model is None && effort is None {
        base
    } else {
        signature_of(utf8(base)
            + (match model { Some(m) => tag("model"@) + utf8(m), None => seq![] })
            + (match effort { Some(e) => tag("reasoning_effort"@) + utf8(e), None => seq![] }))
    }
}

/// The signature a turn's session is saved and resumed under.
pub fn command_signature_for_prompt(base: &str, req: &crate::argv::AdapterPrompt) -> (s: String)
    ensures
        s@ == prompt_signature(base@, crate::argv::active_model_of(req.model), reasoning_effort_of(req.template_vars@)),
{
    let model = crate::argv::active_model(req);
    let v = match map_lookup(&req.template_vars, "reasoningEffort") {
        Some(x) => Some(x),
        None => map_lookup(&req.template_vars, "reasoning_effort"),
    };
    let effort: Option<String> = match v {
        Some(x) => {
            let t = trim_chars(&chars_of(x.as_str()));
            if t.len() != 0 { Some(string_of(&t)) } else { None }
        },
        None => None,
    };
    if model.is_none() && effort.is_none() {
        return base.to_owned();
    }
    let mut b: Vec<u8> = Vec::new();
    push_str(&mut b, base);
    if let Some(m) = &model {
        push_tag(&mut b, "model");
        push_str(&mut b, m.as_str());
    }
    if let Some(e) = &effort {
        push_tag(&mut b, "reasoning_effort");
        push_str(&mut b, e.as_str());
    }
    proof {
        let mo = crate::argv::active_model_of(req.model);
        let eo = reasoning_effort_of(req.template_vars@);
        assert(crate::server_url::opt_view(model) == mo);
        assert(crate::server_url::opt_view(effort) == eo);
        assert(b@ =~= utf8(base@)
            + (match mo { Some(m) => tag("model"@) + utf8(m), None => seq![] })
            + (match eo { Some(e) => tag("reasoning_effort"@) + utf8(e), None => seq![] }));
    }
    signature(&b)
}

} // verus!
