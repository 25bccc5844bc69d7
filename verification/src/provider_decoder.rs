//! Manifest-driven decoders: the runtime events a provider manifest maps
//! each output line to, and the reducers that pick a run's final text or
//! session id out of its output.
//!
//! The caller parses output lines as JSON (`values` are the lines that
//! parse, in order; for a `json` decoder, the whole output parsed once).

use vstd::prelude::*;

use crate::command::{non_blank, non_blank_text};
use crate::decode::{EventView, ProviderRuntimeEvent};
use crate::json::{
    condition_holds, json_clone, json_condition_matches, json_path_lookup, json_path_lookup_strings,
    json_path_lookup_value, json_same, path_values, texts, JsonCondition, JsonValue,
};
use crate::outcome::CommandOutputFormat;
use crate::provider::{json_path_error, validate_json_path_syntax};
use crate::text::{chars_of, decimal, eq_str, extend_chars, extend_str, push_decimal, string_of, trim, trim_chars, views};

verus! {

// ───────────────────────── specs ─────────────────────────

/// A reducer of output values to one text.
#[derive(Debug)]
pub struct ProviderJsonlTextReducerSpec {
    /// `lastNonEmpty` (the default), `firstNonEmpty` or `concat` (also
    /// written `last_non_empty`, `first_non_empty`, `joinText`, `join_text`).
    pub mode: String,
    /// The JSON path of the texts.
    pub path: String,
    /// Only values meeting this condition count.
    pub when: Option<JsonCondition>,
    /// Tried when this reducer finds nothing.
    pub fallback: Option<Box<ProviderJsonlTextReducerSpec>>,
}

/// The event a decoder rule emits.
#[derive(Debug)]
pub struct ProviderDecoderEmitSpec {
    /// `text`, `tool_use` (`toolUse`, `tool`), `status`, `error` or
    /// `finish` (`finished`).
    pub emit_type: String,
    /// Templates: a JSON path (starting `$` or `.`) or a literal.
    pub text: Option<String>,
    pub tool_name: Option<String>,
    pub input: Option<String>,
    /// The `input` template parsed as JSON, where it parses.
    pub input_literal: Option<JsonValue>,
    pub status: Option<String>,
    pub message: Option<String>,
    pub summary: Option<String>,
    pub partial: Option<bool>,
    pub success: Option<bool>,
}

/// A decoder rule: when the condition holds of a line, emit the event.
#[derive(Debug)]
pub struct ProviderDecoderEventSpec {
    pub when: Option<JsonCondition>,
    pub emit: ProviderDecoderEmitSpec,
}

/// The final-text reducer of a decoder.
#[derive(Debug)]
pub struct ProviderJsonlReduceSpec {
    pub final_text: Option<ProviderJsonlTextReducerSpec>,
}

/// The session-id reducer of a decoder.
#[derive(Debug)]
pub struct ProviderDecoderCaptureSpec {
    pub session: Option<ProviderJsonlTextReducerSpec>,
}

/// A provider output decoder.
#[derive(Debug)]
pub struct ProviderDecoderSpec {
    /// `jsonl` or `json` (or `builtin` with a `name`).
    pub format: String,
    pub name: Option<String>,
    pub events: Vec<ProviderDecoderEventSpec>,
    pub reduce: Option<ProviderJsonlReduceSpec>,
    pub capture: Option<ProviderDecoderCaptureSpec>,
}

// ───────────────────────── reducers ─────────────────────────

/// Reducer modes: 0 first non-empty, 1 concatenation, 2 last non-empty.
pub open spec fn reducer_mode(m: Seq<char>) -> int {
    let t = trim(m);
    if t == "firstNonEmpty"@ || t == "first_non_empty"@ {
        0
    } else if t == "concat"@ || t == "joinText"@ || t == "join_text"@ {
        1
    } else {
        2
    }
}

/// Whether an optional condition holds (no condition always does).
pub open spec fn when_holds(root: JsonValue, when: Option<JsonCondition>) -> bool {
    match when {
        Some(c) => condition_holds(root, c),
        None => true,
    }
}

/// The texts a path selects in the values that meet the condition, in
/// order.
pub open spec fn selected_texts(vs: Seq<JsonValue>, path: Seq<char>, when: Option<JsonCondition>) -> Seq<Seq<char>>
    decreases vs.len(),
{
    if vs.len() == 0 {
        seq![]
    } else {
        selected_texts(vs.drop_last(), path, when) + if when_holds(vs.last(), when) {
            texts(path_values(vs.last(), path))
        } else {
            seq![]
        }
    }
}

/// The first text that is not blank (without its trailing white space).
pub open spec fn first_non_blank(ts: Seq<Seq<char>>) -> Option<Seq<char>>
    decreases ts.len(),
{
    if ts.len() == 0 {
        None
    } else if non_blank_text(ts[0]) is Some {
        non_blank_text(ts[0])
    } else {
        first_non_blank(ts.skip(1))
    }
}

/// The last text that is not blank (without its trailing white space).
pub open spec fn last_non_blank(ts: Seq<Seq<char>>) -> Option<Seq<char>>
    decreases ts.len(),
{
    if ts.len() == 0 {
        None
    } else if non_blank_text(ts.last()) is Some {
        non_blank_text(ts.last())
    } else {
        last_non_blank(ts.drop_last())
    }
}

/// Law: `last_non_blank` is the last text that is not blank: when it finds
/// `t`, some text gives `t` and every later text is blank; when it finds
/// nothing, every text is blank.
pub proof fn law_last_non_blank(ts: Seq<Seq<char>>)
    ensures
        match last_non_blank(ts) {
            Some(t) => exists|i: int| 0 <= i < ts.len() && non_blank_text(#[trigger] ts[i]) == Some(t)
                && forall|j: int| i < j < ts.len() ==> non_blank_text(#[trigger] ts[j]) is None,
            None => forall|j: int| 0 <= j < ts.len() ==> non_blank_text(#[trigger] ts[j]) is None,
        },
    decreases ts.len(),
{
    if ts.len() > 0 {
        let n = ts.len() - 1;
        if non_blank_text(ts[n]) is Some {
            assert(non_blank_text(ts[n]) == last_non_blank(ts));
        } else {
            law_last_non_blank(ts.drop_last());
            match last_non_blank(ts.drop_last()) {
                Some(t) => {
                    let i = choose|i: int| 0 <= i < ts.drop_last().len() && non_blank_text(#[trigger] ts.drop_last()[i]) == Some(t)
                        && forall|j: int| i < j < ts.drop_last().len() ==> non_blank_text(#[trigger] ts.drop_last()[j]) is None;
                    assert(ts[i] == ts.drop_last()[i]);
                    assert forall|j: int| i < j < ts.len() implies non_blank_text(#[trigger] ts[j]) is None by {
                        if j < n {
                            assert(ts[j] == ts.drop_last()[j]);
                        }
                    }
                },
                None => {
                    assert forall|j: int| 0 <= j < ts.len() implies non_blank_text(#[trigger] ts[j]) is None by {
                        if j < n {
                            assert(ts[j] == ts.drop_last()[j]);
                        }
                    }
                },
            }
        }
    }
}

/// Law: `first_non_blank` is the first text that is not blank: when it
/// finds `t`, some text gives `t` and every earlier text is blank; when it
/// finds nothing, every text is blank.
pub proof fn law_first_non_blank(ts: Seq<Seq<char>>)
    ensures
        match first_non_blank(ts) {
            Some(t) => exists|i: int| 0 <= i < ts.len() && non_blank_text(#[trigger] ts[i]) == Some(t)
                && forall|j: int| 0 <= j < i ==> non_blank_text(#[trigger] ts[j]) is None,
            None => forall|j: int| 0 <= j < ts.len() ==> non_blank_text(#[trigger] ts[j]) is None,
        },
    decreases ts.len(),
{
    if ts.len() > 0 {
        if non_blank_text(ts[0]) is Some {
            assert(non_blank_text(ts[0]) == first_non_blank(ts));
        } else {
            law_first_non_blank(ts.skip(1));
            match first_non_blank(ts.skip(1)) {
                Some(t) => {
                    let i = choose|i: int| 0 <= i < ts.skip(1).len() && non_blank_text(#[trigger] ts.skip(1)[i]) == Some(t)
                        && forall|j: int| 0 <= j < i ==> non_blank_text(#[trigger] ts.skip(1)[j]) is None;
                    assert(ts[i + 1] == ts.skip(1)[i]);
                    assert forall|j: int| 0 <= j < i + 1 implies non_blank_text(#[trigger] ts[j]) is None by {
                        if j > 0 {
                            assert(ts[j] == ts.skip(1)[j - 1]);
                        }
                    }
                },
                None => {
                    assert forall|j: int| 0 <= j < ts.len() implies non_blank_text(#[trigger] ts[j]) is None by {
                        if j > 0 {
                            assert(ts[j] == ts.skip(1)[j - 1]);
                        }
                    }
                },
            }
        }
    }
}

/// All texts, concatenated.
pub open spec fn concat_all(ts: Seq<Seq<char>>) -> Seq<char>
    decreases ts.len(),
{
    if ts.len() == 0 {
        seq![]
    } else {
        concat_all(ts.drop_last()) + ts.last()
    }
}

/// What one reducer finds: nothing for a blank path; else by its mode,
/// over the texts its path selects in the values meeting its condition.
pub open spec fn reduced(vs: Seq<JsonValue>, r: ProviderJsonlTextReducerSpec) -> Option<Seq<char>> {
    let path = trim(r.path@);
    if path.len() == 0 {
        None
    } else {
        let ts = selected_texts(vs, path, r.when);
        let m = reducer_mode(r.mode@);
        if m == 0 {
            first_non_blank(ts)
        } else if m == 1 {
            non_blank_text(concat_all(ts))
        } else {
            last_non_blank(ts)
        }
    }
}

/// What a reducer finds, trying its fallbacks in turn.
pub open spec fn reduced_with_fallback(vs: Seq<JsonValue>, r: ProviderJsonlTextReducerSpec) -> Option<Seq<char>>
    decreases r,
{
    match reduced(vs, r) {
        Some(t) => Some(t),
        None => match r.fallback {
            Some(fb) => reduced_with_fallback(vs, *fb),
            None => None,
        },
    }
}

fn when_matches(root: &JsonValue, when: &Option<JsonCondition>) -> (b: bool)
    ensures
        b == when_holds(*root, *when),
{
    match when {
        Some(c) => json_condition_matches(root, c),
        None => true,
    }
}

fn selected_texts_exec(values: &Vec<JsonValue>, path: &str, when: &Option<JsonCondition>) -> (out: Vec<String>)
    ensures
        views(out@) == selected_texts(values@, path@, *when),
{
    let mut out: Vec<String> = Vec::new();
    let mut i: usize = 0;
    assert(values@.take(0) =~= Seq::<JsonValue>::empty());
    assert(views(out@) =~= seq![]);
    while i < values.len()
        invariant
            i <= values.len(),
            views(out@) == selected_texts(values@.take(i as int), path@, *when),
        decreases values.len() - i,
    {
        proof {
            assert(values@.take(i + 1).drop_last() =~= values@.take(i as int));
            assert(values@.take(i + 1).last() == values@[i as int]);
        }
        if when_matches(&values[i], when) {
            let ts = json_path_lookup_strings(&values[i], path);
            let ghost before = views(out@);
            let mut j: usize = 0;
            while j < ts.len()
                invariant
                    j <= ts.len(),
                    views(out@) == before + views(ts@).take(j as int),
                decreases ts.len() - j,
            {
                let ghost o = out@;
                out.push(ts[j].clone());
                proof {
                    assert(views(out@) =~= views(o).push(ts@[j as int]@));
                    assert(views(ts@).take(j + 1) =~= views(ts@).take(j as int).push(ts@[j as int]@));
                    assert(views(out@) =~= before + views(ts@).take(j + 1));
                }
                j += 1;
            }
            assert(views(ts@).take(ts.len() as int) =~= views(ts@));
        }
        proof {
            assert(views(out@) =~= selected_texts(values@.take(i + 1), path@, *when));
        }
        i += 1;
    }
    assert(values@.take(values.len() as int) =~= values@);
    out
}

/// What one reducer finds in the values (see [`reduced`]).
pub fn reduce_json_values(values: &Vec<JsonValue>, r: &ProviderJsonlTextReducerSpec) -> (out: Option<String>)
    ensures
        (match out { Some(t) => Some(t@), None => None }) == reduced(values@, *r),
{
    let path = string_of(&trim_chars(&chars_of(r.path.as_str())));
    if chars_of(path.as_str()).len() == 0 {
        return None;
    }
    let ts = selected_texts_exec(values, path.as_str(), &r.when);
    let mode = trim_chars(&chars_of(r.mode.as_str()));
    if eq_str(&mode, "firstNonEmpty") || eq_str(&mode, "first_non_empty") {
        let mut i: usize = 0;
        assert(views(ts@).skip(0) =~= views(ts@));
        assert(reduced(values@, *r) == first_non_blank(views(ts@)));
        while i < ts.len()
            invariant
                i <= ts.len(),
                reduced(values@, *r) == first_non_blank(views(ts@)),
                first_non_blank(views(ts@)) == first_non_blank(views(ts@).skip(i as int)),
            decreases ts.len() - i,
        {
            assert(views(ts@).skip(i as int)[0] == ts@[i as int]@);
            if let Some(t) = non_blank(ts[i].clone()) {
                return Some(t);
            }
            assert(views(ts@).skip(i as int).skip(1) =~= views(ts@).skip(i + 1));
            i += 1;
        }
        None
    } else if eq_str(&mode, "concat") || eq_str(&mode, "joinText") || eq_str(&mode, "join_text") {
        let mut all: Vec<char> = Vec::new();
        let mut i: usize = 0;
        assert(views(ts@).take(0) =~= Seq::<Seq<char>>::empty());
        while i < ts.len()
            invariant
                i <= ts.len(),
                all@ == concat_all(views(ts@).take(i as int)),
            decreases ts.len() - i,
        {
            assert(views(ts@).take(i + 1).drop_last() =~= views(ts@).take(i as int));
            extend_chars(&mut all, &chars_of(ts[i].as_str()));
            i += 1;
        }
        assert(views(ts@).take(ts.len() as int) =~= views(ts@));
        non_blank(string_of(&all))
    } else {
        let mut i: usize = ts.len();
        assert(views(ts@).take(ts.len() as int) =~= views(ts@));
        assert(reduced(values@, *r) == last_non_blank(views(ts@)));
        while i > 0
            invariant
                i <= ts.len(),
                reduced(values@, *r) == last_non_blank(views(ts@)),
                last_non_blank(views(ts@)) == last_non_blank(views(ts@).take(i as int)),
            decreases i,
        {
            assert(views(ts@).take(i as int).last() == ts@[i - 1]@);
            if let Some(t) = non_blank(ts[i - 1].clone()) {
                return Some(t);
            }
            assert(views(ts@).take(i as int).drop_last() =~= views(ts@).take(i - 1));
            i -= 1;
        }
        None
    }
}

/// What a reducer finds in the values, trying its fallbacks in turn.
pub fn reduce_with_fallback(values: &Vec<JsonValue>, r: &ProviderJsonlTextReducerSpec) -> (out: Option<String>)
    ensures
        (match out { Some(t) => Some(t@), None => None }) == reduced_with_fallback(values@, *r),
    decreases *r,
{
    if let Some(t) = reduce_json_values(values, r) {
        return Some(t);
    }
    match &r.fallback {
        Some(fb) => reduce_with_fallback(values, fb),
        None => None,
    }
}

/// The final text a decoder's reducer finds in the values, if it has one.
pub fn extract_decoder_final_text(decoder: Option<&ProviderDecoderSpec>, values: &Vec<JsonValue>) -> (out: Option<String>)
    ensures
        (match out { Some(t) => Some(t@), None => None }) == (match decoder {
            Some(d) => match d.reduce {
                Some(rd) => match rd.final_text {
                    Some(r) => reduced_with_fallback(values@, r),
                    None => None,
                },
                None => None,
            },
            None => None,
        }),
{
    match decoder {
        Some(d) => match &d.reduce {
            Some(rd) => match &rd.final_text {
                Some(r) => reduce_with_fallback(values, r),
                None => None,
            },
            None => None,
        },
        None => None,
    }
}

/// The session id a decoder's capture reducer finds in the values, if it
/// has one.
pub fn capture_decoder_session_id(decoder: Option<&ProviderDecoderSpec>, values: &Vec<JsonValue>) -> (out: Option<String>)
    ensures
        (match out { Some(t) => Some(t@), None => None }) == (match decoder {
            Some(d) => match d.capture {
                Some(c) => match c.session {
                    Some(r) => reduced_with_fallback(values@, r),
                    None => None,
                },
                None => None,
            },
            None => None,
        }),
{
    match decoder {
        Some(d) => match &d.capture {
            Some(c) => match &c.session {
                Some(r) => reduce_with_fallback(values, r),
                None => None,
            },
            None => None,
        },
        None => None,
    }
}

// ───────────────────────── event rules ─────────────────────────

/// Whether a template is a JSON path.
pub open spec fn is_path_template(t: Seq<char>) -> bool {
    t.len() > 0 && (t[0] == '$' || t[0] == '.')
}

/// A template's text in a line: the first text its path selects, or the
/// literal itself.
pub open spec fn template_text(root: JsonValue, t: Seq<char>) -> Option<Seq<char>> {
    if is_path_template(t) {
        let ts = texts(path_values(root, t));
        if ts.len() > 0 { Some(ts[0]) } else { None }
    } else {
        Some(t)
    }
}

/// The text of an optional template.
pub open spec fn opt_template_text(root: JsonValue, t: Option<String>) -> Option<Seq<char>> {
    match t {
        Some(s) => template_text(root, s@),
        None => None,
    }
}

/// The first of two optional templates that is given.
pub open spec fn or_template(a: Option<String>, b: Option<String>) -> Option<String> {
    if a is Some { a } else { b }
}

/// The input a tool-use rule gives, up to JSON equality.
pub enum InputView {
    Value(JsonValue),
    Text(Seq<char>),
    Null,
}

/// The input of a tool-use rule: the first value its path selects; for a
/// literal, the literal parsed as JSON, else the literal as a string;
/// `null` without one.
pub open spec fn emit_input(emit: ProviderDecoderEmitSpec, root: JsonValue) -> InputView {
    match emit.input {
        Some(t) => if is_path_template(t@) {
            if path_values(root, t@).len() > 0 { InputView::Value(path_values(root, t@)[0]) } else { InputView::Null }
        } else {
            match emit.input_literal {
                Some(v) => InputView::Value(v),
                None => InputView::Text(t@),
            }
        },
        None => InputView::Null,
    }
}

/// Whether a value is the input view's value.
pub open spec fn input_matches(v: JsonValue, iv: InputView) -> bool {
    match iv {
        InputView::Value(x) => json_same(v, x),
        InputView::Text(t) => v matches JsonValue::String(s) && s@ == t,
        InputView::Null => v is Null,
    }
}

/// Emit kinds: 0 text, 1 tool use, 2 status, 3 error, 4 finish, else none.
pub open spec fn emit_kind(t: Seq<char>) -> int {
    if t == "text"@ {
        0
    } else if t == "tool_use"@ || t == "toolUse"@ || t == "tool"@ {
        1
    } else if t == "status"@ {
        2
    } else if t == "error"@ {
        3
    } else if t == "finish"@ || t == "finished"@ {
        4
    } else {
        5
    }
}

/// The event a rule emits for a line (tool uses without their input,
/// which [`emit_input`] gives): text needs its template to select one;
/// status needs its `status` (else `text`) template to; an error without
/// one says `provider error frame`; a finish without a summary (else
/// message) has an empty one.
pub open spec fn emitted(emit: ProviderDecoderEmitSpec, root: JsonValue) -> Option<EventView> {
    let k = emit_kind(emit.emit_type@);
    if k == 0 {
        match opt_template_text(root, emit.text) {
            Some(c) => Some(EventView::Text(c, match emit.partial { Some(p) => p, None => true })),
            None => None,
        }
    } else if k == 1 {
        Some(EventView::ToolUse(match opt_template_text(root, emit.tool_name) { Some(n) => n, None => seq![] }, JsonValue::Null))
    } else if k == 2 {
        match opt_template_text(root, or_template(emit.status, emit.text)) {
            Some(s) => Some(EventView::Status(s)),
            None => None,
        }
    } else if k == 3 {
        Some(EventView::Error(match opt_template_text(root, or_template(emit.message, emit.text)) {
            Some(m) => m,
            None => "provider error frame"@,
        }))
    } else if k == 4 {
        Some(EventView::Finished(match emit.success { Some(b) => b, None => true },
            match opt_template_text(root, or_template(emit.summary, emit.message)) { Some(s) => s, None => seq![] }))
    } else {
        None
    }
}

/// Whether an event is what a rule emits for a line.
pub open spec fn event_is(e: ProviderRuntimeEvent, emit: ProviderDecoderEmitSpec, root: JsonValue) -> bool {
    match e {
        ProviderRuntimeEvent::ToolUse { tool_name, input } =>
            emitted(emit, root) == Some(EventView::ToolUse(tool_name@, JsonValue::Null))
                && input_matches(input, emit_input(emit, root)),
        _ => emitted(emit, root) == Some(crate::decode::event_view(e)),
    }
}

fn template_text_exec(root: &JsonValue, t: &Option<String>) -> (r: Option<String>)
    ensures
        (match r { Some(s) => Some(s@), None => None }) == opt_template_text(*root, *t),
{
    match t {
        Some(s) => {
            let c = chars_of(s.as_str());
            if c.len() > 0 && (c[0] == '$' || c[0] == '.') {
                json_path_lookup(root, s.as_str())
            } else {
                Some(s.clone())
            }
        },
        None => None,
    }
}

fn or_template_exec<'a>(a: &'a Option<String>, b: &'a Option<String>) -> (r: &'a Option<String>)
    ensures
        *r == or_template(*a, *b),
{
    if a.is_some() { a } else { b }
}

fn input_exec(emit: &ProviderDecoderEmitSpec, root: &JsonValue) -> (r: JsonValue)
    ensures
        input_matches(r, emit_input(*emit, *root)),
{
    match &emit.input {
        Some(t) => {
            let c = chars_of(t.as_str());
            if c.len() > 0 && (c[0] == '$' || c[0] == '.') {
                match json_path_lookup_value(root, t.as_str()) {
                    Some(x) => json_clone(x),
                    None => JsonValue::Null,
                }
            } else {
                match &emit.input_literal {
                    Some(v) => json_clone(v),
                    None => JsonValue::String(t.clone()),
                }
            }
        },
        None => JsonValue::Null,
    }
}

/// The event a rule emits for a line, if any (see [`emitted`]).
pub fn decode_decoder_emit(emit: &ProviderDecoderEmitSpec, root: &JsonValue) -> (r: Option<ProviderRuntimeEvent>)
    ensures
        match r {
            Some(e) => event_is(e, *emit, *root),
            None => emitted(*emit, *root) is None,
        },
{
    let k = chars_of(emit.emit_type.as_str());
    if eq_str(&k, "text") {
        match template_text_exec(root, &emit.text) {
            Some(content) => {
                let is_partial = match emit.partial { Some(p) => p, None => true };
                Some(ProviderRuntimeEvent::Text { content, is_partial })
            },
            None => None,
        }
    } else if eq_str(&k, "tool_use") || eq_str(&k, "toolUse") || eq_str(&k, "tool") {
        let tool_name = match template_text_exec(root, &emit.tool_name) {
            Some(n) => n,
            None => String::new(),
        };
        let input = input_exec(emit, root);
        proof {
            reveal_strlit("");
        }
        Some(ProviderRuntimeEvent::ToolUse { tool_name, input })
    } else if eq_str(&k, "status") {
        match template_text_exec(root, or_template_exec(&emit.status, &emit.text)) {
            Some(status) => Some(ProviderRuntimeEvent::Status { status }),
            None => None,
        }
    } else if eq_str(&k, "error") {
        let message = match template_text_exec(root, or_template_exec(&emit.message, &emit.text)) {
            Some(m) => m,
            None => "provider error frame".to_owned(),
        };
        proof {
            reveal_strlit("provider error frame");
        }
        Some(ProviderRuntimeEvent::Error { message })
    } else if eq_str(&k, "finish") || eq_str(&k, "finished") {
        let summary = match template_text_exec(root, or_template_exec(&emit.summary, &emit.message)) {
            Some(s) => s,
            None => String::new(),
        };
        let success = match emit.success { Some(b) => b, None => true };
        proof {
            reveal_strlit("");
        }
        Some(ProviderRuntimeEvent::Finished { success, summary })
    } else {
        None
    }
}

/// The rules of a list that apply to a line, each with what it emits.
pub open spec fn applied_rules(rules: Seq<ProviderDecoderEventSpec>, root: JsonValue) -> Seq<ProviderDecoderEmitSpec>
    decreases rules.len(),
{
    if rules.len() == 0 {
        seq![]
    } else {
        let r = rules.last();
        applied_rules(rules.drop_last(), root) + if when_holds(root, r.when) && emitted(r.emit, root) is Some {
            seq![r.emit]
        } else {
            seq![]
        }
    }
}

/// Decode a line with a decoder's rules: `None` when the decoder has no
/// rules or the line is not JSON; else, in rule order, the event of each
/// rule whose condition holds of the line and that emits one.
pub fn decode_decoder_event_line(decoder: &ProviderDecoderSpec, line: Option<&JsonValue>) -> (r: Option<Vec<ProviderRuntimeEvent>>)
    ensures
        (decoder.events@.len() == 0 || line is None) <==> r is None,
        r matches Some(es) ==> line matches Some(root) && es@.len() == applied_rules(decoder.events@, *root).len()
            && forall|i: int| 0 <= i < es@.len() ==> event_is(#[trigger] es@[i], applied_rules(decoder.events@, *root)[i], *root),
{
    if decoder.events.len() == 0 {
        return None;
    }
    let root = match line {
        Some(v) => v,
        None => return None,
    };
    let mut out: Vec<ProviderRuntimeEvent> = Vec::new();
    let mut i: usize = 0;
    let ghost rules = decoder.events@;
    assert(rules.take(0) =~= Seq::<ProviderDecoderEventSpec>::empty());
    while i < decoder.events.len()
        invariant
            i <= decoder.events.len(),
            rules == decoder.events@,
            out@.len() == applied_rules(rules.take(i as int), *root).len(),
            forall|j: int| 0 <= j < out@.len() ==> event_is(#[trigger] out@[j], applied_rules(rules.take(i as int), *root)[j], *root),
        decreases decoder.events.len() - i,
    {
        proof {
            assert(rules.take(i + 1).drop_last() =~= rules.take(i as int));
            assert(rules.take(i + 1).last() == rules[i as int]);
        }
        let rule = &decoder.events[i];
        let ghost before = applied_rules(rules.take(i as int), *root);
        if when_matches(root, &rule.when) {
            if let Some(e) = decode_decoder_emit(&rule.emit, root) {
                out.push(e);
                proof {
                    let now = applied_rules(rules.take(i + 1), *root);
                    assert(now =~= before.push(rule.emit));
                    assert forall|j: int| 0 <= j < out@.len() implies event_is(#[trigger] out@[j], now[j], *root) by {
                        if j < before.len() {
                            assert(now[j] == before[j]);
                        }
                    }
                }
            } else {
                assert(applied_rules(rules.take(i + 1), *root) =~= before);
            }
        } else {
            assert(applied_rules(rules.take(i + 1), *root) =~= before);
        }
        i += 1;
    }
    assert(rules.take(rules.len() as int) =~= rules);
    Some(out)
}

// ───────────────────────── validation ─────────────────────────

/// How a decoder's output is read: plain text, one of the built-in
/// stream formats, or generic JSON lines; an error for an unknown format
/// or built-in.
pub open spec fn decoder_format(format: Seq<char>, name: Option<Seq<char>>) -> Result<CommandOutputFormat, Seq<char>> {
    if format == "text"@ {
        Ok(CommandOutputFormat::Text)
    } else if format == "builtin"@ {
        match name {
            Some(n) => if n == "text"@ {
                Ok(CommandOutputFormat::Text)
            } else if n == "claude_stream_json"@ || n == "qoder_stream_json"@ {
                Ok(CommandOutputFormat::ClaudeStreamJson)
            } else if n == "copilot_jsonl_final_text"@ || n == "copilot_json"@ {
                Ok(CommandOutputFormat::CopilotJson)
            } else if n == "codex_stream_json"@ {
                Ok(CommandOutputFormat::CodexStreamJson)
            } else if n == "ndjson_lines"@ {
                Ok(CommandOutputFormat::NdjsonLines)
            } else {
                Err("unknown builtin decoder `"@ + n + "`"@)
            },
            None => Err("unknown decoder format `builtin`"@),
        }
    } else if format == "json"@ {
        Ok(CommandOutputFormat::Text)
    } else if format == "jsonl"@ {
        Ok(CommandOutputFormat::NdjsonLines)
    } else {
        Err("unknown decoder format `"@ + format + "`"@)
    }
}

/// The output format of a decoder (see [`decoder_format`]).
pub fn output_format(decoder: &ProviderDecoderSpec) -> (r: Result<CommandOutputFormat, String>)
    ensures
        match r {
            Ok(f) => decoder_format(decoder.format@, crate::server_url::opt_view(decoder.name)) == Ok::<CommandOutputFormat, Seq<char>>(f),
            Err(m) => decoder_format(decoder.format@, crate::server_url::opt_view(decoder.name)) == Err::<CommandOutputFormat, Seq<char>>(m@),
        },
{
    let f = chars_of(decoder.format.as_str());
    if eq_str(&f, "text") {
        return Ok(CommandOutputFormat::Text);
    }
    if eq_str(&f, "builtin") {
        return match &decoder.name {
            Some(n) => {
                let c = chars_of(n.as_str());
                if eq_str(&c, "text") {
                    Ok(CommandOutputFormat::Text)
                } else if eq_str(&c, "claude_stream_json") || eq_str(&c, "qoder_stream_json") {
                    Ok(CommandOutputFormat::ClaudeStreamJson)
                } else if eq_str(&c, "copilot_jsonl_final_text") || eq_str(&c, "copilot_json") {
                    Ok(CommandOutputFormat::CopilotJson)
                } else if eq_str(&c, "codex_stream_json") {
                    Ok(CommandOutputFormat::CodexStreamJson)
                } else if eq_str(&c, "ndjson_lines") {
                    Ok(CommandOutputFormat::NdjsonLines)
                } else {
                    let mut m: Vec<char> = Vec::new();
                    extend_str(&mut m, "unknown builtin decoder `");
                    extend_chars(&mut m, &c);
                    extend_str(&mut m, "`");
                    Err(string_of(&m))
                }
            },
            None => Err("unknown decoder format `builtin`".to_owned()),
        };
    }
    if eq_str(&f, "json") {
        return Ok(CommandOutputFormat::Text);
    }
    if eq_str(&f, "jsonl") {
        return Ok(CommandOutputFormat::NdjsonLines);
    }
    let mut m: Vec<char> = Vec::new();
    extend_str(&mut m, "unknown decoder format `");
    extend_chars(&mut m, &f);
    extend_str(&mut m, "`");
    Err(string_of(&m))
}

/// The start of a manifest error: `provider `{id}` mode `{mode}` `.
pub open spec fn mode_prefix(id: Seq<char>, mode: Seq<char>) -> Seq<char> {
    "provider `"@ + id + "` mode `"@ + mode + "` "@
}

fn mode_prefix_exec(id: &str, mode: &str) -> (out: Vec<char>)
    ensures
        out@ == mode_prefix(id@, mode@),
{
    let mut out: Vec<char> = Vec::new();
    extend_str(&mut out, "provider `");
    extend_str(&mut out, id);
    extend_str(&mut out, "` mode `");
    extend_str(&mut out, mode);
    extend_str(&mut out, "` ");
    out
}

/// `where.label[k]`.
pub open spec fn indexed_where(at: Seq<char>, label: Seq<char>, k: nat) -> Seq<char> {
    at + "."@ + label + "["@ + decimal(k) + "]"@
}

/// The first error of a JSON condition: a bad path, then the errors of its
/// `all`, `any` and `not` conditions.
pub open spec fn condition_error(id: Seq<char>, mode: Seq<char>, at: Seq<char>, c: JsonCondition) -> Option<Seq<char>>
    decreases c, 0int,
{
    let path_err = match c.path {
        Some(p) => match json_path_error(p@) {
            Some(e) => Some(mode_prefix(id, mode) + at + ".path: "@ + e),
            None => None,
        },
        None => None,
    };
    if path_err is Some {
        path_err
    } else {
        proof {
            assert(decreases_to!(c => c.all));
            assert(decreases_to!(c.all => c.all@));
            assert(decreases_to!(c => c.any));
            assert(decreases_to!(c.any => c.any@));
        }
        match conditions_error(id, mode, at, "all"@, c.all@, 0) {
            Some(e) => Some(e),
            None => match conditions_error(id, mode, at, "any"@, c.any@, 0) {
                Some(e) => Some(e),
                None => match c.not {
                    Some(n) => condition_error(id, mode, at + ".not"@, *n),
                    None => None,
                },
            },
        }
    }
}

/// The first error among conditions `items`, numbered from `k`.
pub open spec fn conditions_error(id: Seq<char>, mode: Seq<char>, at: Seq<char>, label: Seq<char>, items: Seq<JsonCondition>, k: nat) -> Option<Seq<char>>
    decreases items, 1int,
{
    if items.len() == 0 {
        None
    } else {
        match condition_error(id, mode, indexed_where(at, label, k), items[0]) {
            Some(e) => Some(e),
            None => conditions_error(id, mode, at, label, items.skip(1), k + 1),
        }
    }
}

fn indexed_where_exec(at: &Vec<char>, label: &str, k: usize) -> (out: Vec<char>)
    ensures
        out@ == indexed_where(at@, label@, k as nat),
{
    let mut out = at.clone();
    assert(out@ == at@);
    extend_str(&mut out, ".");
    extend_str(&mut out, label);
    extend_str(&mut out, "[");
    push_decimal(&mut out, k as u64);
    extend_str(&mut out, "]");
    out
}

fn path_error_message(id: &str, mode: &str, at: &Vec<char>, suffix: &str, err: &String) -> (out: String)
    ensures
        out@ == mode_prefix(id@, mode@) + at@ + suffix@ + err@,
{
    let mut m = mode_prefix_exec(id, mode);
    extend_chars(&mut m, at);
    extend_str(&mut m, suffix);
    extend_str(&mut m, err.as_str());
    string_of(&m)
}

/// Check a JSON condition of a manifest (see [`condition_error`]).
pub fn validate_json_condition(id: &str, mode: &str, at: &Vec<char>, c: &JsonCondition) -> (r: Result<(), String>)
    ensures
        match r {
            Ok(()) => condition_error(id@, mode@, at@, *c) is None,
            Err(m) => condition_error(id@, mode@, at@, *c) == Some(m@),
        },
    decreases *c, 1int, 0int,
{
    if let Some(p) = &c.path {
        if let Err(e) = validate_json_path_syntax(p.as_str()) {
            return Err(path_error_message(id, mode, at, ".path: ", &e));
        }
    }
    proof {
        assert(decreases_to!(*c => c.all));
        assert(decreases_to!(c.all => c.all@));
        assert(decreases_to!(*c => c.any));
        assert(decreases_to!(c.any => c.any@));
    }
    assert(c.all@.skip(0) =~= c.all@);
    assert(c.any@.skip(0) =~= c.any@);
    if let Err(e) = validate_conditions(id, mode, at, "all", &c.all, 0, c) {
        return Err(e);
    }
    if let Err(e) = validate_conditions(id, mode, at, "any", &c.any, 0, c) {
        return Err(e);
    }
    match &c.not {
        Some(n) => {
            let mut w = at.clone();
            assert(w@ == at@);
            extend_str(&mut w, ".not");
            validate_json_condition(id, mode, &w, n)
        },
        None => Ok(()),
    }
}

fn validate_conditions(id: &str, mode: &str, at: &Vec<char>, label: &str, items: &Vec<JsonCondition>, from: usize,
    parent: &JsonCondition) -> (r: Result<(), String>)
    requires
        from <= items@.len(),
        decreases_to!(*parent => items@),
    ensures
        match r {
            Ok(()) => conditions_error(id@, mode@, at@, label@, items@.skip(from as int), from as nat) is None,
            Err(m) => conditions_error(id@, mode@, at@, label@, items@.skip(from as int), from as nat) == Some(m@),
        },
    decreases *parent, 0int, items@.len() - from,
{
    if from >= items.len() {
        assert(items@.skip(from as int).len() == 0);
        return Ok(());
    }
    proof {
        assert(decreases_to!(items@ => items@[from as int]));
        assert(items@.skip(from as int)[0] == items@[from as int]);
        assert(items@.skip(from as int).skip(1) =~= items@.skip(from + 1));
    }
    let w = indexed_where_exec(at, label, from);
    if let Err(e) = validate_json_condition(id, mode, &w, &items[from]) {
        return Err(e);
    }
    validate_conditions(id, mode, at, label, items, from + 1, parent)
}

/// Reducer mode names.
pub open spec fn known_reducer_mode(m: Seq<char>) -> bool {
    m == "lastNonEmpty"@ || m == "last_non_empty"@ || m == "firstNonEmpty"@ || m == "first_non_empty"@
        || m == "concat"@ || m == "joinText"@ || m == "join_text"@
}

/// The first error of a reducer: an unknown mode, a bad path, an error of
/// its condition, then of its fallback.
pub open spec fn reducer_error(id: Seq<char>, mode: Seq<char>, at: Seq<char>, r: ProviderJsonlTextReducerSpec) -> Option<Seq<char>>
    decreases r,
{
    let m = trim(r.mode@);
    if !known_reducer_mode(m) {
        Some(mode_prefix(id, mode) + at + " uses unsupported reducer mode `"@ + m + "`"@)
    } else if json_path_error(r.path@) is Some {
        Some(mode_prefix(id, mode) + at + ".path: "@ + json_path_error(r.path@)->0)
    } else {
        let cond = match r.when {
            Some(c) => condition_error(id, mode, at + ".when"@, c),
            None => None,
        };
        if cond is Some {
            cond
        } else {
            match r.fallback {
                Some(fb) => reducer_error(id, mode, at + ".fallback"@, *fb),
                None => None,
            }
        }
    }
}

/// Check a reducer of a manifest (see [`reducer_error`]).
pub fn validate_jsonl_text_reducer(id: &str, mode: &str, at: &Vec<char>, r: &ProviderJsonlTextReducerSpec) -> (res: Result<(), String>)
    ensures
        match res {
            Ok(()) => reducer_error(id@, mode@, at@, *r) is None,
            Err(m) => reducer_error(id@, mode@, at@, *r) == Some(m@),
        },
    decreases *r,
{
    let m = trim_chars(&chars_of(r.mode.as_str()));
    if !(eq_str(&m, "lastNonEmpty") || eq_str(&m, "last_non_empty") || eq_str(&m, "firstNonEmpty")
        || eq_str(&m, "first_non_empty") || eq_str(&m, "concat") || eq_str(&m, "joinText") || eq_str(&m, "join_text")) {
        let mut e = mode_prefix_exec(id, mode);
        extend_chars(&mut e, at);
        extend_str(&mut e, " uses unsupported reducer mode `");
        extend_chars(&mut e, &m);
        extend_str(&mut e, "`");
        return Err(string_of(&e));
    }
    if let Err(e) = validate_json_path_syntax(r.path.as_str()) {
        return Err(path_error_message(id, mode, at, ".path: ", &e));
    }
    if let Some(c) = &r.when {
        let mut w = at.clone();
        assert(w@ == at@);
        extend_str(&mut w, ".when");
        if let Err(e) = validate_json_condition(id, mode, &w, c) {
            return Err(e);
        }
    }
    match &r.fallback {
        Some(fb) => {
            let mut w = at.clone();
            assert(w@ == at@);
            extend_str(&mut w, ".fallback");
            validate_jsonl_text_reducer(id, mode, &w, fb)
        },
        None => Ok(()),
    }
}

/// The error of a required template that is missing or blank.
pub open spec fn required_error(id: Seq<char>, mode: Seq<char>, at: Seq<char>, field: Seq<char>, v: Option<String>) -> Option<Seq<char>> {
    match v {
        Some(s) => if trim(s@).len() != 0 { None } else { Some(mode_prefix(id, mode) + at + " "@ + field + " is required"@) },
        None => Some(mode_prefix(id, mode) + at + " "@ + field + " is required"@),
    }
}

/// The error of a template: a path template must be a valid path.
pub open spec fn template_error(id: Seq<char>, mode: Seq<char>, at: Seq<char>, field: Seq<char>, v: Option<String>) -> Option<Seq<char>> {
    match v {
        Some(s) => {
            let t = trim(s@);
            if is_path_template(t) && json_path_error(t) is Some {
                Some(mode_prefix(id, mode) + at + "."@ + field + ": "@ + json_path_error(t)->0)
            } else {
                None
            }
        },
        None => None,
    }
}

/// The first of two optional errors.
pub open spec fn first_error(a: Option<Seq<char>>, b: Option<Seq<char>>) -> Option<Seq<char>> {
    if a is Some { a } else { b }
}

/// The first error of a rule's event: by its (trimmed) type, the templates
/// it needs and the syntax of the path templates it has; an error for a
/// missing or unknown type.
pub open spec fn emit_error(id: Seq<char>, mode: Seq<char>, at: Seq<char>, e: ProviderDecoderEmitSpec) -> Option<Seq<char>> {
    let t = trim(e.emit_type@);
    let p = mode_prefix(id, mode) + at;
    if t == "text"@ {
        first_error(required_error(id, mode, at, "text"@, e.text), template_error(id, mode, at, "text"@, e.text))
    } else if t == "tool_use"@ || t == "toolUse"@ || t == "tool"@ {
        first_error(required_error(id, mode, at, "toolName"@, e.tool_name),
            first_error(template_error(id, mode, at, "toolName"@, e.tool_name), template_error(id, mode, at, "input"@, e.input)))
    } else if t == "status"@ {
        if e.status is None && e.text is None {
            Some(p + " status event requires `status` or `text`"@)
        } else {
            first_error(template_error(id, mode, at, "status"@, e.status), template_error(id, mode, at, "text"@, e.text))
        }
    } else if t == "error"@ {
        if e.message is None && e.text is None {
            Some(p + " error event requires `message` or `text`"@)
        } else {
            first_error(template_error(id, mode, at, "message"@, e.message), template_error(id, mode, at, "text"@, e.text))
        }
    } else if t == "finish"@ || t == "finished"@ {
        first_error(template_error(id, mode, at, "summary"@, e.summary), template_error(id, mode, at, "message"@, e.message))
    } else if t.len() == 0 {
        Some(p + " type is required"@)
    } else {
        Some(p + " uses unsupported event type `"@ + t + "`"@)
    }
}

fn check_required(id: &str, mode: &str, at: &Vec<char>, field: &str, v: &Option<String>) -> (r: Result<(), String>)
    ensures
        match r {
            Ok(()) => required_error(id@, mode@, at@, field@, *v) is None,
            Err(m) => required_error(id@, mode@, at@, field@, *v) == Some(m@),
        },
{
    if let Some(s) = v {
        if trim_chars(&chars_of(s.as_str())).len() != 0 {
            return Ok(());
        }
    }
    let mut m = mode_prefix_exec(id, mode);
    extend_chars(&mut m, at);
    extend_str(&mut m, " ");
    extend_str(&mut m, field);
    extend_str(&mut m, " is required");
    Err(string_of(&m))
}

fn check_template(id: &str, mode: &str, at: &Vec<char>, field: &str, v: &Option<String>) -> (r: Result<(), String>)
    ensures
        match r {
            Ok(()) => template_error(id@, mode@, at@, field@, *v) is None,
            Err(m) => template_error(id@, mode@, at@, field@, *v) == Some(m@),
        },
{
    if let Some(s) = v {
        let t = trim_chars(&chars_of(s.as_str()));
        if t.len() > 0 && (t[0] == '$' || t[0] == '.') {
            let ts = string_of(&t);
            if let Err(e) = validate_json_path_syntax(ts.as_str()) {
                let mut m = mode_prefix_exec(id, mode);
                extend_chars(&mut m, at);
                extend_str(&mut m, ".");
                extend_str(&mut m, field);
                extend_str(&mut m, ": ");
                extend_str(&mut m, e.as_str());
                return Err(string_of(&m));
            }
        }
    }
    Ok(())
}

fn prefixed(id: &str, mode: &str, at: &Vec<char>, rest: &str) -> (out: String)
    ensures
        out@ == mode_prefix(id@, mode@) + at@ + rest@,
{
    let mut m = mode_prefix_exec(id, mode);
    extend_chars(&mut m, at);
    extend_str(&mut m, rest);
    string_of(&m)
}

/// Check a rule's event (see [`emit_error`]).
pub fn validate_decoder_emit(id: &str, mode: &str, at: &Vec<char>, e: &ProviderDecoderEmitSpec) -> (r: Result<(), String>)
    ensures
        match r {
            Ok(()) => emit_error(id@, mode@, at@, *e) is None,
            Err(m) => emit_error(id@, mode@, at@, *e) == Some(m@),
        },
{
    let t = trim_chars(&chars_of(e.emit_type.as_str()));
    proof {
        reveal_strlit("");
        if t@.len() == 0 {
            assert(t@ =~= ""@);
        }
    }
    if eq_str(&t, "text") {
        if let Err(m) = check_required(id, mode, at, "text", &e.text) {
            return Err(m);
        }
        check_template(id, mode, at, "text", &e.text)
    } else if eq_str(&t, "tool_use") || eq_str(&t, "toolUse") || eq_str(&t, "tool") {
        if let Err(m) = check_required(id, mode, at, "toolName", &e.tool_name) {
            return Err(m);
        }
        if let Err(m) = check_template(id, mode, at, "toolName", &e.tool_name) {
            return Err(m);
        }
        check_template(id, mode, at, "input", &e.input)
    } else if eq_str(&t, "status") {
        if e.status.is_none() && e.text.is_none() {
            return Err(prefixed(id, mode, at, " status event requires `status` or `text`"));
        }
        if let Err(m) = check_template(id, mode, at, "status", &e.status) {
            return Err(m);
        }
        check_template(id, mode, at, "text", &e.text)
    } else if eq_str(&t, "error") {
        if e.message.is_none() && e.text.is_none() {
            return Err(prefixed(id, mode, at, " error event requires `message` or `text`"));
        }
        if let Err(m) = check_template(id, mode, at, "message", &e.message) {
            return Err(m);
        }
        check_template(id, mode, at, "text", &e.text)
    } else if eq_str(&t, "finish") || eq_str(&t, "finished") {
        if let Err(m) = check_template(id, mode, at, "summary", &e.summary) {
            return Err(m);
        }
        check_template(id, mode, at, "message", &e.message)
    } else if t.len() == 0 {
        Err(prefixed(id, mode, at, " type is required"))
    } else {
        let mut m = mode_prefix_exec(id, mode);
        extend_chars(&mut m, at);
        extend_str(&mut m, " uses unsupported event type `");
        extend_chars(&mut m, &t);
        extend_str(&mut m, "`");
        Err(string_of(&m))
    }
}

/// `stream.events[k]`.
pub open spec fn rule_where(stream: Seq<char>, k: nat) -> Seq<char> {
    stream + ".events["@ + decimal(k) + "]"@
}

/// The first error of a decoder rule: its condition's, then its event's.
pub open spec fn rule_error(id: Seq<char>, mode: Seq<char>, stream: Seq<char>, rule: ProviderDecoderEventSpec, k: nat) -> Option<Seq<char>> {
    first_error(
        match rule.when {
            Some(c) => condition_error(id, mode, rule_where(stream, k) + ".when"@, c),
            None => None,
        },
        emit_error(id, mode, rule_where(stream, k) + ".emit"@, rule.emit),
    )
}

/// The first error among decoder rules, numbered from `k`.
pub open spec fn rules_error(id: Seq<char>, mode: Seq<char>, stream: Seq<char>, rules: Seq<ProviderDecoderEventSpec>, k: nat) -> Option<Seq<char>>
    decreases rules.len(),
{
    if rules.len() == 0 {
        None
    } else {
        first_error(rule_error(id, mode, stream, rules[0], k), rules_error(id, mode, stream, rules.skip(1), k + 1))
    }
}

/// The first error of a decoder: its format, then its rules in order, then
/// its final-text reducer, then its session reducer.
pub open spec fn decoder_error(id: Seq<char>, mode: Seq<char>, stream: Seq<char>, d: ProviderDecoderSpec) -> Option<Seq<char>> {
    let fmt = match decoder_format(d.format@, crate::server_url::opt_view(d.name)) {
        Err(e) => Some(mode_prefix(id, mode) + stream + " decoder: "@ + e),
        Ok(_) => None,
    };
    let final_err = match d.reduce {
        Some(rd) => match rd.final_text {
            Some(r) => reducer_error(id, mode, stream + ".reduce.finalText"@, r),
            None => None,
        },
        None => None,
    };
    let capture_err = match d.capture {
        Some(c) => match c.session {
            Some(r) => reducer_error(id, mode, stream + ".capture.session"@, r),
            None => None,
        },
        None => None,
    };
    first_error(fmt, first_error(rules_error(id, mode, stream, d.events@, 0), first_error(final_err, capture_err)))
}

fn with_suffix(base: &Vec<char>, suffix: &str) -> (out: Vec<char>)
    ensures
        out@ == base@ + suffix@,
{
    let mut out = base.clone();
    assert(out@ == base@);
    extend_str(&mut out, suffix);
    out
}

/// Check a decoder of a manifest mode (see [`decoder_error`]); `stream`
/// names it (`stdout` or `stderr`).
pub fn validate_decoder_spec(id: &str, mode: &str, stream: &str, d: &ProviderDecoderSpec) -> (r: Result<(), String>)
    ensures
        match r {
            Ok(()) => decoder_error(id@, mode@, stream@, *d) is None,
            Err(m) => decoder_error(id@, mode@, stream@, *d) == Some(m@),
        },
{
    if let Err(e) = output_format(d) {
        let mut m = mode_prefix_exec(id, mode);
        extend_str(&mut m, stream);
        extend_str(&mut m, " decoder: ");
        extend_str(&mut m, e.as_str());
        return Err(string_of(&m));
    }
    let sc = chars_of(stream);
    let mut k: usize = 0;
    assert(d.events@.skip(0) =~= d.events@);
    while k < d.events.len()
        invariant
            k <= d.events.len(),
            sc@ == stream@,
            decoder_format(d.format@, crate::server_url::opt_view(d.name)) is Ok,
            rules_error(id@, mode@, stream@, d.events@, 0) == rules_error(id@, mode@, stream@, d.events@.skip(k as int), k as nat),
        decreases d.events.len() - k,
    {
        let rule = &d.events[k];
        proof {
            assert(d.events@.skip(k as int)[0] == d.events@[k as int]);
            assert(d.events@.skip(k as int).skip(1) =~= d.events@.skip(k + 1));
        }
        let w = indexed_where_exec(&sc, "events", k);
        assert(w@ == rule_where(stream@, k as nat)) by {
            reveal_strlit(".");
            reveal_strlit("events");
            reveal_strlit(".events[");
            reveal_strlit("[");
            assert(stream@ + "."@ + "events"@ + "["@ =~= stream@ + ".events["@);
        }
        if let Some(c) = &rule.when {
            let ww = with_suffix(&w, ".when");
            if let Err(e) = validate_json_condition(id, mode, &ww, c) {
                return Err(e);
            }
        }
        let we = with_suffix(&w, ".emit");
        if let Err(e) = validate_decoder_emit(id, mode, &we, &rule.emit) {
            return Err(e);
        }
        k += 1;
    }
    assert(d.events@.skip(k as int).len() == 0);
    if let Some(rd) = &d.reduce {
        if let Some(r) = &rd.final_text {
            let w = with_suffix(&sc, ".reduce.finalText");
            if let Err(e) = validate_jsonl_text_reducer(id, mode, &w, r) {
                return Err(e);
            }
        }
    }
    if let Some(c) = &d.capture {
        if let Some(r) = &c.session {
            let w = with_suffix(&sc, ".capture.session");
            if let Err(e) = validate_jsonl_text_reducer(id, mode, &w, r) {
                return Err(e);
            }
        }
    }
    Ok(())
}

} // verus!
