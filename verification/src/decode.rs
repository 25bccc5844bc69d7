//! Decoding of provider output: the runtime events a line of a provider's
//! JSON stream stands for, and the final answer text of a finished run.
//!
//! Each stdout line is parsed as JSON by the caller (`None` where it is not
//! JSON); every decision on the parsed value is made here.

use vstd::prelude::*;

use crate::command::{first_with_key, non_blank, non_blank_text, upsert_part_text};
use crate::json::{as_str, get_key, get_member, member, pointer, pointer_get, string_at, string_at_paths, strs, JsonValue};
use crate::text::{ascii_lowercase, chars_of, decimal, eq_str, extend_chars, extend_str, push_decimal, string_of, to_ascii_lowercase_chars};

verus! {

/// A runtime event a provider line stands for.
#[derive(Debug)]
pub enum ProviderRuntimeEvent {
    Text { content: String, is_partial: bool },
    ToolUse { tool_name: String, input: JsonValue },
    Status { status: String },
    Error { message: String },
    Finished { success: bool, summary: String },
    Session { session_id: String },
}

/// An event with its texts as character sequences.
pub enum EventView {
    Text(Seq<char>, bool),
    ToolUse(Seq<char>, JsonValue),
    Status(Seq<char>),
    Error(Seq<char>),
    Finished(bool, Seq<char>),
    Session(Seq<char>),
}

/// The view of an event.
pub open spec fn event_view(e: ProviderRuntimeEvent) -> EventView {
    match e {
        ProviderRuntimeEvent::Text { content, is_partial } => EventView::Text(content@, is_partial),
        ProviderRuntimeEvent::ToolUse { tool_name, input } => EventView::ToolUse(tool_name@, input),
        ProviderRuntimeEvent::Status { status } => EventView::Status(status@),
        ProviderRuntimeEvent::Error { message } => EventView::Error(message@),
        ProviderRuntimeEvent::Finished { success, summary } => EventView::Finished(success, summary@),
        ProviderRuntimeEvent::Session { session_id } => EventView::Session(session_id@),
    }
}

/// The views of a list of events.
pub open spec fn events_view(es: Seq<ProviderRuntimeEvent>) -> Seq<EventView> {
    es.map_values(|e: ProviderRuntimeEvent| event_view(e))
}

// ───────────────────────── value access ─────────────────────────

/// The string member `key`, or the empty text.
pub open spec fn str_or_empty(v: JsonValue, key: Seq<char>) -> Seq<char> {
    match as_str(get_key(v, key)) {
        Some(s) => s,
        None => seq![],
    }
}

/// The `type` of a value, or the empty text.
pub open spec fn kind_of(v: JsonValue) -> Seq<char> {
    str_or_empty(v, "type"@)
}

/// The string member `key`, or the empty text.
fn str_member(v: &JsonValue, key: &str) -> (r: Vec<char>)
    ensures
        r@ == str_or_empty(*v, key@),
{
    match get_member(v, &chars_of(key)) {
        Some(JsonValue::String(s)) => chars_of(s.as_str()),
        _ => Vec::new(),
    }
}

/// The string member `key`, if there is one.
fn opt_str_member(v: &JsonValue, key: &str) -> (r: Option<String>)
    ensures
        match r {
            Some(s) => as_str(get_key(*v, key@)) == Some(s@),
            None => as_str(get_key(*v, key@)) is None,
        },
{
    match get_member(v, &chars_of(key)) {
        Some(JsonValue::String(s)) => Some(s.clone()),
        _ => None,
    }
}

/// Move the first member named `key` out of an object's members.
fn take_field(fields: Vec<(String, JsonValue)>, key: &str) -> (r: Option<JsonValue>)
    ensures
        r == member(fields@, key@),
{
    let kc = chars_of(key);
    let ghost orig = fields@;
    let n = fields.len();
    let mut rest = fields;
    let mut k: usize = 0;
    assert(orig.skip(0) =~= orig);
    while rest.len() > 0
        invariant
            k <= orig.len(),
            rest@ == orig.skip(k as int),
            rest@.len() == orig.len() - k,
            orig == fields@,
            orig.len() == n,
            kc@ == key@,
            member(orig, key@) == member(orig.skip(k as int), key@),
        decreases rest.len(),
    {
        let ghost before = rest@;
        let (name, value) = rest.remove(0);
        assert(before[0] == (name, value));
        if eq_str(&chars_of(name.as_str()), key) {
            assert(member(before, key@) == Some(value));
            return Some(value);
        }
        assert(before.skip(1) =~= orig.skip(k + 1));
        k += 1;
    }
    None
}

/// Move the member `key` out of a value.
fn take_key(v: JsonValue, key: &str) -> (r: Option<JsonValue>)
    ensures
        r == get_key(v, key@),
{
    match v {
        JsonValue::Object(fields) => take_field(fields, key),
        _ => None,
    }
}

/// The member `key`, or `null`.
pub open spec fn key_or_null(v: JsonValue, key: Seq<char>) -> JsonValue {
    match get_key(v, key) {
        Some(x) => x,
        None => JsonValue::Null,
    }
}

fn take_key_or_null(v: JsonValue, key: &str) -> (r: JsonValue)
    ensures
        r == key_or_null(v, key@),
{
    match take_key(v, key) {
        Some(x) => x,
        None => JsonValue::Null,
    }
}

// ───────────────────────── what events report ─────────────────────────

/// What emitting events tells the turn: whether text was emitted, and
/// whether the provider reported its finish.
#[derive(Debug, Clone, Copy, PartialEq, Eq, Default)]
pub struct OutputLineEvents {
    pub emitted_text: bool,
    pub emitted_finish: bool,
}

/// Whether any of the events is text.
pub open spec fn any_text(es: Seq<ProviderRuntimeEvent>) -> bool {
    exists|i: int| 0 <= i < es.len() && (#[trigger] es[i]) is Text
}

/// Whether any of the events is a finish.
pub open spec fn any_finish(es: Seq<ProviderRuntimeEvent>) -> bool {
    exists|i: int| 0 <= i < es.len() && (#[trigger] es[i]) is Finished
}

/// What emitting these events tells the turn.
pub fn emitted_flags(events: &Vec<ProviderRuntimeEvent>) -> (r: OutputLineEvents)
    ensures
        r.emitted_text == any_text(events@),
        r.emitted_finish == any_finish(events@),
{
    let mut r = OutputLineEvents { emitted_text: false, emitted_finish: false };
    let mut i: usize = 0;
    while i < events.len()
        invariant
            i <= events.len(),
            r.emitted_text == any_text(events@.take(i as int)),
            r.emitted_finish == any_finish(events@.take(i as int)),
        decreases events.len() - i,
    {
        let ghost pre = events@.take(i as int);
        let ghost post = events@.take(i + 1);
        proof {
            assert(post =~= pre.push(events@[i as int]));
            assert(any_text(post) == (any_text(pre) || events@[i as int] is Text)) by {
                if events@[i as int] is Text {
                    assert(post[i as int] is Text);
                }
                if any_text(post) && !(events@[i as int] is Text) {
                    let j = choose|j: int| 0 <= j < post.len() && (#[trigger] post[j]) is Text;
                    assert(pre[j] == post[j]);
                }
            }
            assert(any_finish(post) == (any_finish(pre) || events@[i as int] is Finished)) by {
                if events@[i as int] is Finished {
                    assert(post[i as int] is Finished);
                }
                if any_finish(post) && !(events@[i as int] is Finished) {
                    let j = choose|j: int| 0 <= j < post.len() && (#[trigger] post[j]) is Finished;
                    assert(pre[j] == post[j]);
                }
            }
        }
        match &events[i] {
            ProviderRuntimeEvent::Text { .. } => r.emitted_text = true,
            ProviderRuntimeEvent::Finished { .. } => r.emitted_finish = true,
            _ => {},
        }
        i += 1;
    }
    assert(events@.take(events.len() as int) =~= events@);
    r
}

// ───────────────────────── ndjson ─────────────────────────

/// The events of one line of the generic NDJSON stream: `text` frames give
/// partial text, `tool` frames a tool use, `status` frames a status,
/// `error` frames an error (with a default message); anything else, and a
/// line that is not JSON, gives none.
pub open spec fn ndjson_events(line: Option<JsonValue>) -> Seq<EventView> {
    match line {
        None => seq![],
        Some(v) => {
            let kind = kind_of(v);
            if kind == "text"@ {
                match as_str(get_key(v, "text"@)) {
                    Some(t) => seq![EventView::Text(t, true)],
                    None => seq![],
                }
            } else if kind == "tool"@ {
                seq![EventView::ToolUse(str_or_empty(v, "name"@), key_or_null(v, "input"@))]
            } else if kind == "status"@ {
                match as_str(get_key(v, "status"@)) {
                    Some(s) => seq![EventView::Status(s)],
                    None => seq![],
                }
            } else if kind == "error"@ {
                match as_str(get_key(v, "message"@)) {
                    Some(m) => seq![EventView::Error(m)],
                    None => seq![EventView::Error("ndjson error frame"@)],
                }
            } else {
                seq![]
            }
        },
    }
}

/// Decode one line of the generic NDJSON stream.
pub fn decode_ndjson_line_events(line: Option<JsonValue>) -> (out: Vec<ProviderRuntimeEvent>)
    ensures
        events_view(out@) == ndjson_events(line),
{
    let mut out: Vec<ProviderRuntimeEvent> = Vec::new();
    let v = match line {
        None => {
            assert(events_view(out@) =~= seq![]);
            return out;
        },
        Some(v) => v,
    };
    let ghost gv = v;
    let kind = str_member(&v, "type");
    if eq_str(&kind, "text") {
        if let Some(t) = opt_str_member(&v, "text") {
            out.push(ProviderRuntimeEvent::Text { content: t, is_partial: true });
        }
    } else if eq_str(&kind, "tool") {
        let name = string_of(&str_member(&v, "name"));
        let input = take_key_or_null(v, "input");
        out.push(ProviderRuntimeEvent::ToolUse { tool_name: name, input });
    } else if eq_str(&kind, "status") {
        if let Some(s) = opt_str_member(&v, "status") {
            out.push(ProviderRuntimeEvent::Status { status: s });
        }
    } else if eq_str(&kind, "error") {
        let message = match opt_str_member(&v, "message") {
            Some(m) => m,
            None => "ndjson error frame".to_owned(),
        };
        out.push(ProviderRuntimeEvent::Error { message });
    }
    proof {
        reveal_strlit("ndjson error frame");
    }
    assert(events_view(out@) =~= ndjson_events(Some(gv)));
    out
}

// ───────────────────────── stream-json ─────────────────────────

/// The event of one content block of an assistant message: complete text,
/// or a tool use.
pub open spec fn block_events(b: JsonValue) -> Seq<EventView> {
    let kind = kind_of(b);
    if kind == "text"@ {
        match as_str(get_key(b, "text"@)) {
            Some(t) => seq![EventView::Text(t, false)],
            None => seq![],
        }
    } else if kind == "tool_use"@ {
        seq![EventView::ToolUse(str_or_empty(b, "name"@), key_or_null(b, "input"@))]
    } else {
        seq![]
    }
}

/// The events of a list of content blocks, in order.
pub open spec fn blocks_events(bs: Seq<JsonValue>) -> Seq<EventView>
    decreases bs.len(),
{
    if bs.len() == 0 {
        seq![]
    } else {
        blocks_events(bs.drop_last()) + block_events(bs.last())
    }
}

/// The events of one line of `stream-json` output: the content
/// blocks of `assistant` frames; every other frame gives none.
pub open spec fn claude_stream_events(line: Option<JsonValue>) -> Seq<EventView> {
    match line {
        None => seq![],
        Some(v) => if kind_of(v) == "assistant"@ {
            match get_key(v, "message"@) {
                Some(m) => match get_key(m, "content"@) {
                    Some(JsonValue::Array(bs)) => blocks_events(bs@),
                    _ => seq![],
                },
                None => seq![],
            }
        } else {
            seq![]
        },
    }
}

fn push_block_events(out: &mut Vec<ProviderRuntimeEvent>, b: JsonValue)
    ensures
        events_view(final(out)@) == events_view(old(out)@) + block_events(b),
{
    let ghost gb = b;
    let ghost before = events_view(out@);
    let kind = str_member(&b, "type");
    if eq_str(&kind, "text") {
        if let Some(t) = opt_str_member(&b, "text") {
            out.push(ProviderRuntimeEvent::Text { content: t, is_partial: false });
        }
    } else if eq_str(&kind, "tool_use") {
        let name = string_of(&str_member(&b, "name"));
        let input = take_key_or_null(b, "input");
        out.push(ProviderRuntimeEvent::ToolUse { tool_name: name, input });
    }
    assert(events_view(out@) =~= before + block_events(gb));
}

/// Decode one line of `stream-json` output.
pub fn decode_claude_stream_line_events(line: Option<JsonValue>) -> (out: Vec<ProviderRuntimeEvent>)
    ensures
        events_view(out@) == claude_stream_events(line),
{
    let mut out: Vec<ProviderRuntimeEvent> = Vec::new();
    assert(events_view(out@) =~= seq![]);
    let v = match line {
        None => return out,
        Some(v) => v,
    };
    let kind = str_member(&v, "type");
    if !eq_str(&kind, "assistant") {
        return out;
    }
    let blocks = match take_key(v, "message") {
        Some(m) => match take_key(m, "content") {
            Some(JsonValue::Array(bs)) => bs,
            _ => return out,
        },
        None => return out,
    };
    let ghost orig = blocks@;
    let n = blocks.len();
    let mut rest = blocks;
    let mut k: usize = 0;
    assert(orig.take(0) =~= Seq::<JsonValue>::empty());
    assert(orig.skip(0) =~= orig);
    while rest.len() > 0
        invariant
            k <= n,
            orig.len() == n,
            rest@ == orig.skip(k as int),
            rest@.len() == n - k,
            events_view(out@) == blocks_events(orig.take(k as int)),
        decreases rest.len(),
    {
        let ghost before = rest@;
        let b = rest.remove(0);
        proof {
            assert(orig.take(k + 1).drop_last() =~= orig.take(k as int));
            assert(orig.take(k + 1).last() == b);
            assert(before.skip(1) =~= orig.skip(k + 1));
        }
        push_block_events(&mut out, b);
        k += 1;
    }
    assert(orig.take(n as int) =~= orig);
    out
}

// ───────────────────────── codex ─────────────────────────

pub proof fn lemma_member_smaller(fields: Seq<(String, JsonValue)>, key: Seq<char>)
    ensures
        member(fields, key) matches Some(x) ==> exists|i: int| 0 <= i < fields.len() && fields[i].1 == x,
    decreases fields.len(),
{
    if fields.len() > 0 && fields[0].0@ != key {
        lemma_member_smaller(fields.skip(1), key);
        if member(fields, key) is Some {
            let i = choose|i: int| 0 <= i < fields.skip(1).len() && fields.skip(1)[i].1 == member(fields, key)->0;
            assert(fields[i + 1] == fields.skip(1)[i]);
        }
    }
}

/// A member of a value is smaller than the value.
pub proof fn lemma_key_smaller(v: JsonValue, key: Seq<char>)
    ensures
        get_key(v, key) matches Some(x) ==> decreases_to!(v => x),
{
    if let JsonValue::Object(fields) = v {
        lemma_member_smaller(fields@, key);
        if get_key(v, key) is Some {
            let i = choose|i: int| 0 <= i < fields@.len() && fields@[i].1 == get_key(v, key)->0;
            assert(decreases_to!(v => v->Object_0));
            assert(decreases_to!(fields => fields@));
            assert(decreases_to!(fields@ => fields@[i]));
            assert(decreases_to!(fields@[i] => fields@[i].1));
        }
    }
}

/// Block types whose text is part of Codex message content.
pub open spec fn codex_piece_kind(t: Seq<char>) -> bool {
    t == ""@ || t == "output_text"@ || t == "final_answer"@ || t == "commentary"@ || t == "text"@
}

/// The text of Codex message content: a string as is; for a list, the
/// texts of its text blocks concatenated, unless blank.
pub open spec fn codex_content_text(v: JsonValue) -> Option<Seq<char>>
    decreases v,
{
    match v {
        JsonValue::String(s) => Some(s@),
        JsonValue::Array(xs) => {
            proof {
                assert(decreases_to!(v => xs));
                assert(decreases_to!(xs => xs@));
            }
            non_blank_text(codex_items_text(xs@))
        },
        _ => None,
    }
}

/// The concatenated texts of content blocks.
pub open spec fn codex_items_text(items: Seq<JsonValue>) -> Seq<char>
    decreases items,
{
    if items.len() == 0 {
        seq![]
    } else {
        codex_items_text(items.drop_last()) + codex_item_piece(items.last())
    }
}

/// The text of one content block: its `text`, `content` or `delta` string,
/// else the text of its nested `content`; nothing for other block types.
pub open spec fn codex_item_piece(item: JsonValue) -> Seq<char>
    decreases item,
{
    if !codex_piece_kind(kind_of(item)) {
        seq![]
    } else {
        match string_at(item, seq!["/text"@, "/content"@, "/delta"@]) {
            Some(t) => t,
            None => match get_key(item, "content"@) {
                Some(c) => {
                    proof {
                        lemma_key_smaller(item, "content"@);
                    }
                    match codex_content_text(c) {
                        Some(x) => x,
                        None => seq![],
                    }
                },
                None => seq![],
            },
        }
    }
}

/// The content text of an optional value.
pub open spec fn then_content(o: Option<JsonValue>) -> Option<Seq<char>> {
    match o {
        Some(c) => codex_content_text(c),
        None => None,
    }
}

/// The text of an assistant message item (`message` or `agent_message`,
/// with no role other than `assistant`).
pub open spec fn codex_response_item_text(item: JsonValue) -> Option<Seq<char>> {
    let t = kind_of(item);
    if t != "message"@ && t != "agent_message"@ {
        None
    } else if (match as_str(get_key(item, "role"@)) { Some(r) => r != "assistant"@, None => false }) {
        None
    } else {
        match string_at(item, seq!["/text"@, "/message"@]) {
            Some(s) => Some(s),
            None => then_content(get_key(item, "content"@)),
        }
    }
}

/// The message item text of an optional value.
pub open spec fn then_item(o: Option<JsonValue>) -> Option<Seq<char>> {
    match o {
        Some(i) => codex_response_item_text(i),
        None => None,
    }
}

/// The first of two optional texts that is present.
pub open spec fn or_text(a: Option<Seq<char>>, b: Option<Seq<char>>) -> Option<Seq<char>> {
    if a is Some { a } else { b }
}

/// The non-blank form of an optional text.
pub open spec fn then_non_blank(o: Option<Seq<char>>) -> Option<Seq<char>> {
    match o {
        Some(s) => non_blank_text(s),
        None => None,
    }
}

/// The text of an `agent_message` event.
pub open spec fn codex_message_event_text(v: JsonValue) -> Option<Seq<char>> {
    or_text(string_at(v, seq!["/message"@, "/text"@, "/content"@]),
    or_text(then_item(get_key(v, "message"@)),
    or_text(then_content(pointer(v, "/message/content"@)),
    or_text(then_content(get_key(v, "content"@)),
        then_content(get_key(v, "message"@))))))
}

/// The answer of a completed task or turn.
pub open spec fn codex_task_text(v: JsonValue) -> Option<Seq<char>> {
    or_text(string_at(v, seq!["/last_agent_message"@, "/lastAgentMessage"@, "/message"@]),
    or_text(then_item(get_key(v, "last_agent_message"@)),
        then_content(get_key(v, "last_agent_message"@))))
}

fn content_text_exec(v: &JsonValue) -> (r: Option<String>)
    ensures
        match r {
            Some(s) => codex_content_text(*v) == Some(s@),
            None => codex_content_text(*v) is None,
        },
    decreases *v,
{
    match v {
        JsonValue::String(s) => Some(s.clone()),
        JsonValue::Array(xs) => {
            let mut out: Vec<char> = Vec::new();
            let mut i: usize = 0;
            assert(xs@.take(0) =~= Seq::<JsonValue>::empty());
            while i < xs.len()
                invariant
                    i <= xs.len(),
                    *v == JsonValue::Array(*xs),
                    out@ == codex_items_text(xs@.take(i as int)),
                decreases xs.len() - i,
            {
                proof {
                    assert(decreases_to!(*v => (*v)->Array_0));
                    assert(decreases_to!(*xs => xs@));
                    assert(decreases_to!(xs@ => xs@[i as int]));
                    assert(xs@.take(i + 1).drop_last() =~= xs@.take(i as int));
                    assert(xs@.take(i + 1).last() == xs@[i as int]);
                }
                let piece = item_piece_exec(&xs[i]);
                extend_chars(&mut out, &piece);
                i += 1;
            }
            assert(xs@.take(xs.len() as int) =~= xs@);
            non_blank(string_of(&out))
        },
        _ => None,
    }
}

fn item_piece_exec(item: &JsonValue) -> (r: Vec<char>)
    ensures
        r@ == codex_item_piece(*item),
    decreases *item,
{
    let t = str_member(item, "type");
    proof {
        reveal_strlit("");
        if t@.len() == 0 {
            assert(t@ =~= ""@);
        }
    }
    if !(t.len() == 0 || eq_str(&t, "output_text") || eq_str(&t, "final_answer") || eq_str(&t, "commentary")
        || eq_str(&t, "text")) {
        return Vec::new();
    }
    let paths: [&str; 3] = ["/text", "/content", "/delta"];
    assert(strs(paths@) =~= seq!["/text"@, "/content"@, "/delta"@]);
    if let Some(s) = string_at_paths(item, &paths) {
        return chars_of(s.as_str());
    }
    match get_member(item, &chars_of("content")) {
        Some(c) => {
            proof {
                lemma_key_smaller(*item, "content"@);
            }
            match content_text_exec(c) {
                Some(x) => chars_of(x.as_str()),
                None => Vec::new(),
            }
        },
        None => Vec::new(),
    }
}

fn then_content_exec(o: Option<&JsonValue>) -> (r: Option<String>)
    ensures
        match r {
            Some(s) => then_content(match o { Some(c) => Some(*c), None => None }) == Some(s@),
            None => then_content(match o { Some(c) => Some(*c), None => None }) is None,
        },
{
    match o {
        Some(c) => content_text_exec(c),
        None => None,
    }
}

fn response_item_text_exec(o: Option<&JsonValue>) -> (r: Option<String>)
    ensures
        match r {
            Some(s) => then_item(match o { Some(c) => Some(*c), None => None }) == Some(s@),
            None => then_item(match o { Some(c) => Some(*c), None => None }) is None,
        },
{
    let item = match o {
        Some(i) => i,
        None => return None,
    };
    let t = str_member(item, "type");
    if !eq_str(&t, "message") && !eq_str(&t, "agent_message") {
        return None;
    }
    if let Some(role) = opt_str_member(item, "role") {
        if !eq_str(&chars_of(role.as_str()), "assistant") {
            return None;
        }
    }
    let paths: [&str; 2] = ["/text", "/message"];
    assert(strs(paths@) =~= seq!["/text"@, "/message"@]);
    if let Some(s) = string_at_paths(item, &paths) {
        return Some(s);
    }
    then_content_exec(get_member(item, &chars_of("content")))
}

fn opt_key<'a>(v: &'a JsonValue, key: &str) -> (r: Option<&'a JsonValue>)
    ensures
        (match r { Some(c) => Some(*c), None => None }) == get_key(*v, key@),
{
    get_member(v, &chars_of(key))
}

fn message_event_text_exec(v: &JsonValue) -> (r: Option<String>)
    ensures
        match r {
            Some(s) => codex_message_event_text(*v) == Some(s@),
            None => codex_message_event_text(*v) is None,
        },
{
    let paths: [&str; 3] = ["/message", "/text", "/content"];
    assert(strs(paths@) =~= seq!["/message"@, "/text"@, "/content"@]);
    if let Some(s) = string_at_paths(v, &paths) {
        return Some(s);
    }
    if let Some(s) = response_item_text_exec(opt_key(v, "message")) {
        return Some(s);
    }
    let p = pointer_get(v, "/message/content");
    assert((match p { Some(c) => Some(*c), None => None }) == pointer(*v, "/message/content"@));
    if let Some(s) = then_content_exec(p) {
        return Some(s);
    }
    if let Some(s) = then_content_exec(opt_key(v, "content")) {
        return Some(s);
    }
    then_content_exec(opt_key(v, "message"))
}

fn task_text_exec(v: &JsonValue) -> (r: Option<String>)
    ensures
        match r {
            Some(s) => codex_task_text(*v) == Some(s@),
            None => codex_task_text(*v) is None,
        },
{
    let paths: [&str; 3] = ["/last_agent_message", "/lastAgentMessage", "/message"];
    assert(strs(paths@) =~= seq!["/last_agent_message"@, "/lastAgentMessage"@, "/message"@]);
    if let Some(s) = string_at_paths(v, &paths) {
        return Some(s);
    }
    if let Some(s) = response_item_text_exec(opt_key(v, "last_agent_message")) {
        return Some(s);
    }
    then_content_exec(opt_key(v, "last_agent_message"))
}

fn non_blank_opt(o: Option<String>) -> (r: Option<String>)
    ensures
        match r {
            Some(s) => then_non_blank(match o { Some(t) => Some(t@), None => None }) == Some(s@),
            None => then_non_blank(match o { Some(t) => Some(t@), None => None }) is None,
        },
{
    match o {
        Some(t) => non_blank(t),
        None => None,
    }
}

/// Event kinds that carry a completed task's answer.
pub open spec fn codex_task_kind(k: Seq<char>) -> bool {
    k == "task_complete"@ || k == "task.completed"@
}

/// Event kinds that carry a completed item.
pub open spec fn codex_item_kind(k: Seq<char>) -> bool {
    k == "item_completed"@ || k == "item.completed"@ || k == "raw_response_item"@ || k == "raw.response_item"@
}

/// A complete text event for a present text.
pub open spec fn text_event(o: Option<Seq<char>>) -> Seq<EventView> {
    match o {
        Some(t) => seq![EventView::Text(t, false)],
        None => seq![],
    }
}

/// The error message of a `stream_error` event.
pub open spec fn codex_error_message(v: JsonValue) -> Seq<char> {
    match string_at(v, seq!["/message"@, "/error/message"@, "/error"@, "/details"@]) {
        Some(m) => m,
        None => "codex stream error"@,
    }
}

/// The events of one line of Codex's JSON event stream: complete texts of
/// finished tasks, agent messages and completed items, tool calls, and
/// stream errors.
pub open spec fn codex_line_events(line: Option<JsonValue>) -> Seq<EventView> {
    match line {
        None => seq![],
        Some(v) => {
            let k = kind_of(v);
            if codex_task_kind(k) {
                text_event(then_non_blank(codex_task_text(v)))
            } else if k == "agent_message"@ || k == "agent.message"@ {
                text_event(then_non_blank(codex_message_event_text(v)))
            } else if codex_item_kind(k) {
                text_event(then_non_blank(then_item(get_key(v, "item"@))))
            } else if k == "tool_call"@ {
                seq![EventView::ToolUse(str_or_empty(v, "name"@), key_or_null(v, "arguments"@))]
            } else if k == "stream_error"@ {
                seq![EventView::Error(codex_error_message(v))]
            } else {
                seq![]
            }
        },
    }
}

fn push_text(out: &mut Vec<ProviderRuntimeEvent>, o: Option<String>)
    ensures
        events_view(final(out)@) == events_view(old(out)@) + text_event(match o { Some(t) => Some(t@), None => None }),
{
    let ghost before = events_view(out@);
    if let Some(t) = o {
        out.push(ProviderRuntimeEvent::Text { content: t, is_partial: false });
    }
    assert(events_view(out@) =~= before + text_event(match o { Some(t) => Some(t@), None => None }));
}

/// Decode one line of Codex's JSON event stream.
pub fn decode_codex_event_line_events(line: Option<JsonValue>) -> (out: Vec<ProviderRuntimeEvent>)
    ensures
        events_view(out@) == codex_line_events(line),
{
    let mut out: Vec<ProviderRuntimeEvent> = Vec::new();
    assert(events_view(out@) =~= seq![]);
    let v = match line {
        None => return out,
        Some(v) => v,
    };
    let ghost gv = v;
    let k = str_member(&v, "type");
    if eq_str(&k, "task_complete") || eq_str(&k, "task.completed") {
        push_text(&mut out, non_blank_opt(task_text_exec(&v)));
    } else if eq_str(&k, "agent_message") || eq_str(&k, "agent.message") {
        push_text(&mut out, non_blank_opt(message_event_text_exec(&v)));
    } else if eq_str(&k, "item_completed") || eq_str(&k, "item.completed") || eq_str(&k, "raw_response_item")
        || eq_str(&k, "raw.response_item") {
        push_text(&mut out, non_blank_opt(response_item_text_exec(opt_key(&v, "item"))));
    } else if eq_str(&k, "tool_call") {
        let name = string_of(&str_member(&v, "name"));
        let input = take_key_or_null(v, "arguments");
        out.push(ProviderRuntimeEvent::ToolUse { tool_name: name, input });
        assert(events_view(out@) =~= codex_line_events(Some(gv)));
    } else if eq_str(&k, "stream_error") {
        let paths: [&str; 4] = ["/message", "/error/message", "/error", "/details"];
        assert(strs(paths@) =~= seq!["/message"@, "/error/message"@, "/error"@, "/details"@]);
        let message = match string_at_paths(&v, &paths) {
            Some(m) => m,
            None => "codex stream error".to_owned(),
        };
        proof {
            reveal_strlit("codex stream error");
        }
        out.push(ProviderRuntimeEvent::Error { message });
        assert(events_view(out@) =~= codex_line_events(Some(gv)));
    }
    out
}

/// Event kinds that end a Codex run with its answer.
pub open spec fn codex_final_kind(k: Seq<char>) -> bool {
    codex_task_kind(k) || k == "turn_complete"@ || k == "turn.completed"@
}

/// Event kinds that stream a piece of the answer.
pub open spec fn codex_delta_kind(k: Seq<char>) -> bool {
    k == "agent_message_content_delta"@ || k == "output_text.delta"@
}

/// The last present text of two: `b` when it is present, else `a`.
pub open spec fn latest(a: Option<Seq<char>>, b: Option<Seq<char>>) -> Option<Seq<char>> {
    if b is Some { b } else { a }
}

/// Scan state of a Codex run's output: the last answer seen, and the
/// streamed text.
pub open spec fn codex_scan(vs: Seq<JsonValue>) -> (Option<Seq<char>>, Seq<char>)
    decreases vs.len(),
{
    if vs.len() == 0 {
        (None, seq![])
    } else {
        let (f, st) = codex_scan(vs.drop_last());
        let v = vs.last();
        let k = kind_of(v);
        if codex_final_kind(k) {
            (latest(f, then_non_blank(codex_task_text(v))), st)
        } else if k == "agent_message"@ || k == "agent.message"@ {
            (latest(f, then_non_blank(codex_message_event_text(v))), st)
        } else if codex_item_kind(k) {
            (latest(f, then_non_blank(then_item(get_key(v, "item"@)))), st)
        } else if codex_delta_kind(k) {
            match string_at(v, seq!["/delta"@, "/text"@, "/content"@, "/data/delta"@, "/data/text"@]) {
                Some(d) => (f, st + d),
                None => (f, st),
            }
        } else {
            (f, st)
        }
    }
}

/// The answer of a Codex run: its last answer, else the streamed text
/// unless blank.
pub open spec fn codex_final_text(vs: Seq<JsonValue>) -> Option<Seq<char>> {
    or_text(codex_scan(vs).0, non_blank_text(codex_scan(vs).1))
}

/// The answer a single Codex event carries, if any: the non-blank text of
/// a task or turn completion, of an agent message, or of a completed item.
pub open spec fn codex_answer(v: JsonValue) -> Option<Seq<char>> {
    let k = kind_of(v);
    if codex_final_kind(k) {
        then_non_blank(codex_task_text(v))
    } else if k == "agent_message"@ || k == "agent.message"@ {
        then_non_blank(codex_message_event_text(v))
    } else if codex_item_kind(k) {
        then_non_blank(then_item(get_key(v, "item"@)))
    } else {
        None
    }
}

/// Law: the last answer of a Codex run wins. Whatever came before, a run
/// that ends with an event carrying the answer `t` has the final text `t`;
/// and an event that carries no answer leaves an answer already found as
/// the final text.
pub proof fn law_codex_last_answer_wins(vs: Seq<JsonValue>, v: JsonValue)
    ensures
        codex_answer(v) matches Some(t) ==> codex_final_text(vs.push(v)) == Some(t),
        codex_answer(v) is None && codex_scan(vs).0 is Some ==> codex_final_text(vs.push(v)) == codex_final_text(vs),
{
    assert(vs.push(v).drop_last() =~= vs);
    assert(vs.push(v).last() == v);
}

fn keep_latest(f: Option<String>, o: Option<String>) -> (r: Option<String>)
    ensures
        (match r { Some(t) => Some(t@), None => None })
            == latest(match f { Some(t) => Some(t@), None => None }, match o { Some(t) => Some(t@), None => None }),
{
    match o {
        Some(t) => Some(t),
        None => f,
    }
}

/// The answer of a Codex run from its output lines that parse as JSON.
pub fn extract_codex_json_final_text(values: &Vec<JsonValue>) -> (r: Option<String>)
    ensures
        (match r { Some(t) => Some(t@), None => None }) == codex_final_text(values@),
{
    let mut f: Option<String> = None;
    let mut st: Vec<char> = Vec::new();
    let mut i: usize = 0;
    assert(values@.take(0) =~= Seq::<JsonValue>::empty());
    while i < values.len()
        invariant
            i <= values.len(),
            codex_scan(values@.take(i as int)) == ((match f { Some(t) => Some(t@), None => None }), st@),
        decreases values.len() - i,
    {
        proof {
            assert(values@.take(i + 1).drop_last() =~= values@.take(i as int));
            assert(values@.take(i + 1).last() == values@[i as int]);
        }
        let v = &values[i];
        let k = str_member(v, "type");
        if eq_str(&k, "task_complete") || eq_str(&k, "task.completed") || eq_str(&k, "turn_complete")
            || eq_str(&k, "turn.completed") {
            f = keep_latest(f, non_blank_opt(task_text_exec(v)));
        } else if eq_str(&k, "agent_message") || eq_str(&k, "agent.message") {
            f = keep_latest(f, non_blank_opt(message_event_text_exec(v)));
        } else if eq_str(&k, "item_completed") || eq_str(&k, "item.completed") || eq_str(&k, "raw_response_item")
            || eq_str(&k, "raw.response_item") {
            f = keep_latest(f, non_blank_opt(response_item_text_exec(opt_key(v, "item"))));
        } else if eq_str(&k, "agent_message_content_delta") || eq_str(&k, "output_text.delta") {
            let paths: [&str; 5] = ["/delta", "/text", "/content", "/data/delta", "/data/text"];
            assert(strs(paths@) =~= seq!["/delta"@, "/text"@, "/content"@, "/data/delta"@, "/data/text"@]);
            if let Some(d) = string_at_paths(v, &paths) {
                extend_chars(&mut st, &chars_of(d.as_str()));
            }
        }
        i += 1;
    }
    assert(values@.take(values.len() as int) =~= values@);
    match f {
        Some(t) => Some(t),
        None => non_blank(string_of(&st)),
    }
}

// ───────────────────────── copilot ─────────────────────────

/// Whether a member is present and not `null`.
pub open spec fn present(o: Option<JsonValue>) -> bool {
    match o {
        Some(JsonValue::Null) => false,
        Some(_) => true,
        None => false,
    }
}

/// Copilot marks sub-agent events with an `agentId` or a parent tool call;
/// they are timeline details, not the actor's answer.
pub open spec fn copilot_subagent(v: JsonValue) -> bool {
    present(get_key(v, "agentId"@)) || present(pointer(v, "/data/parentToolCallId"@))
}

/// Whether an assistant message is in a thinking or reasoning phase.
pub open spec fn copilot_phase_hidden(v: JsonValue) -> bool {
    match as_str(pointer(v, "/data/phase"@)) {
        Some(p) => ascii_lowercase(p) == "thinking"@ || ascii_lowercase(p) == "reasoning"@,
        None => false,
    }
}

/// Scan state of a Copilot run's output: the last visible root answer, and
/// the streamed text.
pub open spec fn copilot_scan(vs: Seq<JsonValue>) -> (Option<Seq<char>>, Seq<char>)
    decreases vs.len(),
{
    if vs.len() == 0 {
        (None, seq![])
    } else {
        let (f, st) = copilot_scan(vs.drop_last());
        let v = vs.last();
        let k = kind_of(v);
        if copilot_subagent(v) {
            (f, st)
        } else if k == "assistant.message"@ {
            if copilot_phase_hidden(v) {
                (f, st)
            } else {
                (latest(f, then_non_blank(string_at(v, seq!["/data/content"@, "/message/content"@, "/content"@]))), st)
            }
        } else if k == "assistant.message_delta"@ {
            match string_at(v, seq!["/data/deltaContent"@, "/deltaContent"@, "/delta"@]) {
                Some(d) => (f, st + d),
                None => (f, st),
            }
        } else {
            (f, st)
        }
    }
}

/// The answer of a Copilot run: its last visible root answer, else the
/// streamed text unless blank.
pub open spec fn copilot_final_text(vs: Seq<JsonValue>) -> Option<Seq<char>> {
    or_text(copilot_scan(vs).0, non_blank_text(copilot_scan(vs).1))
}

/// The answer a single Copilot event carries, if any: the non-blank
/// content of a root assistant message outside thinking and reasoning.
pub open spec fn copilot_answer(v: JsonValue) -> Option<Seq<char>> {
    if !copilot_subagent(v) && kind_of(v) == "assistant.message"@ && !copilot_phase_hidden(v) {
        then_non_blank(string_at(v, seq!["/data/content"@, "/message/content"@, "/content"@]))
    } else {
        None
    }
}

/// Law: the last visible root answer of a Copilot run wins, and sub-agent
/// events never change the answer.
pub proof fn law_copilot_last_answer_wins(vs: Seq<JsonValue>, v: JsonValue)
    ensures
        copilot_answer(v) matches Some(t) ==> copilot_final_text(vs.push(v)) == Some(t),
        copilot_subagent(v) ==> copilot_final_text(vs.push(v)) == copilot_final_text(vs),
        copilot_answer(v) is None && copilot_scan(vs).0 is Some ==> copilot_final_text(vs.push(v)) == copilot_final_text(vs),
{
    assert(vs.push(v).drop_last() =~= vs);
    assert(vs.push(v).last() == v);
}

fn present_exec(o: Option<&JsonValue>) -> (b: bool)
    ensures
        b == present(match o { Some(c) => Some(*c), None => None }),
{
    match o {
        Some(JsonValue::Null) => false,
        Some(_) => true,
        None => false,
    }
}

fn phase_hidden_exec(v: &JsonValue) -> (b: bool)
    ensures
        b == copilot_phase_hidden(*v),
{
    match pointer_get(v, "/data/phase") {
        Some(JsonValue::String(p)) => {
            let l = to_ascii_lowercase_chars(&chars_of(p.as_str()));
            eq_str(&l, "thinking") || eq_str(&l, "reasoning")
        },
        _ => false,
    }
}

/// The answer of a Copilot run from its output lines that parse as JSON.
pub fn extract_copilot_json_final_text(values: &Vec<JsonValue>) -> (r: Option<String>)
    ensures
        (match r { Some(t) => Some(t@), None => None }) == copilot_final_text(values@),
{
    let mut f: Option<String> = None;
    let mut st: Vec<char> = Vec::new();
    let mut i: usize = 0;
    assert(values@.take(0) =~= Seq::<JsonValue>::empty());
    while i < values.len()
        invariant
            i <= values.len(),
            copilot_scan(values@.take(i as int)) == ((match f { Some(t) => Some(t@), None => None }), st@),
        decreases values.len() - i,
    {
        proof {
            assert(values@.take(i + 1).drop_last() =~= values@.take(i as int));
            assert(values@.take(i + 1).last() == values@[i as int]);
        }
        let v = &values[i];
        let sub = present_exec(opt_key(v, "agentId")) || present_exec(pointer_get(v, "/data/parentToolCallId"));
        if !sub {
            let k = str_member(v, "type");
            if eq_str(&k, "assistant.message") {
                if !phase_hidden_exec(v) {
                    let paths: [&str; 3] = ["/data/content", "/message/content", "/content"];
                    assert(strs(paths@) =~= seq!["/data/content"@, "/message/content"@, "/content"@]);
                    f = keep_latest(f, non_blank_opt(string_at_paths(v, &paths)));
                }
            } else if eq_str(&k, "assistant.message_delta") {
                let paths: [&str; 3] = ["/data/deltaContent", "/deltaContent", "/delta"];
                assert(strs(paths@) =~= seq!["/data/deltaContent"@, "/deltaContent"@, "/delta"@]);
                if let Some(d) = string_at_paths(v, &paths) {
                    extend_chars(&mut st, &chars_of(d.as_str()));
                }
            }
        }
        i += 1;
    }
    assert(values@.take(values.len() as int) =~= values@);
    match f {
        Some(t) => Some(t),
        None => non_blank(string_of(&st)),
    }
}

// ───────────────────────── opencode ─────────────────────────

/// Part types whose text is part of an OpenCode answer (an untyped part
/// counts).
pub open spec fn opencode_part_kind(t: Seq<char>) -> bool {
    t.len() == 0 || t == "text"@ || t == "markdown"@ || t == "content"@ || t == "assistant_message"@
}

/// The text of an OpenCode part: its `text`, `content` or `message`
/// string, else the text of its nested `content`.
pub open spec fn opencode_part_text(part: JsonValue) -> Option<Seq<char>>
    decreases part,
{
    if !opencode_part_kind(kind_of(part)) {
        None
    } else {
        match string_at(part, seq!["/text"@, "/content"@, "/message"@]) {
            Some(s) => Some(s),
            None => match get_key(part, "content"@) {
                Some(c) => {
                    proof {
                        lemma_key_smaller(part, "content"@);
                    }
                    opencode_content_text(c)
                },
                None => None,
            },
        }
    }
}

/// The text of OpenCode content: a string as is; for a list, its parts'
/// texts concatenated, unless blank.
pub open spec fn opencode_content_text(v: JsonValue) -> Option<Seq<char>>
    decreases v,
{
    match v {
        JsonValue::String(s) => Some(s@),
        JsonValue::Array(xs) => {
            proof {
                assert(decreases_to!(v => xs));
                assert(decreases_to!(xs => xs@));
            }
            non_blank_text(opencode_parts_concat(xs@))
        },
        _ => None,
    }
}

/// The concatenated texts of parts.
pub open spec fn opencode_parts_concat(items: Seq<JsonValue>) -> Seq<char>
    decreases items,
{
    if items.len() == 0 {
        seq![]
    } else {
        opencode_parts_concat(items.drop_last()) + match opencode_part_text(items.last()) {
            Some(t) => t,
            None => seq![],
        }
    }
}

/// The text of a list of parts, unless blank.
pub open spec fn opencode_parts_text(v: JsonValue) -> Option<Seq<char>> {
    match v {
        JsonValue::Array(xs) => non_blank_text(opencode_parts_concat(xs@)),
        _ => None,
    }
}

/// The text of an OpenCode message: its `text`, `content` or `message`
/// string, else its parts' text, else its content's text.
pub open spec fn opencode_message_text(info: JsonValue) -> Option<Seq<char>> {
    or_text(string_at(info, seq!["/text"@, "/content"@, "/message"@]),
    or_text(match get_key(info, "parts"@) { Some(p) => opencode_parts_text(p), None => None },
        match get_key(info, "content"@) { Some(c) => opencode_content_text(c), None => None }))
}

/// A message without a role, or with the `assistant` role.
pub open spec fn opencode_role_allows(info: JsonValue) -> bool {
    match as_str(get_key(info, "role"@)) {
        Some(r) => r == "assistant"@,
        None => true,
    }
}

/// The first present of a pointer and a member.
pub open spec fn or_value(a: Option<JsonValue>, b: Option<JsonValue>) -> Option<JsonValue> {
    if a is Some { a } else { b }
}

/// The views of id/text pairs.
pub open spec fn pair_views(ps: Seq<(String, String)>) -> Seq<(Seq<char>, Seq<char>)> {
    ps.map_values(|p: (String, String)| (p.0@, p.1@))
}

/// Index of the first pair with id `id`.
pub open spec fn first_key(ps: Seq<(Seq<char>, Seq<char>)>, id: Seq<char>) -> Option<int>
    decreases ps.len(),
{
    if ps.len() == 0 {
        None
    } else if ps[0].0 == id {
        Some(0)
    } else {
        match first_key(ps.skip(1), id) {
            Some(i) => Some(i + 1),
            None => None,
        }
    }
}

/// The pairs with the text of id `id` replaced, or the pair appended.
pub open spec fn upserted(ps: Seq<(Seq<char>, Seq<char>)>, id: Seq<char>, t: Seq<char>) -> Seq<(Seq<char>, Seq<char>)> {
    match first_key(ps, id) {
        Some(i) => ps.update(i, (ps[i].0, t)),
        None => ps.push((id, t)),
    }
}

/// The texts of the pairs, concatenated in order.
pub open spec fn concat_texts(ps: Seq<(Seq<char>, Seq<char>)>) -> Seq<char>
    decreases ps.len(),
{
    if ps.len() == 0 {
        seq![]
    } else {
        concat_texts(ps.drop_last()) + ps.last().1
    }
}

/// Scan state of an OpenCode run's output: the last assistant message
/// text, the latest text of each part (by id, in first-seen order), and
/// the streamed deltas.
pub open spec fn opencode_scan(vs: Seq<JsonValue>) -> (Option<Seq<char>>, Seq<(Seq<char>, Seq<char>)>, Seq<char>)
    decreases vs.len(),
{
    if vs.len() == 0 {
        (None, seq![], seq![])
    } else {
        let (f, ps, st) = opencode_scan(vs.drop_last());
        let v = vs.last();
        let k = kind_of(v);
        if k == "message.updated"@ {
            match or_value(pointer(v, "/properties/info"@), get_key(v, "info"@)) {
                Some(info) => if !opencode_role_allows(info) {
                    (f, ps, st)
                } else {
                    (latest(f, then_non_blank(opencode_message_text(info))), ps, st)
                },
                None => (f, ps, st),
            }
        } else if k == "message.part.updated"@ || k == "message.part.delta"@ {
            match or_value(pointer(v, "/properties/part"@), get_key(v, "part"@)) {
                Some(part) => match string_at(part, seq!["/delta"@, "/textDelta"@]) {
                    Some(d) => (f, ps, st + d),
                    None => match then_non_blank(opencode_part_text(part)) {
                        Some(t) => {
                            let id = match string_at(part, seq!["/id"@, "/partID"@, "/partId"@]) {
                                Some(i) => i,
                                None => "part_"@ + decimal(ps.len()),
                            };
                            (f, upserted(ps, id, t), st)
                        },
                        None => (f, ps, st),
                    },
                },
                None => (f, ps, st),
            }
        } else {
            (f, ps, st)
        }
    }
}

/// The answer of an OpenCode run: its last assistant message text, else
/// its parts' texts joined, else its streamed deltas; none when blank.
pub open spec fn opencode_final_text(vs: Seq<JsonValue>) -> Option<Seq<char>> {
    let (f, ps, st) = opencode_scan(vs);
    or_text(f, or_text(non_blank_text(concat_texts(ps)), non_blank_text(st)))
}

/// The answer a single OpenCode event carries, if any: the non-blank text
/// of an updated message whose role is allowed.
pub open spec fn opencode_answer(v: JsonValue) -> Option<Seq<char>> {
    if kind_of(v) == "message.updated"@ {
        match or_value(pointer(v, "/properties/info"@), get_key(v, "info"@)) {
            Some(info) => if opencode_role_allows(info) { then_non_blank(opencode_message_text(info)) } else { None },
            None => None,
        }
    } else {
        None
    }
}

/// Law: the last assistant message of an OpenCode run wins over every
/// earlier message, part text and delta.
pub proof fn law_opencode_last_answer_wins(vs: Seq<JsonValue>, v: JsonValue)
    ensures
        opencode_answer(v) matches Some(t) ==> opencode_final_text(vs.push(v)) == Some(t),
{
    assert(vs.push(v).drop_last() =~= vs);
    assert(vs.push(v).last() == v);
}

fn opencode_part_text_exec(part: &JsonValue) -> (r: Option<String>)
    ensures
        (match r { Some(t) => Some(t@), None => None }) == opencode_part_text(*part),
    decreases *part,
{
    let t = str_member(part, "type");
    if !(t.len() == 0 || eq_str(&t, "text") || eq_str(&t, "markdown") || eq_str(&t, "content")
        || eq_str(&t, "assistant_message")) {
        return None;
    }
    let paths: [&str; 3] = ["/text", "/content", "/message"];
    assert(strs(paths@) =~= seq!["/text"@, "/content"@, "/message"@]);
    if let Some(s) = string_at_paths(part, &paths) {
        return Some(s);
    }
    match get_member(part, &chars_of("content")) {
        Some(c) => {
            proof {
                lemma_key_smaller(*part, "content"@);
            }
            opencode_content_text_exec(c)
        },
        None => None,
    }
}

fn opencode_parts_concat_exec(v: &JsonValue, xs: &Vec<JsonValue>) -> (out: Vec<char>)
    requires
        *v == JsonValue::Array(*xs),
    ensures
        out@ == opencode_parts_concat(xs@),
    decreases *v, 0int,
{
    let mut out: Vec<char> = Vec::new();
    let mut i: usize = 0;
    assert(xs@.take(0) =~= Seq::<JsonValue>::empty());
    while i < xs.len()
        invariant
            i <= xs.len(),
            *v == JsonValue::Array(*xs),
            out@ == opencode_parts_concat(xs@.take(i as int)),
        decreases xs.len() - i,
    {
        proof {
            assert(decreases_to!(*v => (*v)->Array_0));
            assert(decreases_to!(*xs => xs@));
            assert(decreases_to!(xs@ => xs@[i as int]));
            assert(xs@.take(i + 1).drop_last() =~= xs@.take(i as int));
            assert(xs@.take(i + 1).last() == xs@[i as int]);
        }
        if let Some(t) = opencode_part_text_exec(&xs[i]) {
            extend_chars(&mut out, &chars_of(t.as_str()));
        }
        i += 1;
    }
    assert(xs@.take(xs.len() as int) =~= xs@);
    out
}

fn opencode_content_text_exec(v: &JsonValue) -> (r: Option<String>)
    ensures
        (match r { Some(t) => Some(t@), None => None }) == opencode_content_text(*v),
    decreases *v, 1int,
{
    match v {
        JsonValue::String(s) => Some(s.clone()),
        JsonValue::Array(xs) => non_blank(string_of(&opencode_parts_concat_exec(v, xs))),
        _ => None,
    }
}

fn opencode_message_text_exec(info: &JsonValue) -> (r: Option<String>)
    ensures
        (match r { Some(t) => Some(t@), None => None }) == opencode_message_text(*info),
{
    let paths: [&str; 3] = ["/text", "/content", "/message"];
    assert(strs(paths@) =~= seq!["/text"@, "/content"@, "/message"@]);
    if let Some(s) = string_at_paths(info, &paths) {
        return Some(s);
    }
    if let Some(p) = opt_key(info, "parts") {
        if let JsonValue::Array(xs) = p {
            if let Some(s) = non_blank(string_of(&opencode_parts_concat_exec(p, xs))) {
                return Some(s);
            }
        }
    }
    match opt_key(info, "content") {
        Some(c) => opencode_content_text_exec(c),
        None => None,
    }
}

fn or_value_exec<'a>(a: Option<&'a JsonValue>, b: Option<&'a JsonValue>) -> (r: Option<&'a JsonValue>)
    ensures
        (match r { Some(c) => Some(*c), None => None })
            == or_value(match a { Some(c) => Some(*c), None => None }, match b { Some(c) => Some(*c), None => None }),
{
    if a.is_some() { a } else { b }
}

proof fn lemma_first_key_range(ps: Seq<(Seq<char>, Seq<char>)>, id: Seq<char>)
    ensures
        first_key(ps, id) matches Some(i) ==> 0 <= i < ps.len(),
    decreases ps.len(),
{
    if ps.len() > 0 {
        lemma_first_key_range(ps.skip(1), id);
    }
}

proof fn lemma_first_key_views(ps: Seq<(String, String)>, id: Seq<char>)
    ensures
        first_with_key(ps, id) == first_key(pair_views(ps), id),
    decreases ps.len(),
{
    if ps.len() > 0 {
        lemma_first_key_views(ps.skip(1), id);
        assert(pair_views(ps.skip(1)) =~= pair_views(ps).skip(1));
    }
}

/// The answer of an OpenCode run from its output lines that parse as JSON.
pub fn extract_opencode_json_final_text(values: &Vec<JsonValue>) -> (r: Option<String>)
    ensures
        (match r { Some(t) => Some(t@), None => None }) == opencode_final_text(values@),
{
    let mut f: Option<String> = None;
    let mut parts: Vec<(String, String)> = Vec::new();
    let mut st: Vec<char> = Vec::new();
    let mut i: usize = 0;
    assert(values@.take(0) =~= Seq::<JsonValue>::empty());
    assert(pair_views(parts@) =~= seq![]);
    while i < values.len()
        invariant
            i <= values.len(),
            opencode_scan(values@.take(i as int))
                == ((match f { Some(t) => Some(t@), None => None }), pair_views(parts@), st@),
        decreases values.len() - i,
    {
        proof {
            assert(values@.take(i + 1).drop_last() =~= values@.take(i as int));
            assert(values@.take(i + 1).last() == values@[i as int]);
        }
        let v = &values[i];
        let k = str_member(v, "type");
        if eq_str(&k, "message.updated") {
            let info = or_value_exec(pointer_get(v, "/properties/info"), opt_key(v, "info"));
            if let Some(info) = info {
                let allows = match opt_str_member(info, "role") {
                    Some(r) => eq_str(&chars_of(r.as_str()), "assistant"),
                    None => true,
                };
                if allows {
                    f = keep_latest(f, non_blank_opt(opencode_message_text_exec(info)));
                }
            }
        } else if eq_str(&k, "message.part.updated") || eq_str(&k, "message.part.delta") {
            let part = or_value_exec(pointer_get(v, "/properties/part"), opt_key(v, "part"));
            if let Some(part) = part {
                let dpaths: [&str; 2] = ["/delta", "/textDelta"];
                assert(strs(dpaths@) =~= seq!["/delta"@, "/textDelta"@]);
                if let Some(d) = string_at_paths(part, &dpaths) {
                    extend_chars(&mut st, &chars_of(d.as_str()));
                } else if let Some(t) = non_blank_opt(opencode_part_text_exec(part)) {
                    let ipaths: [&str; 3] = ["/id", "/partID", "/partId"];
                    assert(strs(ipaths@) =~= seq!["/id"@, "/partID"@, "/partId"@]);
                    let id = match string_at_paths(part, &ipaths) {
                        Some(x) => x,
                        None => {
                            let mut n: Vec<char> = Vec::new();
                            extend_str(&mut n, "part_");
                            push_decimal(&mut n, parts.len() as u64);
                            string_of(&n)
                        },
                    };
                    let ghost before = parts@;
                    let ghost idv = id@;
                    let ghost tv = t@;
                    upsert_part_text(&mut parts, id, t);
                    proof {
                        lemma_first_key_views(before, idv);
                        lemma_first_key_range(pair_views(before), idv);
                        match first_with_key(before, idv) {
                            Some(x) => {
                                assert(parts@ == before.update(x, (before[x].0, t)));
                                assert(pair_views(parts@) =~= pair_views(before).update(x, (before[x].0@, tv)));
                            },
                            None => {
                                assert(pair_views(parts@) =~= pair_views(before).push((idv, tv)));
                            },
                        }
                        assert(pair_views(parts@) =~= upserted(pair_views(before), idv, tv));
                    }
                }
            }
        }
        i += 1;
    }
    assert(values@.take(values.len() as int) =~= values@);
    if let Some(t) = f {
        return Some(t);
    }
    let mut joined: Vec<char> = Vec::new();
    let mut j: usize = 0;
    assert(pair_views(parts@).take(0) =~= Seq::<(Seq<char>, Seq<char>)>::empty());
    while j < parts.len()
        invariant
            j <= parts.len(),
            joined@ == concat_texts(pair_views(parts@).take(j as int)),
        decreases parts.len() - j,
    {
        proof {
            assert(pair_views(parts@).take(j + 1).drop_last() =~= pair_views(parts@).take(j as int));
        }
        extend_chars(&mut joined, &chars_of(parts[j].1.as_str()));
        j += 1;
    }
    assert(pair_views(parts@).take(parts.len() as int) =~= pair_views(parts@));
    if let Some(t) = non_blank(string_of(&joined)) {
        return Some(t);
    }
    non_blank(string_of(&st))
}

} // verus!
