//! The prompt envelope: per-turn memory, runtime context and the user
//! message as labelled sections, empty ones dropped, the user message last.

use vstd::prelude::*;

use crate::text::{chars_of, extend_str, is_blank, join, join_chars, string_of, trim, trim_chars};

verus! {

/// A named section of an assembled prompt.
#[derive(Debug, Clone, PartialEq, Eq)]
pub struct PromptSection {
    pub name: String,
    /// Why the section is exempt from the context budget.
    pub exempt_reason: String,
    pub content: String,
}

/// What the envelope is composed from; every field may be empty.
#[derive(Debug, Clone)]
pub struct EnvelopeInput<'a> {
    pub bootstrap_memory: &'a str,
    pub turn_memory: &'a str,
    /// Dynamic runtime facts for this turn, such as the local wall clock.
    pub runtime_context: &'a str,
    pub user_message: &'a str,
}

impl<'a> Default for EnvelopeInput<'a> {
    fn default() -> (e: Self)
        ensures
            e.bootstrap_memory@ == Seq::<char>::empty(),
            e.turn_memory@ == Seq::<char>::empty(),
            e.runtime_context@ == Seq::<char>::empty(),
            e.user_message@ == Seq::<char>::empty(),
    {
        proof {
            reveal_strlit("");
        }
        EnvelopeInput { bootstrap_memory: "", turn_memory: "", runtime_context: "", user_message: "" }
    }
}

/// The exemption reason of every envelope section.
pub open spec fn envelope_reason() -> Seq<char> {
    "legacy envelope path"@
}

/// A section as (name, content).
pub open spec fn named(name: Seq<char>, content: Seq<char>) -> (Seq<char>, Seq<char>) {
    (name, content)
}

/// The memory and context sections that are kept: each trimmed, dropped
/// when nothing remains.
pub open spec fn optional_sections(input: EnvelopeInput) -> Seq<(Seq<char>, Seq<char>)> {
    let b = trim(input.bootstrap_memory@);
    let t = trim(input.turn_memory@);
    let r = trim(input.runtime_context@);
    (if trim(b).len() == 0 { seq![] } else { seq![named("bootstrap_memory"@, b)] })
        + (if trim(t).len() == 0 { seq![] } else { seq![named("turn_memory"@, t)] })
        + (if trim(r).len() == 0 { seq![] } else { seq![named("runtime_context"@, r)] })
}

/// All sections of the envelope, the user message always last (an empty
/// message still gets its delimiter).
pub open spec fn envelope_sections(input: EnvelopeInput) -> Seq<(Seq<char>, Seq<char>)> {
    optional_sections(input).push(named("user_message"@, "=== User message ===\n"@ + input.user_message@))
}

/// The (name, content) pairs of sections.
pub open spec fn section_pairs(s: Seq<PromptSection>) -> Seq<(Seq<char>, Seq<char>)> {
    s.map_values(|p: PromptSection| (p.name@, p.content@))
}

/// The contents of a list of (name, content) pairs.
pub open spec fn contents(s: Seq<(Seq<char>, Seq<char>)>) -> Seq<Seq<char>> {
    s.map_values(|p: (Seq<char>, Seq<char>)| p.1)
}

fn push_section(sections: &mut Vec<PromptSection>, name: &str, content: Vec<char>)
    ensures
        final(sections)@.len() == old(sections)@.len() + 1,
        section_pairs(final(sections)@) == section_pairs(old(sections)@).push((name@, content@)),
        final(sections)@.last().exempt_reason@ == envelope_reason(),
        forall|i: int| 0 <= i < old(sections)@.len() ==> final(sections)@[i] == old(sections)@[i],
{
    let ghost before = sections@;
    sections.push(PromptSection {
        name: name.to_owned(),
        exempt_reason: "legacy envelope path".to_owned(),
        content: string_of(&content),
    });
    assert(section_pairs(sections@) =~= section_pairs(before).push((name@, content@)));
}

fn push_nonempty(sections: &mut Vec<PromptSection>, name: &str, content: Vec<char>)
    ensures
        trim(content@).len() == 0 ==> final(sections)@ == old(sections)@,
        trim(content@).len() != 0 ==> section_pairs(final(sections)@) == section_pairs(old(sections)@).push((name@, content@)),
        forall|i: int| 0 <= i < final(sections)@.len() ==> final(sections)@[i].exempt_reason@ == envelope_reason()
            || (i < old(sections)@.len() && final(sections)@[i] == old(sections)@[i]),
{
    if is_blank(&content) {
        return;
    }
    push_section(sections, name, content);
}

/// Compose the prompt text and its sections: bootstrap memory, turn
/// memory and runtime context (each trimmed, dropped when blank), then the
/// user message under `=== User message ===`; the text is the sections'
/// contents joined by blank lines.
pub fn compose_prompt(input: &EnvelopeInput) -> (out: (String, Vec<PromptSection>))
    ensures
        section_pairs(out.1@) == envelope_sections(*input),
        forall|i: int| 0 <= i < out.1@.len() ==> (#[trigger] out.1@[i]).exempt_reason@ == envelope_reason(),
        out.0@ == join(contents(envelope_sections(*input)), "\n\n"@),
{
    let mut sections: Vec<PromptSection> = Vec::new();
    let b = trim_chars(&chars_of(input.bootstrap_memory));
    push_nonempty(&mut sections, "bootstrap_memory", b);
    let t = trim_chars(&chars_of(input.turn_memory));
    push_nonempty(&mut sections, "turn_memory", t);
    let r = trim_chars(&chars_of(input.runtime_context));
    push_nonempty(&mut sections, "runtime_context", r);
    let mut u: Vec<char> = Vec::new();
    extend_str(&mut u, "=== User message ===\n");
    extend_str(&mut u, input.user_message);
    push_section(&mut sections, "user_message", u);
    assert(section_pairs(sections@) =~= envelope_sections(*input));
    let mut parts: Vec<Vec<char>> = Vec::new();
    let mut i: usize = 0;
    while i < sections.len()
        invariant
            i <= sections.len(),
            parts@.map_values(|l: Vec<char>| l@) == contents(section_pairs(sections@.take(i as int))),
        decreases sections.len() - i,
    {
        let ghost before = parts@;
        parts.push(chars_of(sections[i].content.as_str()));
        proof {
            assert(parts@.map_values(|l: Vec<char>| l@) =~= before.map_values(|l: Vec<char>| l@).push(sections@[i as int].content@));
            assert(contents(section_pairs(sections@.take(i + 1))) =~= contents(section_pairs(sections@.take(i as int))).push(sections@[i as int].content@));
        }
        i += 1;
    }
    assert(sections@.take(sections.len() as int) =~= sections@);
    let mut sep: Vec<char> = Vec::new();
    extend_str(&mut sep, "\n\n");
    let body = join_chars(&parts, &sep);
    (string_of(&body), sections)
}

} // verus!
