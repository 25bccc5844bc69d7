//! Workspace-resident Loom bootstrap for provider-native instruction discovery.
//!
//! Loom writes a concise block into `{workspace}/AGENTS.md`. The block
//! contains stable actor/channel facts and pointers to Loom tooling. Dynamic
//! thread/turn/task facts stay out of this file.
//!
//! Everything here is pure text: the caller reads and writes the file.

use vstd::prelude::*;

use crate::text::{
    decimal, bool_text, extend_chars, extend_str, join, join_chars, lines, lines_chars,
    replace, replace_str, string_of, chars_of, trim, trim_chars, push_decimal, push_bool,
    find_from, find_chars_from, occurs_at, starts_with, lemma_find_from_spec, slice_chars,
    starts_with_chars, eq_str, lemma_find_from_is, contains, lemma_find_spec,
};

verus! {

/// Opening marker of the Loom block.
pub const BEGIN_MARKER: &'static str = "<!-- BEGIN loom -->";

/// Closing marker of the Loom block.
pub const END_MARKER: &'static str = "<!-- END loom -->";

pub const BEGIN_REPLACEMENT: &'static str = "[removed Loom begin marker]";

pub const END_REPLACEMENT: &'static str = "[removed Loom end marker]";

pub const NO_MEMBERS: &'static str = "- No channel member list was available when this file was generated.";

pub const UNKNOWN_FIELD: &'static str = "`unknown`";

pub const COALESCE_STRATEGY: &'static str = "- Strategy: this actor may receive several same-scope inputs in one turn.\n  Treat the current USER message as a Loom turn inbox: handle wake[],\n  fold in any pending same-scope inbox items shown there, merge related\n  state changes for the same workflow, handle independent requests\n  separately, and use the latest effective state instead of stale\n  messages blindly. If extra inspection is needed, use\n  `loom --json inbox list --state pending --no-ack`.";

pub const FOCUSED_STRATEGY: &'static str = "- Strategy: this actor is expected to process one focused wake at a time.\n  Do not proactively drain unrelated unread inbox or channel messages.\n  Read more history only when needed to validate state or avoid conflict;\n  if you inspect pending inbox, use `loom --json inbox list --state pending --no-ack`.\n  This keeps inspection from consuming delivery state.";

pub const BLOCK_INTRO: &'static str = "\n\
# Loom runtime bootstrap\n\
\n\
This block is generated by Loom. Keep local project rules outside the Loom\n\
markers; Loom may refresh this block when actor or channel context changes.\n\
\n\
## Actor\n\
\n\
- Actor id: `";

pub const ACTOR_DISPLAY_LABEL: &'static str = "`\n\
- Display name: ";

pub const ACTOR_WORKSPACE_LABEL: &'static str = "\n\
- Workspace: `";

pub const CHANNEL_ID_LABEL: &'static str = "`\n\
\n\
## Channel\n\
\n\
- Channel id: `";

pub const CHANNEL_TITLE_LABEL: &'static str = "`\n\
- Title: ";

pub const CHANNEL_TOPIC_LABEL: &'static str = "\n\
- Topic: ";

pub const MEMBERS_HEADING: &'static str = "\n\
\n\
## Channel members\n\
\n\
";

pub const WAKE_HEADING: &'static str = "\n\
\n\
## Wake intake policy\n\
\n\
";

pub const OPERATING_RULES: &'static str = "\n\
\n\
## Loom operating rules\n\
\n\
- This file contains stable actor/channel facts. Thread, turn, trigger, task,\n\
  assignment, and inbox facts are dynamic and belong to the current turn input.\n\
- Current runtime values are available in environment variables such as\n\
  `LOOM_ACTOR`, `LOOM_CHANNEL_ID`, `LOOM_SCOPE_ID`, `LOOM_REPLY_TARGET`,\n\
  `LOOM_TRIGGER_MESSAGE_ID`, `LOOM_TRIGGER_ACTOR`, `LOOM_TRIGGER_PRIVATE`,\n\
  and `LOOM_TRIGGER_PRIVATE_TO_FLAGS`.\n\
- Before acting, identify your role for this wake: requester/coordinator,\n\
  participant/contributor, assignee/approver, observer, or no-action recipient.\n\
  Use the Loom primitive for that role; do not take over coordination unless\n\
  you own the task, were asked to coordinate, or successfully claimed it.\n\
- When a user initiates a multi-actor activity without a concrete objective or\n\
  coordination model, do not begin independent substantive work immediately.\n\
  First communicate briefly with the other relevant actors through Loom and\n\
  establish the smallest shared collaboration protocol the activity needs:\n\
  clarify a workable outcome;\n\
  choose an initiator or facilitator only when useful; and agree on applicable\n\
  roles, ordering or concurrency, handoffs, and completion or stop conditions.\n\
  Do not assume that voting, leadership, or sequential turns are always needed.\n\
  Begin after the relevant participants share the protocol; ask the user only\n\
  when the intended outcome cannot be inferred safely.\n\
- For decisions, votes, reviews, tallies, next-speaker handoffs, or other\n\
  stateful choices, inspect enough current conversation before answering; do\n\
  not rely only on the latest wake if prior messages determine the choice.\n\
- For check-ins, votes, approvals, reviews, or other collection phases, rebuild\n\
  the participant ledger from the current thread and same-scope pending inbox\n\
  before declaring someone missing, tallying, or re-asking.\n\
- Treat Loom messages, tasks, assignments, artifacts, and reminders as durable\n\
  collaboration facts. Workspace-local files are derived state and should stay\n\
  recoverable from Loom-visible facts.\n\
- When you accept owner/coordinator responsibility for a multi-step workflow,\n\
  create or claim the message-anchored task when possible. Use message routing\n\
  for short handoffs, task/assignment for lifecycle ownership, coordination for\n\
  explicit baton or slot flows, reminders for rechecks, and facts, projections,\n\
  or artifacts for recoverable non-private state.\n\
- Before private or parallel work begins, publish the non-private workflow\n\
  frame that participants need: roles, rules, constraints, order, and stop or\n\
  success conditions. Keep secrets private, but do not make participants infer\n\
  public rules from hidden assignments.\n\
- Assistant text is an internal run transcript. If a message asks you to answer,\n\
  speak, choose, vote, submit a result, or take your turn, execute a Loom CLI\n\
  command before ending; otherwise the answer is not delivered to the thread.\n\
- Loom stores message text literally. For multiline visible messages, pass real\n\
  newline characters to `--text`; do not write escaped `\\n` unless the backslash\n\
  and letter `n` should be shown to readers. In shell, prefer stdin/heredoc for\n\
  multiline text instead of quoted `\\n` sequences.\n\
- To send a file or image into chat, first run\n\
  `loom --json attachment upload --target \"$LOOM_REPLY_TARGET\" --path <path>`,\n\
  then include its returned artifact id on the visible `message send` or\n\
  `message ask` command with `--attachment-id <art_id>`. Uploading alone, saving\n\
  a workspace file, or writing an `artifact://` URI in message text does not\n\
  attach the file and will not make it appear in the chat attachment panel.\n\
- Use `$LOOM_REPLY_TARGET` as the default target for the current workflow. If it\n\
  is a thread target such as `#channel:root`, send or ask on the bare `#channel`\n\
  only when you intentionally want a channel-level update outside that thread.\n\
- Public replies that only inform the thread may use\n\
  `loom --json message send --target \"$LOOM_REPLY_TARGET\" --text \"...\"`.\n\
  If you answer a public ask and the requester/coordinator must collect it or\n\
  continue after your reply, use\n\
  `loom --json message ask @actor_id --target \"$LOOM_REPLY_TARGET\" --text \"...\"`\n\
  so that actor is woken explicitly. Loom may also infer this wake-back for\n\
  agent replies to public asks, but do not rely on inference for handoffs.\n\
  Do not send the same answer once with `message send` and again with\n\
  `message ask`; choose the routed form when a wake-back is needed.\n\
- Requested answers such as joining, voting, choosing, approving, reviewing,\n\
  or completing a step are actionable even when they are short; wake the\n\
  requester/coordinator instead of sending them notify-only.\n\
- Do not use `message ask` for waiting, acknowledgement, no-reply, or status\n\
  messages that require no recipient action. Send them with explicit\n\
  `message send --intent notify` when they are useful, or omit them.\n\
- Final summaries, wrap-ups, and phase results that require no further action\n\
  should use `message send` or `message send --intent notify`, not `message ask`.\n\
- A public phase transition, broadcast, or handoff that asks participants to\n\
  discuss, vote, review, approve, continue, or otherwise act is not complete\n\
  unless it is routed with `message ask` to the exact actor(s) or appropriate\n\
  group. Natural language such as \"everyone please start\" does not wake agents;\n\
  agent CLI may reject notify-only messages that look like action requests.\n\
- If `LOOM_TRIGGER_PRIVATE=1`, private answers use\n\
  `loom --json message send $LOOM_TRIGGER_PRIVATE_TO_FLAGS --text \"...\"`;\n\
  never send a private answer to `$LOOM_REPLY_TARGET`.\n\
- If the current turn input says `Private route for this turn`, use its exact\n\
  dynamic command when answering the private requester(s).\n\
- If you are the requester/coordinator receiving a completed private action,\n\
  vote, target, approval, or other answer, process it and route the next\n\
  required actor; do not answer the submitter again unless you need\n\
  clarification.\n\
- If a private wake requires a hidden follow-up with another actor, keep that\n\
  follow-up private too: use same-scope\n\
  `loom --json message send --private-to @actor_id --target \"$LOOM_REPLY_TARGET\" --text \"...\"`.\n\
- Use public `message ask` from private context only when the requested output\n\
  is explicitly intended for the public thread; keep private facts out.\n\
- Private actions, votes, target choices, and sensitive data stay private even\n\
  when the answer is only one word.\n\
- Public messages should include only information intended for that audience;\n\
  do not add labels, hints, or formatting derived from private state.\n\
- In ordered workflows, do not take over sequencing unless you own it or were\n\
  explicitly delegated. Participants should wake the requester/coordinator with\n\
  their completion. For dynamic eligibility, permissions, lifecycle,\n\
  membership, or other mutable state, the coordinator should read current state\n\
  and route the next eligible actor.\n\
- If you are the requester/coordinator receiving a completed public answer,\n\
  process it and wake the next required actor; do not ask the submitter again\n\
  unless you need clarification.\n\
- In multi-party decisions, rebuild the latest effective decision for each\n\
  required participant before declaring agreement; crossed or stale replies do\n\
  not count as consensus.\n\
- If same-phase replies conflict or include corrections, use the latest\n\
  explicit final/correction visible to the allowed audience, or ask for\n\
  clarification. After consuming answers, do not end silently: record the\n\
  accepted result, wake the next actor, schedule a reminder, or surface the\n\
  blocker.\n\
- If a private wake asks for a public contribution, publish it with\n\
  `message ask` to the requester/coordinator unless you own or were delegated\n\
  the next handoff; keep private facts out of the public text.\n\
- If a wake is only informational, has `notify` / `notify_only` delivery, or\n\
  explicitly asks for no reply, do not send a receipt; run\n\
  `loom --json run ignore --reason \"no action needed\"`.\n\
- Do not answer acknowledgement-only or waiting messages that do not change\n\
  state; run `loom --json run ignore --reason \"no action needed\"`.\n\
- Use `loom --json message ask @actor_id ...` when another actor must act next;\n\
  plain `message send` is for visible text and should not be used as an\n\
  implicit handoff.\n\
- Prefer same-scope private delivery for hidden prompts that require action in\n\
  an active workflow:\n\
  `loom --json message send --private-to @actor_id --target \"$LOOM_REPLY_TARGET\" --text \"...\"`.\n\
  If you assign hidden or actor-specific information, actually send it this\n\
  way before announcing it as done; if the recipient must act, that private\n\
  message is the wake.\n\
  If the private message is background context only and does not require action\n\
  now, use `--intent notify --delivery-policy notify_only` or omit it, and make\n\
  the later action wake carry enough context to act correctly.\n\
  Global `dm:@actor_id` starts a separate private channel; use it deliberately\n\
  only when leaving the current workflow scope is intended.\n\
- Query fresh state with `loom --json ...` commands before relying on channel,\n\
  thread, task, assignment, or actor state.\n\
- Before ending, make the next required step explicit: send the required reply,\n\
  wake the next actor(s), complete/update the task or assignment, schedule a\n\
  reminder, or run `loom --json run ignore --reason \"...\"`.\n\
- Use the default `loom` skill for scenario routing. Use `loom guide list`,\n\
  `loom guide show <topic>`, and `loom guide search <query>` for detailed\n\
  Loom operating guidance.\n\
";

pub const AGENT_INSTRUCTIONS_HEADING: &'static str = "\n## Stable agent instructions\n\n";

pub const CHANNEL_INSTRUCTIONS_HEADING: &'static str = "\n## Channel instructions\n\n";

/// Stable actor/channel facts rendered into the Loom block.
#[derive(Debug, Clone)]
pub struct AgentsMdContext {
    pub actor_id: String,
    pub actor_display_name: String,
    pub channel_id: String,
    pub channel_title: String,
    pub channel_topic: String,
    pub workspace: String,
    pub members: Vec<AgentsMdMember>,
    pub agent_instructions: Option<String>,
    /// Channel-level instructions from the channel's `instructions` field.
    pub channel_instructions: Option<String>,
    /// Thread-level instructions from the thread's `instructions` field.
    /// Only set when the current scope is a thread; never rendered into
    /// the shared block (two threads share one workspace).
    pub thread_instructions: Option<String>,
    pub wake_policy: AgentsMdWakePolicy,
}

/// One channel member line.
#[derive(Debug, Clone)]
pub struct AgentsMdMember {
    pub actor_id: String,
    pub display_name: String,
    pub kind: String,
}

/// Wake intake settings shown in the block.
#[derive(Debug, Clone)]
pub struct AgentsMdWakePolicy {
    pub coalesce: bool,
    pub debounce_ms: u64,
    pub reply_reminder: String,
    pub busy_policy: String,
    pub context_token_budget: Option<u64>,
}

impl Default for AgentsMdWakePolicy {
    fn default() -> (p: Self)
        ensures
            p.coalesce,
            p.debounce_ms == 0,
            p.reply_reminder@ == "first-turn"@,
            p.busy_policy@ == "queue"@,
            p.context_token_budget is None,
    {
        AgentsMdWakePolicy {
            coalesce: true,
            debounce_ms: 0,
            reply_reminder: crate::text::owned("first-turn"),
            busy_policy: crate::text::owned("queue"),
            context_token_budget: None,
        }
    }
}

impl Default for AgentsMdMember {
    fn default() -> (m: Self)
        ensures
            m.actor_id@.len() == 0,
            m.display_name@.len() == 0,
            m.kind@.len() == 0,
    {
        AgentsMdMember { actor_id: String::new(), display_name: String::new(), kind: String::new() }
    }
}

impl Default for AgentsMdContext {
    fn default() -> (c: Self)
        ensures
            c.actor_id@.len() == 0,
            c.actor_display_name@.len() == 0,
            c.channel_id@.len() == 0,
            c.channel_title@.len() == 0,
            c.channel_topic@.len() == 0,
            c.workspace@.len() == 0,
            c.members@.len() == 0,
            c.agent_instructions is None,
            c.channel_instructions is None,
            c.thread_instructions is None,
            c.wake_policy.coalesce,
            c.wake_policy.debounce_ms == 0,
            c.wake_policy.reply_reminder@ == "first-turn"@,
            c.wake_policy.busy_policy@ == "queue"@,
            c.wake_policy.context_token_budget is None,
    {
        AgentsMdContext {
            actor_id: String::new(),
            actor_display_name: String::new(),
            channel_id: String::new(),
            channel_title: String::new(),
            channel_topic: String::new(),
            workspace: String::new(),
            members: Vec::new(),
            agent_instructions: None,
            channel_instructions: None,
            thread_instructions: None,
            wake_policy: AgentsMdWakePolicy::default(),
        }
    }
}

// ───────────────────────── meaning ─────────────────────────

/// Marker text neutralised so user content can never open or close the block.
pub open spec fn sanitized(v: Seq<char>) -> Seq<char> {
    replace(replace(v, BEGIN_MARKER@, BEGIN_REPLACEMENT@), END_MARKER@, END_REPLACEMENT@)
}

/// Trimmed lines of `ls`, the blank ones dropped.
pub open spec fn clean_lines(ls: Seq<Seq<char>>) -> Seq<Seq<char>>
    decreases ls.len(),
{
    if ls.len() == 0 {
        seq![]
    } else {
        let rest = clean_lines(ls.drop_last());
        let t = trim(ls.last());
        if t.len() == 0 {
            rest
        } else {
            rest.push(t)
        }
    }
}

/// A value folded onto one line: sanitized, non-blank trimmed lines joined
/// by a space, backticks turned into quotes.
pub open spec fn inline_text(v: Seq<char>) -> Seq<char> {
    replace(join(clean_lines(lines(sanitized(v))), " "@), "`"@, "'"@)
}

/// `inline_text`, or `` `unknown` `` when that is empty.
pub open spec fn optional_text(v: Seq<char>) -> Seq<char> {
    if inline_text(v).len() == 0 {
        UNKNOWN_FIELD@
    } else {
        inline_text(v)
    }
}

/// One rendered member line.
pub open spec fn member_line(m: AgentsMdMember) -> Seq<char> {
    "- `"@ + inline_text(m.actor_id@) + "` - "@ + optional_text(m.display_name@) + " ("@
        + optional_text(m.kind@) + ")"@
}

/// The rendered member list.
pub open spec fn members_text(ms: Seq<AgentsMdMember>) -> Seq<char> {
    if ms.len() == 0 {
        NO_MEMBERS@
    } else {
        join(ms.map_values(|m: AgentsMdMember| member_line(m)), "\n"@)
    }
}

/// The rendered wake policy.
pub open spec fn wake_policy_text(p: AgentsMdWakePolicy) -> Seq<char> {
    "- Coalesce queued same-scope triggers: `"@ + bool_text(p.coalesce)
        + "`\n- Dispatch debounce: `"@ + decimal(p.debounce_ms as nat)
        + "` ms\n- Reply reminder: `"@ + inline_text(p.reply_reminder@)
        + "`\n- Human message while busy: `"@ + inline_text(p.busy_policy@) + "`"@
        + match p.context_token_budget {
            Some(b) => "\n- Context token budget: `"@ + decimal(b as nat) + "`"@,
            None => Seq::<char>::empty(),
        }
        + "\n"@
        + if p.coalesce || p.debounce_ms > 0 { COALESCE_STRATEGY@ } else { FOCUSED_STRATEGY@ }
}

/// Law: the wake policy ends with the strategy for batched inputs when
/// same-scope triggers are coalesced or dispatch is debounced (either can
/// hand one turn several inputs), and with the focused strategy otherwise.
pub proof fn law_wake_strategy(p: AgentsMdWakePolicy)
    ensures
        (p.coalesce || p.debounce_ms > 0) ==> crate::text::ends_with(wake_policy_text(p), COALESCE_STRATEGY@),
        !(p.coalesce || p.debounce_ms > 0) ==> crate::text::ends_with(wake_policy_text(p), FOCUSED_STRATEGY@),
{
    let t = wake_policy_text(p);
    let s = if p.coalesce || p.debounce_ms > 0 { COALESCE_STRATEGY@ } else { FOCUSED_STRATEGY@ };
    assert(t.subrange(t.len() - s.len(), t.len() as int) =~= s);
}

/// An optional instructions section: present only when the trimmed text is non-empty.
pub open spec fn instructions_text(heading: Seq<char>, v: Option<String>) -> Seq<char> {
    match v {
        Some(s) => if trim(s@).len() == 0 {
            Seq::<char>::empty()
        } else {
            heading + sanitized(trim(s@)) + "\n"@
        },
        None => Seq::<char>::empty(),
    }
}

/// The whole Loom block for `c`.
pub open spec fn block_text(c: AgentsMdContext) -> Seq<char> {
    BEGIN_MARKER@ + BLOCK_INTRO@ + inline_text(c.actor_id@) + ACTOR_DISPLAY_LABEL@
        + optional_text(c.actor_display_name@) + ACTOR_WORKSPACE_LABEL@
        + inline_text(c.workspace@) + CHANNEL_ID_LABEL@ + inline_text(c.channel_id@)
        + CHANNEL_TITLE_LABEL@ + optional_text(c.channel_title@) + CHANNEL_TOPIC_LABEL@
        + optional_text(c.channel_topic@) + MEMBERS_HEADING@ + members_text(c.members@)
        + WAKE_HEADING@ + wake_policy_text(c.wake_policy) + OPERATING_RULES@
        + instructions_text(AGENT_INSTRUCTIONS_HEADING@, c.agent_instructions)
        + instructions_text(CHANNEL_INSTRUCTIONS_HEADING@, c.channel_instructions) + "\n"@
        + END_MARKER@
}

/// Law: the block does not depend on the thread instructions; contexts
/// that differ only there render the same block.
pub proof fn law_block_ignores_thread_instructions(c1: AgentsMdContext, c2: AgentsMdContext)
    requires
        c2 == (AgentsMdContext { thread_instructions: c2.thread_instructions, ..c1 }),
    ensures
        block_text(c1) == block_text(c2),
{
}

/// A text that is present and not blank.
pub open spec fn nonblank(v: Option<String>) -> bool {
    v is Some && trim(v->0@).len() != 0
}

proof fn lemma_contains_at(s: Seq<char>, p: Seq<char>, i: int)
    requires
        occurs_at(s, p, i),
    ensures
        contains(s, p),
{
    lemma_find_spec(s, p);
}

/// Law: a non-blank channel or agent instruction text appears, trimmed and
/// sanitised, under its heading in the block; a blank or absent one adds
/// nothing (the block is that of the context without it).
pub proof fn law_instruction_sections(c: AgentsMdContext)
    ensures
        nonblank(c.channel_instructions) ==> contains(block_text(c),
            CHANNEL_INSTRUCTIONS_HEADING@ + sanitized(trim(c.channel_instructions->0@))),
        !nonblank(c.channel_instructions) ==> block_text(c)
            == block_text(AgentsMdContext { channel_instructions: None, ..c }),
        nonblank(c.agent_instructions) ==> contains(block_text(c),
            AGENT_INSTRUCTIONS_HEADING@ + sanitized(trim(c.agent_instructions->0@))),
        !nonblank(c.agent_instructions) ==> block_text(c)
            == block_text(AgentsMdContext { agent_instructions: None, ..c }),
{
    let head = BEGIN_MARKER@ + BLOCK_INTRO@ + inline_text(c.actor_id@) + ACTOR_DISPLAY_LABEL@
        + optional_text(c.actor_display_name@) + ACTOR_WORKSPACE_LABEL@
        + inline_text(c.workspace@) + CHANNEL_ID_LABEL@ + inline_text(c.channel_id@)
        + CHANNEL_TITLE_LABEL@ + optional_text(c.channel_title@) + CHANNEL_TOPIC_LABEL@
        + optional_text(c.channel_topic@) + MEMBERS_HEADING@ + members_text(c.members@)
        + WAKE_HEADING@ + wake_policy_text(c.wake_policy) + OPERATING_RULES@;
    let agent = instructions_text(AGENT_INSTRUCTIONS_HEADING@, c.agent_instructions);
    let channel = instructions_text(CHANNEL_INSTRUCTIONS_HEADING@, c.channel_instructions);
    let tail = "\n"@ + END_MARKER@;
    let b = block_text(c);
    assert(b =~= head + agent + channel + tail);
    if nonblank(c.channel_instructions) {
        let p = CHANNEL_INSTRUCTIONS_HEADING@ + sanitized(trim(c.channel_instructions->0@));
        let i = (head + agent).len() as int;
        assert(b.subrange(i, i + p.len()) =~= p);
        lemma_contains_at(b, p, i);
    } else {
        let c2 = AgentsMdContext { channel_instructions: None, ..c };
        assert(block_text(c2) =~= head + agent + Seq::<char>::empty() + tail);
    }
    if nonblank(c.agent_instructions) {
        let p = AGENT_INSTRUCTIONS_HEADING@ + sanitized(trim(c.agent_instructions->0@));
        let i = head.len() as int;
        assert(b.subrange(i, i + p.len()) =~= p);
        lemma_contains_at(b, p, i);
    } else {
        let c2 = AgentsMdContext { agent_instructions: None, ..c };
        assert(block_text(c2) =~= head + Seq::<char>::empty() + channel + tail);
    }
}

/// Where the first Loom block of `s` starts and where its end marker ends.
pub open spec fn marker_span_of(s: Seq<char>) -> Option<(int, int)> {
    match find_from(s, BEGIN_MARKER@, 0) {
        None => None,
        Some(b) => match find_from(s, END_MARKER@, b + BEGIN_MARKER@.len()) {
            None => None,
            Some(e) => Some((b, e + END_MARKER@.len())),
        },
    }
}

/// `existing` with its Loom block replaced by `block`, or `block` prepended
/// when it has none.
pub open spec fn updated_text(existing: Seq<char>, block: Seq<char>) -> Seq<char> {
    match marker_span_of(existing) {
        Some((b, e)) => existing.take(b) + block + existing.skip(e),
        None => block + "\n"@ + if existing.len() == 0 {
            Seq::<char>::empty()
        } else {
            "\n"@ + existing
        },
    }
}

/// `after` with one leading blank-line separator dropped.
pub open spec fn strip_separator(after: Seq<char>) -> Seq<char> {
    if starts_with(after, "\r\n\r\n"@) {
        after.skip(4)
    } else if starts_with(after, "\n\n"@) {
        after.skip(2)
    } else if starts_with(after, "\r\n"@) {
        after.skip(2)
    } else if starts_with(after, "\n"@) {
        after.skip(1)
    } else {
        after
    }
}

/// What remains of `s` once its Loom block is removed; `None` when it has none.
pub open spec fn removed_text(s: Seq<char>) -> Option<Seq<char>> {
    match marker_span_of(s) {
        None => None,
        Some((b, e)) => Some(
            s.take(b) + if b == 0 {
                strip_separator(s.skip(e))
            } else {
                s.skip(e)
            },
        ),
    }
}

/// A block the refresh logic can find again: it opens with the begin marker,
/// closes with the end marker, and that closing marker is the first one
/// after the opening.
pub open spec fn well_formed_block(b: Seq<char>) -> bool {
    &&& starts_with(b, BEGIN_MARKER@)
    &&& b.len() >= BEGIN_MARKER@.len() + END_MARKER@.len()
    &&& find_from(b, END_MARKER@, BEGIN_MARKER@.len() as int) == Some(
        b.len() - END_MARKER@.len(),
    )
}

// ───────────────────────── rendering ─────────────────────────

/// Neutralise marker text inside user-supplied content.
fn sanitize_marker_text(value: &[char]) -> (out: Vec<char>)
    ensures
        out@ == sanitized(value@),
{
    let a = replace_str(value, BEGIN_MARKER, BEGIN_REPLACEMENT);
    replace_str(&a, END_MARKER, END_REPLACEMENT)
}

/// Fold a value onto one line.
fn inline_value(value: &[char]) -> (out: Vec<char>)
    ensures
        out@ == inline_text(value@),
{
    let s = sanitize_marker_text(value);
    let ls = lines_chars(&s);
    let ghost lv = ls@.map_values(|l: Vec<char>| l@);
    let mut kept: Vec<Vec<char>> = Vec::new();
    let mut i: usize = 0;
    while i < ls.len()
        invariant
            i <= ls.len(),
            lv == ls@.map_values(|l: Vec<char>| l@),
            kept@.map_values(|l: Vec<char>| l@) == clean_lines(lv.take(i as int)),
        decreases ls.len() - i,
    {
        let t = trim_chars(&ls[i]);
        let ghost before = kept@.map_values(|l: Vec<char>| l@);
        proof {
            assert(lv.take(i + 1).drop_last() =~= lv.take(i as int));
            assert(lv.take(i + 1).last() == ls@[i as int]@);
        }
        if t.len() > 0 {
            kept.push(t);
            assert(kept@.map_values(|l: Vec<char>| l@) =~= before.push(trim(ls@[i as int]@)));
        }
        i += 1;
    }
    assert(lv.take(ls.len() as int) =~= lv);
    let sp = vec![' '];
    let joined = join_chars(&kept, &sp);
    assert(sp@ =~= " "@) by {
        reveal_strlit(" ");
    }
    replace_str(&joined, "`", "'")
}

/// `inline_value`, or `` `unknown` `` when empty.
fn optional_field(value: &[char]) -> (out: Vec<char>)
    ensures
        out@ == optional_text(value@),
{
    let v = inline_value(value);
    if v.len() == 0 {
        chars_of(UNKNOWN_FIELD)
    } else {
        v
    }
}

/// One member line.
fn member_line_of(m: &AgentsMdMember) -> (out: Vec<char>)
    ensures
        out@ == member_line(*m),
{
    let mut out: Vec<char> = Vec::new();
    extend_str(&mut out, "- `");
    let a = inline_value(&chars_of(m.actor_id.as_str()));
    extend_chars(&mut out, &a);
    extend_str(&mut out, "` - ");
    let d = optional_field(&chars_of(m.display_name.as_str()));
    extend_chars(&mut out, &d);
    extend_str(&mut out, " (");
    let k = optional_field(&chars_of(m.kind.as_str()));
    extend_chars(&mut out, &k);
    extend_str(&mut out, ")");
    assert(out@ =~= member_line(*m));
    out
}

/// The member list, one line per member.
fn render_members(members: &[AgentsMdMember]) -> (out: Vec<char>)
    ensures
        out@ == members_text(members@),
{
    if members.len() == 0 {
        return chars_of(NO_MEMBERS);
    }
    let ghost mv = members@.map_values(|m: AgentsMdMember| member_line(m));
    let mut ls: Vec<Vec<char>> = Vec::new();
    let mut i: usize = 0;
    while i < members.len()
        invariant
            i <= members.len(),
            mv == members@.map_values(|m: AgentsMdMember| member_line(m)),
            ls@.map_values(|l: Vec<char>| l@) == mv.take(i as int),
        decreases members.len() - i,
    {
        let l = member_line_of(&members[i]);
        let ghost before = ls@.map_values(|l: Vec<char>| l@);
        ls.push(l);
        assert(mv[i as int] == member_line(members@[i as int]));
        assert(before.push(l@) =~= mv.take(i + 1));
        assert(ls@.map_values(|l: Vec<char>| l@) =~= before.push(l@));
        i += 1;
    }
    assert(mv.take(members.len() as int) =~= mv);
    let nl = vec!['\n'];
    assert(nl@ =~= "\n"@) by {
        reveal_strlit("\n");
    }
    join_chars(&ls, &nl)
}

/// The wake policy lines.
fn render_wake_policy(p: &AgentsMdWakePolicy) -> (out: Vec<char>)
    ensures
        out@ == wake_policy_text(*p),
{
    let mut out: Vec<char> = Vec::new();
    extend_str(&mut out, "- Coalesce queued same-scope triggers: `");
    push_bool(&mut out, p.coalesce);
    extend_str(&mut out, "`\n- Dispatch debounce: `");
    push_decimal(&mut out, p.debounce_ms);
    extend_str(&mut out, "` ms\n- Reply reminder: `");
    let r = inline_value(&chars_of(p.reply_reminder.as_str()));
    extend_chars(&mut out, &r);
    extend_str(&mut out, "`\n- Human message while busy: `");
    let b = inline_value(&chars_of(p.busy_policy.as_str()));
    extend_chars(&mut out, &b);
    extend_str(&mut out, "`");
    if let Some(budget) = p.context_token_budget {
        extend_str(&mut out, "\n- Context token budget: `");
        push_decimal(&mut out, budget);
        extend_str(&mut out, "`");
    }
    extend_str(&mut out, "\n");
    if p.coalesce || p.debounce_ms > 0 {
        extend_str(&mut out, COALESCE_STRATEGY);
    } else {
        extend_str(&mut out, FOCUSED_STRATEGY);
    }
    assert(out@ =~= wake_policy_text(*p));
    out
}

/// Append an instructions section when the trimmed text is non-empty.
fn push_instructions(out: &mut Vec<char>, heading: &str, v: &Option<String>)
    ensures
        final(out)@ == old(out)@ + instructions_text(heading@, *v),
{
    match v {
        Some(s) => {
            let t = trim_chars(&chars_of(s.as_str()));
            if t.len() > 0 {
                let ghost o = out@;
                extend_str(out, heading);
                let z = sanitize_marker_text(&t);
                extend_chars(out, &z);
                extend_str(out, "\n");
                assert(out@ =~= o + instructions_text(heading@, *v));
            } else {
                assert(old(out)@ + instructions_text(heading@, *v) =~= old(out)@);
            }
        },
        None => {
            assert(old(out)@ + instructions_text(heading@, *v) =~= old(out)@);
        },
    }
}

/// The Loom block for `context`. Thread instructions are never rendered.
pub fn loom_block(context: &AgentsMdContext) -> (out: String)
    ensures
        out@ == block_text(*context),
{
    let mut b: Vec<char> = Vec::new();
    extend_str(&mut b, BEGIN_MARKER);
    extend_str(&mut b, BLOCK_INTRO);
    extend_chars(&mut b, &inline_value(&chars_of(context.actor_id.as_str())));
    extend_str(&mut b, ACTOR_DISPLAY_LABEL);
    extend_chars(&mut b, &optional_field(&chars_of(context.actor_display_name.as_str())));
    extend_str(&mut b, ACTOR_WORKSPACE_LABEL);
    extend_chars(&mut b, &inline_value(&chars_of(context.workspace.as_str())));
    extend_str(&mut b, CHANNEL_ID_LABEL);
    extend_chars(&mut b, &inline_value(&chars_of(context.channel_id.as_str())));
    extend_str(&mut b, CHANNEL_TITLE_LABEL);
    extend_chars(&mut b, &optional_field(&chars_of(context.channel_title.as_str())));
    extend_str(&mut b, CHANNEL_TOPIC_LABEL);
    extend_chars(&mut b, &optional_field(&chars_of(context.channel_topic.as_str())));
    extend_str(&mut b, MEMBERS_HEADING);
    extend_chars(&mut b, &render_members(context.members.as_slice()));
    extend_str(&mut b, WAKE_HEADING);
    extend_chars(&mut b, &render_wake_policy(&context.wake_policy));
    extend_str(&mut b, OPERATING_RULES);
    push_instructions(&mut b, AGENT_INSTRUCTIONS_HEADING, &context.agent_instructions);
    push_instructions(&mut b, CHANNEL_INSTRUCTIONS_HEADING, &context.channel_instructions);
    extend_str(&mut b, "\n");
    extend_str(&mut b, END_MARKER);
    assert(b@ =~= block_text(*context));
    string_of(&b)
}

// ───────────────────────── block placement ─────────────────────────

/// Start of the first Loom block and the end of its closing marker.
fn marker_span(existing: &[char]) -> (r: Option<(usize, usize)>)
    ensures
        match r {
            Some((b, e)) => marker_span_of(existing@) == Some((b as int, e as int)) && b <= e
                <= existing@.len(),
            None => marker_span_of(existing@) is None,
        },
{
    let bm = chars_of(BEGIN_MARKER);
    let em = chars_of(END_MARKER);
    let n = existing.len();
    match find_chars_from(existing, &bm, 0) {
        None => None,
        Some(b) => {
            proof {
                lemma_find_from_spec(existing@, bm@, 0);
                assert(occurs_at(existing@, bm@, b as int));
                assert(b + bm@.len() <= n);
            }
            match find_chars_from(existing, &em, b + bm.len()) {
                None => None,
                Some(e) => {
                    proof {
                        lemma_find_from_spec(existing@, em@, b + bm@.len());
                        assert(occurs_at(existing@, em@, e as int));
                        assert(e + em@.len() <= n);
                    }
                    Some((b, e + em.len()))
                },
            }
        },
    }
}

/// `existing` with its Loom block replaced by `new_block`, or the block
/// prepended (followed by a blank line) when there is none.
pub fn update_block(existing: &str, new_block: &str) -> (out: String)
    ensures
        out@ == updated_text(existing@, new_block@),
{
    let ex = chars_of(existing);
    let nb = chars_of(new_block);
    let mut out: Vec<char> = Vec::new();
    match marker_span(&ex) {
        Some((b, e)) => {
            extend_chars(&mut out, &slice_chars(&ex, 0, b));
            extend_chars(&mut out, &nb);
            extend_chars(&mut out, &slice_chars(&ex, e, ex.len()));
        },
        None => {
            extend_chars(&mut out, &nb);
            out.push('\n');
            if ex.len() > 0 {
                out.push('\n');
                extend_chars(&mut out, &ex);
            }
        },
    }
    proof {
        reveal_strlit("\n");
    }
    assert(out@ =~= updated_text(existing@, new_block@));
    string_of(&out)
}

/// What to do with an existing `AGENTS.md` when the Loom block is removed.
#[derive(Debug, Clone, PartialEq, Eq)]
pub enum AgentsMdRemoval {
    /// No Loom block: leave the file alone.
    Unchanged,
    /// Nothing but the Loom block: delete the file.
    Delete,
    /// Write the remaining project-owned content.
    Write(String),
}

/// Remove only Loom's block, preserving project-owned instructions. A block
/// at the very start takes one following blank-line separator with it.
pub fn remove_agents_md_content(existing: &str) -> (r: AgentsMdRemoval)
    ensures
        match r {
            AgentsMdRemoval::Unchanged => removed_text(existing@) is None,
            AgentsMdRemoval::Delete => removed_text(existing@) == Some(Seq::<char>::empty()),
            AgentsMdRemoval::Write(t) => removed_text(existing@) == Some(t@) && t@.len() > 0,
        },
{
    let ex = chars_of(existing);
    let Some((b, e)) = marker_span(&ex) else {
        return AgentsMdRemoval::Unchanged;
    };
    let after = slice_chars(&ex, e, ex.len());
    let kept = if b == 0 {
        let crlf2 = chars_of("\r\n\r\n");
        let lf2 = chars_of("\n\n");
        let crlf = chars_of("\r\n");
        let lf = chars_of("\n");
        proof {
            reveal_strlit("\r\n\r\n");
            reveal_strlit("\n\n");
            reveal_strlit("\r\n");
            reveal_strlit("\n");
        }
        if starts_with_chars(&after, &crlf2) {
            slice_chars(&after, 4, after.len())
        } else if starts_with_chars(&after, &lf2) {
            slice_chars(&after, 2, after.len())
        } else if starts_with_chars(&after, &crlf) {
            slice_chars(&after, 2, after.len())
        } else if starts_with_chars(&after, &lf) {
            slice_chars(&after, 1, after.len())
        } else {
            after
        }
    } else {
        after
    };
    let mut content = slice_chars(&ex, 0, b);
    extend_chars(&mut content, &kept);
    assert(content@ =~= removed_text(existing@)->0);
    if content.len() == 0 {
        AgentsMdRemoval::Delete
    } else {
        AgentsMdRemoval::Write(string_of(&content))
    }
}

/// The new content of `AGENTS.md` for `context`, or `None` when the file is
/// already current. `existing` is the file's content, `None` when it does
/// not exist yet.
pub fn ensure_agents_md_content(existing: Option<&str>, context: &AgentsMdContext) -> (r: Option<String>)
    ensures
        match existing {
            None => r is Some && r->0@ == block_text(*context) + "\n"@,
            Some(e) => if updated_text(e@, block_text(*context)) == e@ {
                r is None
            } else {
                r is Some && r->0@ == updated_text(e@, block_text(*context))
            },
        },
{
    let block = loom_block(context);
    match existing {
        None => {
            let mut out = chars_of(block.as_str());
            out.push('\n');
            proof {
                reveal_strlit("\n");
            }
            assert(out@ =~= block_text(*context) + "\n"@);
            Some(string_of(&out))
        },
        Some(e) => {
            let updated = update_block(e, block.as_str());
            let uc = chars_of(updated.as_str());
            if eq_str(&uc, e) {
                None
            } else {
                Some(updated)
            }
        },
    }
}

// ───────────────────────── laws ─────────────────────────

/// A well-formed block placed after `pre` (which holds no begin marker of
/// its own, even when followed by one) is exactly the span the refresh logic
/// finds in `pre + blk + post`.
proof fn lemma_block_span(pre: Seq<char>, blk: Seq<char>, post: Seq<char>)
    requires
        well_formed_block(blk),
        forall|j: int| 0 <= j < pre.len() ==> !occurs_at(pre + BEGIN_MARKER@, BEGIN_MARKER@, j),
    ensures
        marker_span_of(pre + blk + post) == Some((pre.len() as int, (pre.len() + blk.len()) as int)),
{
    let r = pre + blk + post;
    let bm = BEGIN_MARKER@;
    let em = END_MARKER@;
    let p = pre.len() as int;
    let n = blk.len() as int;
    let l = bm.len() as int;
    let m = em.len() as int;
    assert forall|k: int| 0 <= k < l implies blk[k] == bm[k] by {
        assert(blk.subrange(0, l)[k] == blk[k]);
    }
    assert(r.subrange(p, p + l) =~= bm);
    assert forall|j: int| 0 <= j < p implies !occurs_at(r, bm, j) by {
        assert(r.subrange(j, j + l) =~= (pre + bm).subrange(j, j + l));
        assert(!occurs_at(pre + bm, bm, j));
    }
    lemma_find_from_is(r, bm, 0, p);
    lemma_find_from_spec(blk, em, l);
    assert forall|j: int| p + l <= j < p + n - m implies !occurs_at(r, em, j) by {
        assert(r.subrange(j, j + m) =~= blk.subrange(j - p, j - p + m));
        assert(!occurs_at(blk, em, j - p));
    }
    assert(r.subrange(p + n - m, p + n) =~= blk.subrange(n - m, n));
    lemma_find_from_is(r, em, p + l, p + n - m);
}

/// Refreshing with a well-formed block is idempotent: writing the same block
/// twice gives the same file as writing it once.
pub proof fn law_update_block_idempotent(existing: Seq<char>, block: Seq<char>)
    requires
        well_formed_block(block),
    ensures
        updated_text(updated_text(existing, block), block) == updated_text(existing, block),
{
    let bm = BEGIN_MARKER@;
    let l = bm.len() as int;
    let n = block.len() as int;
    match marker_span_of(existing) {
        Some((b, e)) => {
            lemma_find_from_spec(existing, bm, 0);
            lemma_find_from_spec(existing, END_MARKER@, b + l);
            let pre = existing.take(b);
            let post = existing.skip(e);
            assert(occurs_at(existing, bm, b));
            assert forall|k: int| 0 <= k < l implies existing[b + k] == bm[k] by {
                assert(existing.subrange(b, b + l)[k] == existing[b + k]);
            }
            assert forall|j: int| 0 <= j < pre.len() implies !occurs_at(pre + bm, bm, j) by {
                assert((pre + bm).subrange(j, j + l) =~= existing.subrange(j, j + l));
                assert(!occurs_at(existing, bm, j));
            }
            lemma_block_span(pre, block, post);
            let r = pre + block + post;
            assert(updated_text(existing, block) == r);
            assert(r.take(b) + block + r.skip(b + n) =~= r);
        },
        None => {
            let post = "\n"@ + if existing.len() == 0 {
                Seq::<char>::empty()
            } else {
                "\n"@ + existing
            };
            let pre = Seq::<char>::empty();
            lemma_block_span(pre, block, post);
            let r = pre + block + post;
            assert(updated_text(existing, block) =~= r);
            assert(r.take(0) + block + r.skip(n) =~= r);
        },
    }
}

/// Removing the Loom block after a refresh gives back exactly what removing
/// it gave before; when the file had no block, removal after the refresh
/// restores the content it had before.
pub proof fn law_remove_after_update(existing: Seq<char>, block: Seq<char>)
    requires
        well_formed_block(block),
    ensures
        marker_span_of(existing) is Some ==> removed_text(updated_text(existing, block))
            == removed_text(existing),
        marker_span_of(existing) is None ==> removed_text(updated_text(existing, block))
            == Some(existing),
{
    let bm = BEGIN_MARKER@;
    let l = bm.len() as int;
    let n = block.len() as int;
    reveal_strlit("\r\n\r\n");
    reveal_strlit("\n\n");
    reveal_strlit("\r\n");
    reveal_strlit("\n");
    match marker_span_of(existing) {
        Some((b, e)) => {
            lemma_find_from_spec(existing, bm, 0);
            lemma_find_from_spec(existing, END_MARKER@, b + l);
            let pre = existing.take(b);
            let post = existing.skip(e);
            assert(occurs_at(existing, bm, b));
            assert forall|k: int| 0 <= k < l implies existing[b + k] == bm[k] by {
                assert(existing.subrange(b, b + l)[k] == existing[b + k]);
            }
            assert forall|j: int| 0 <= j < pre.len() implies !occurs_at(pre + bm, bm, j) by {
                assert((pre + bm).subrange(j, j + l) =~= existing.subrange(j, j + l));
                assert(!occurs_at(existing, bm, j));
            }
            lemma_block_span(pre, block, post);
            let r = pre + block + post;
            assert(updated_text(existing, block) == r);
            assert(r.take(b) =~= pre);
            assert(r.skip(b + n) =~= post);
        },
        None => {
            let post = "\n"@ + if existing.len() == 0 {
                Seq::<char>::empty()
            } else {
                "\n"@ + existing
            };
            let pre = Seq::<char>::empty();
            lemma_block_span(pre, block, post);
            let r = pre + block + post;
            assert(updated_text(existing, block) =~= r);
            assert(r.skip(n) =~= post);
            assert(post[0] == '\n');
            if post.len() >= 4 {
                assert(post.subrange(0, 4)[0] != "\r\n\r\n"@[0]);
            }
            if post.len() >= 2 {
                assert(post.subrange(0, 2)[0] != "\r\n"@[0]);
            }
            if existing.len() == 0 {
                assert(post.subrange(0, 1) =~= "\n"@);
                assert(post.skip(1) =~= existing);
                assert(strip_separator(post) =~= existing);
            } else {
                assert(post.subrange(0, 2) =~= "\n\n"@);
                assert(post.skip(2) =~= existing);
                assert(strip_separator(post) =~= existing);
            }
            assert(r.take(0) + strip_separator(r.skip(n)) =~= existing);
        },
    }
}

} // verus!
