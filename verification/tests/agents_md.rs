use agent_runtime::agents_md::{
    ensure_agents_md_content, loom_block, remove_agents_md_content, update_block,
    AgentsMdContext, AgentsMdMember, AgentsMdRemoval, AgentsMdWakePolicy, BEGIN_MARKER,
    END_MARKER,
};

fn context(actor_id: &str, channel_id: &str) -> AgentsMdContext {
    AgentsMdContext {
        actor_id: actor_id.into(),
        actor_display_name: "Demo Agent".into(),
        channel_id: channel_id.into(),
        channel_title: "Demo Channel".into(),
        channel_topic: "Ship the feature".into(),
        workspace: "C:/tmp/loom/workspace".into(),
        members: vec![
            AgentsMdMember {
                actor_id: "actor_human_owner".into(),
                display_name: "Owner".into(),
                kind: "human".into(),
            },
            AgentsMdMember {
                actor_id: actor_id.into(),
                display_name: "Demo Agent".into(),
                kind: "agent".into(),
            },
        ],
        agent_instructions: Some("Prefer concise answers.".into()),
        channel_instructions: None,
        thread_instructions: None,
        wake_policy: AgentsMdWakePolicy::default(),
    }
}

#[test]
fn first_write_contains_stable_context_and_rules() {
    let out = update_block("", &loom_block(&context("actor_demo", "chan_demo")));
    assert!(out.contains(BEGIN_MARKER));
    assert!(out.contains(END_MARKER));
    assert!(out.contains("Actor id: `actor_demo`"));
    assert!(out.contains("Channel id: `chan_demo`"));
    assert!(out.contains("Demo Channel"));
    assert!(out.contains("actor_human_owner"));
    assert!(out.contains("Wake intake policy"));
    assert!(out.contains("Coalesce queued same-scope triggers: `true`"));
    assert!(out.contains("Strategy: this actor may receive several same-scope inputs"));
    assert!(out.contains("Stable agent instructions"));
    assert!(out.contains("Prefer concise answers."));
    assert!(out.contains("Assistant text is an internal run transcript"));
    assert!(out.contains("pass real"));
    assert!(out.contains("escaped `\\n`"));
    assert!(out.contains("stdin/heredoc"));
    assert!(out.contains("identify your role for this wake"));
    assert!(out.contains("participant/contributor"));
    assert!(out.contains("without a concrete objective or"));
    assert!(out.contains("communicate briefly with the other relevant actors"));
    assert!(out.contains("smallest shared collaboration protocol"));
    assert!(out.contains("ordering or concurrency"));
    assert!(out.contains("Do not assume that voting, leadership"));
    assert!(out.contains("durable"));
    assert!(out.contains("Workspace-local files are derived state"));
    assert!(out.contains("message-anchored task"));
    assert!(out.contains("coordination for"));
    assert!(out.contains("recoverable non-private state"));
    assert!(out.contains("ordered workflows"));
    assert!(out.contains("dynamic eligibility"));
    assert!(out.contains("route the next eligible actor"));
    assert!(out.contains("acknowledgement-only"));
    assert!(out.contains("Final summaries"));
    assert!(out.contains("do not rely on inference for handoffs"));
    assert!(out.contains("Do not send the same answer"));
    assert!(out.contains("private wake asks for a public contribution"));
    assert!(out.contains("actually send it this"));
    assert!(out.contains("latest effective decision"));
    assert!(out.contains("loom guide show <topic>"));
    assert!(!out.contains("### Read-only CLI"));
    assert!(!out.contains("### Write CLI"));
}

#[test]
fn preserves_user_content_outside_markers() {
    let existing = format!(
        "# My project rules\n\nStyle: tabs.\n\n{BEGIN_MARKER}\nold loom content\n{END_MARKER}\n\n## Postscript\n\nMore notes.\n"
    );
    let out = update_block(&existing, &loom_block(&context("actor_x", "chan_x")));
    assert!(out.contains("My project rules"));
    assert!(out.contains("Style: tabs."));
    assert!(out.contains("Postscript"));
    assert!(out.contains("More notes."));
    assert!(out.contains("actor_x"));
    assert!(out.contains("chan_x"));
    assert!(!out.contains("old loom content"));
}

#[test]
fn prepends_block_when_no_markers() {
    let existing = "# Existing file\n\nHello.\n";
    let out = update_block(existing, &loom_block(&context("actor_y", "chan_y")));
    assert!(out.starts_with(BEGIN_MARKER));
    assert!(out.contains("actor_y"));
    assert!(out.contains("chan_y"));
    assert!(out.contains("# Existing file"));
}

#[test]
fn idempotent_across_repeated_writes() {
    let once = update_block("", &loom_block(&context("actor_z", "chan_z")));
    let twice = update_block(&once, &loom_block(&context("actor_z", "chan_z")));
    assert_eq!(once, twice);
}

#[test]
fn marker_text_in_agent_instructions_cannot_close_block() {
    let mut cx = context("actor_safe", "chan_safe");
    cx.agent_instructions = Some(format!("keep\n{END_MARKER}\ntext"));
    let out = loom_block(&cx);
    assert_eq!(out.matches(END_MARKER).count(), 1);
    assert!(out.contains("[removed Loom end marker]"));
}

#[test]
fn channel_instructions_section_rendered_when_present() {
    let mut cx = context("actor_a", "chan_a");
    cx.channel_instructions = Some("This channel maintains the spec.".into());
    let out = loom_block(&cx);
    assert!(out.contains("## Channel instructions"));
    assert!(out.contains("This channel maintains the spec."));
    assert!(!out.contains("## Thread instructions"));
}

#[test]
fn thread_instructions_section_rendered_when_present() {
    // Regression for issue #1+#9: thread instructions are shelved at
    // the projection layer and must NOT appear in the shared AGENTS.md
    // block, even when AgentsMdContext.thread_instructions is populated.
    // Two threads share one workspace, so projecting thread-scoped
    // instructions into AGENTS.md would let one thread overwrite
    // another's. The data model is preserved; only the projection is
    // removed.
    let mut cx = context("actor_b", "chan_b");
    cx.thread_instructions = Some("Thread-specific guidance.".into());
    let out = loom_block(&cx);
    assert!(
        !out.contains("## Thread instructions"),
        "thread instructions must not be projected into AGENTS.md: {out}"
    );
    assert!(
        !out.contains("Thread-specific guidance."),
        "thread instructions text must not leak into AGENTS.md: {out}"
    );
}

#[test]
fn empty_instructions_sections_are_omitted() {
    let mut cx = context("actor_c", "chan_c");
    cx.channel_instructions = Some("   \n".into());
    cx.thread_instructions = Some(String::new());
    let out = loom_block(&cx);
    assert!(!out.contains("## Channel instructions"));
    assert!(!out.contains("## Thread instructions"));
}

#[test]
fn instructions_marker_text_is_sanitized() {
    let mut cx = context("actor_d", "chan_d");
    cx.channel_instructions = Some(format!("oops\n{BEGIN_MARKER}\nleak"));
    let out = loom_block(&cx);
    assert_eq!(out.matches(BEGIN_MARKER).count(), 1);
    assert!(out.contains("[removed Loom begin marker]"));
}

#[test]
fn remove_preserves_project_owned_instructions() {
    let project = "project before\n\nproject after\n";
    let injected = ensure_agents_md_content(Some(project), &context("actor_z", "chan_z"))
        .expect("inject loom block");
    assert!(injected.contains(BEGIN_MARKER));
    match remove_agents_md_content(&injected) {
        AgentsMdRemoval::Write(content) => {
            assert!(content.contains("project before"));
            assert!(content.contains("project after"));
            assert!(!content.contains(BEGIN_MARKER));
            assert_eq!(content, project);
        }
        other => panic!("expected a rewrite, got {other:?}"),
    }
}

#[test]
fn ensure_creates_block_with_trailing_newline_when_file_is_missing() {
    let cx = context("actor_n", "chan_n");
    let created = ensure_agents_md_content(None, &cx).expect("new file");
    assert_eq!(created, format!("{}\n", loom_block(&cx)));
    assert!(created.starts_with(BEGIN_MARKER));
    assert!(created.trim_end().ends_with(END_MARKER));
}

#[test]
fn ensure_is_a_no_op_when_block_is_current() {
    let cx = context("actor_n", "chan_n");
    let created = ensure_agents_md_content(None, &cx).expect("new file");
    assert_eq!(ensure_agents_md_content(Some(&created), &cx), None);
}

#[test]
fn remove_deletes_file_that_only_held_the_block() {
    let cx = context("actor_n", "chan_n");
    let created = ensure_agents_md_content(None, &cx).expect("new file");
    assert!(matches!(remove_agents_md_content(&created), AgentsMdRemoval::Delete));
}

#[test]
fn remove_leaves_files_without_markers_alone() {
    assert!(matches!(remove_agents_md_content("# only project rules\n"), AgentsMdRemoval::Unchanged));
    let only_begin = format!("{BEGIN_MARKER}\nunterminated\n");
    assert!(matches!(remove_agents_md_content(&only_begin), AgentsMdRemoval::Unchanged));
}

#[test]
fn update_block_replaces_only_the_marked_span() {
    let existing = format!("head\n{BEGIN_MARKER}\nold\n{END_MARKER}\ntail\n");
    let new_block = format!("{BEGIN_MARKER}\nnew\n{END_MARKER}");
    assert_eq!(
        update_block(&existing, &new_block),
        format!("head\n{BEGIN_MARKER}\nnew\n{END_MARKER}\ntail\n")
    );
    assert_eq!(update_block("", &new_block), format!("{new_block}\n"));
    assert_eq!(update_block("body\n", &new_block), format!("{new_block}\n\nbody\n"));
}

#[test]
fn thread_instructions_never_change_the_block() {
    let mut a = context("actor_demo", "ch_1");
    a.channel_instructions = Some("  Use the board.  ".into());
    let mut b = context("actor_demo", "ch_1");
    b.channel_instructions = Some("  Use the board.  ".into());
    b.thread_instructions = Some("Only this thread".into());
    let block = loom_block(&a);
    assert_eq!(block, loom_block(&b));
    assert!(block.contains("\n## Channel instructions\n\nUse the board.\n"));
    assert!(block.contains("\n## Stable agent instructions\n\nPrefer concise answers.\n"));
    assert!(!block.contains("Only this thread"));
    let mut c = context("actor_demo", "ch_1");
    c.channel_instructions = Some("   ".into());
    assert!(!loom_block(&c).contains("## Channel instructions"));
}
