use agent_runtime::argv::ScopeKind;
use agent_runtime::context_layer::{
    assemble_chain, file_uri_name, read_size_error, AssembledResource, ContextResourceRegistry,
    FileSystemProvider, RegisteredResource, MAX_READ_BYTES,
};
use agent_runtime::usage::estimate_tokens;

fn tokens_of(token_estimate: usize) -> u64 {
    estimate_tokens(&"a".repeat(token_estimate * 4))
}

fn make_resource(priority: i32, token_estimate: usize) -> AssembledResource {
    AssembledResource {
        priority,
        in_scope: true,
        section_tokens: Some(vec![tokens_of(token_estimate)]),
    }
}

#[test]
fn assemble_chain_budget_waterfall_includes_within_budget() {
    let resources = vec![make_resource(1, 10), make_resource(2, 10)];
    let (sections, remaining) = assemble_chain(&resources, 100);
    assert_eq!(sections.len(), 2);
    assert!(remaining < 100);
    assert_eq!(sections, vec![(0, 0), (1, 0)]);
    assert_eq!(remaining, 80);
}

#[test]
fn assemble_chain_budget_waterfall_skips_over_budget() {
    let resources = vec![make_resource(1, 10), make_resource(2, 1000)];
    let (sections, remaining) = assemble_chain(&resources, 100);
    assert_eq!(sections.len(), 1);
    assert_eq!(remaining, 90);
}

#[test]
fn assemble_chain_priority_zero_always_included() {
    let resources = vec![make_resource(0, 1000)];
    let (sections, remaining) = assemble_chain(&resources, 10);
    assert_eq!(sections.len(), 1, "priority 0 resource must always be included");
    assert_eq!(remaining, 0);
}

#[test]
fn assemble_chain_respects_scope_filtering() {
    // A thread-only resource assembled for a channel turn is out of scope.
    let resources = vec![AssembledResource {
        priority: 1,
        in_scope: false,
        section_tokens: Some(vec![1]),
    }];
    let (sections, remaining) = assemble_chain(&resources, 100);
    assert!(sections.is_empty(), "thread-only resource should be skipped in channel scope");
    assert_eq!(remaining, 100);
}

#[test]
fn assemble_chain_empty_plugin_output_does_not_break_the_chain() {
    let resources = vec![
        AssembledResource { priority: 1, in_scope: true, section_tokens: Some(Vec::new()) },
        make_resource(2, 10),
    ];
    let (sections, _) = assemble_chain(&resources, 100);
    assert_eq!(sections.len(), 1);
    assert_eq!(sections[0], (1, 0));
}

#[test]
fn assemble_chain_skips_failed_resources_and_keeps_going() {
    let resources = vec![
        AssembledResource { priority: 1, in_scope: true, section_tokens: None },
        AssembledResource { priority: 2, in_scope: true, section_tokens: Some(vec![5, 50, 5]) },
    ];
    let (sections, remaining) = assemble_chain(&resources, 20);
    assert_eq!(sections, vec![(1, 0), (1, 2)]);
    assert_eq!(remaining, 10);
}

#[test]
fn registry_orders_by_priority_and_keeps_registration_order_for_ties() {
    let mut registry = ContextResourceRegistry::new();
    assert!(registry.is_empty());
    for (scheme, priority) in [("b", 2), ("a", 1), ("b2", 2), ("zero", 0)] {
        registry.register(RegisteredResource {
            scheme: scheme.into(),
            priority,
            scopes: vec![ScopeKind::Thread, ScopeKind::Channel],
        });
    }
    let order: Vec<&str> = registry.resources.iter().map(|r| r.scheme.as_str()).collect();
    assert_eq!(order, vec!["zero", "a", "b", "b2"]);
    assert!(!registry.is_empty());
    assert!(registry.has_scheme("b2"));
    assert!(!registry.has_scheme("missing"));
}

#[test]
fn scheme_is_file() {
    let provider = FileSystemProvider::new(".".into(), 10);
    assert_eq!(provider.scheme(), "file");
}

#[test]
fn infer_media_type_basic() {
    assert_eq!(FileSystemProvider::infer_media_type("foo.md"), "text/markdown");
    assert_eq!(FileSystemProvider::infer_media_type("foo.json"), "application/json");
    assert_eq!(FileSystemProvider::infer_media_type("foo.unknown"), "application/octet-stream");
}

#[test]
fn media_type_lookup_ignores_case_and_handles_missing_extension() {
    assert_eq!(FileSystemProvider::media_type_for_extension(Some("YML")), "application/yaml");
    assert_eq!(FileSystemProvider::media_type_for_extension(None), "application/octet-stream");
    assert_eq!(FileSystemProvider::infer_media_type("Makefile"), "application/octet-stream");
}

#[test]
fn file_uri_names_strip_scope_prefix() {
    assert_eq!(file_uri_name("file:thr_1/notes.md", "thr_1"), Ok("notes.md".to_string()));
    assert_eq!(file_uri_name("file:notes.md", "thr_1"), Ok("notes.md".to_string()));
    assert_eq!(
        file_uri_name("http://x", "thr_1"),
        Err("invalid file URI: http://x".to_string())
    );
}

#[test]
fn read_size_error_only_above_the_limit() {
    assert_eq!(read_size_error("a.txt", MAX_READ_BYTES), None);
    let msg = read_size_error("a.txt", MAX_READ_BYTES + 1).expect("too large");
    assert_eq!(
        msg,
        format!("file a.txt ({} bytes) exceeds max read size ({} bytes)", MAX_READ_BYTES + 1, MAX_READ_BYTES)
    );
}

#[test]
fn resolve_base_joins_relative_mounts() {
    let provider = FileSystemProvider::new("docs".into(), 10);
    assert_eq!(provider.resolve_base("/ws"), "/ws/docs");
    let absolute = FileSystemProvider::new("/abs/docs".into(), 10);
    assert_eq!(absolute.resolve_base("/ws"), "/abs/docs");
}
