use agent_runtime::mcp_servers::{
    build_mcp_servers, AnnouncementSpec, MemoryDeliverySpec, MemorySpec,
};

fn mem(mcp: bool) -> MemorySpec {
    MemorySpec { delivery: MemoryDeliverySpec { mcp, prompt: true }, ..Default::default() }
}

fn ann(mcp: bool) -> AnnouncementSpec {
    AnnouncementSpec { mcp }
}

#[test]
fn no_specs_yields_empty() {
    let got = build_mcp_servers(Some("/x/loom"), "a", "/p", None, None, Some("ws://localhost"));
    assert!(got.is_empty());
}

#[test]
fn memory_without_mcp_yields_empty() {
    let got = build_mcp_servers(Some("/x/loom"), "a", "/p", Some(&mem(false)), None, None);
    assert!(got.is_empty());
}

#[test]
fn no_binary_means_no_server() {
    let got = build_mcp_servers(None, "a", "/p", Some(&mem(true)), Some(&ann(true)), Some("ws://localhost"));
    assert!(got.is_empty());
}

#[test]
fn mcp_enabled_injects_loom_memory() {
    let got = build_mcp_servers(Some("/opt/bin/loom"), "actor_x", "/data/profile", Some(&mem(true)), None, None);
    assert_eq!(got.len(), 1);
    assert_eq!(got[0].name, "loom-memory");
    assert_eq!(got[0].command, "/opt/bin/loom");
    assert_eq!(
        got[0].args,
        vec!["mcp", "memory", "--actor-id", "actor_x", "--profile-dir", "/data/profile"]
    );
}

#[test]
fn shard_by_day_is_passed_through() {
    let mut m = mem(true);
    m.store.shard_by = "day".into();
    let got = build_mcp_servers(Some("/loom"), "a", "/p", Some(&m), None, None);
    assert!(got[0].args.iter().any(|a| a == "--shard-by"));
    assert!(got[0].args.iter().any(|a| a == "day"));
}

#[test]
fn shard_by_month_is_the_default_and_not_passed() {
    let mut m = mem(true);
    m.store.shard_by = "month".into();
    let got = build_mcp_servers(Some("/loom"), "a", "/p", Some(&m), None, None);
    assert!(!got[0].args.iter().any(|a| a == "--shard-by"));
}

#[test]
fn announcement_mcp_enabled_injects_loom_announcement() {
    let got = build_mcp_servers(
        Some("/opt/bin/loom"),
        "actor_x",
        "/data/profile",
        None,
        Some(&ann(true)),
        Some("ws://127.0.0.1:7878/rpc"),
    );
    assert_eq!(got.len(), 1);
    assert_eq!(got[0].name, "loom-announcement");
    assert_eq!(
        got[0].args,
        vec!["mcp", "announcement", "--actor-id", "actor_x", "--server", "ws://127.0.0.1:7878/rpc"]
    );
}

#[test]
fn announcement_without_server_url_is_skipped() {
    let got = build_mcp_servers(Some("/opt/bin/loom"), "a", "/p", None, Some(&ann(true)), None);
    assert!(got.is_empty());
}

#[test]
fn memory_and_announcement_both_inject_when_enabled() {
    let got = build_mcp_servers(
        Some("/loom"),
        "actor_x",
        "/p",
        Some(&mem(true)),
        Some(&ann(true)),
        Some("ws://localhost/rpc"),
    );
    assert_eq!(got.len(), 2);
    let names: Vec<&str> = got.iter().map(|s| s.name.as_str()).collect();
    assert!(names.contains(&"loom-memory"));
    assert!(names.contains(&"loom-announcement"));
}
