//! The MCP servers injected into a new ACP session: the `loom-memory`
//! stdio bridge when memory is delivered over MCP, and the
//! `loom-announcement` bridge when announcements are and a server URL is
//! known.

use vstd::prelude::*;

use crate::text::{chars_of, eq_str};

verus! {

/// How memory reaches the agent.
#[derive(Debug, Clone, Copy, PartialEq, Eq, Default)]
pub struct MemoryDeliverySpec {
    pub mcp: bool,
    pub prompt: bool,
}

/// How memory is stored.
#[derive(Debug, Clone, PartialEq, Eq, Default)]
pub struct MemoryStoreSpec {
    /// `month` (the default when empty) or `day`.
    pub shard_by: String,
}

/// An actor's memory configuration.
#[derive(Debug, Clone, PartialEq, Eq, Default)]
pub struct MemorySpec {
    pub delivery: MemoryDeliverySpec,
    pub store: MemoryStoreSpec,
}

/// An actor's announcement configuration.
#[derive(Debug, Clone, Copy, PartialEq, Eq, Default)]
pub struct AnnouncementSpec {
    pub mcp: bool,
}

/// An `McpServerStdio` entry: `{ name, command, args, env }`; the
/// environment of the injected servers is always empty.
#[derive(Debug, Clone, PartialEq, Eq)]
pub struct McpServerEntry {
    pub name: String,
    pub command: String,
    pub args: Vec<String>,
}

/// An entry as name, command and arguments.
pub open spec fn entry_view(e: McpServerEntry) -> (Seq<char>, Seq<char>, Seq<Seq<char>>) {
    (e.name@, e.command@, e.args@.map_values(|a: String| a@))
}

/// The arguments of the memory bridge; a shard mode other than the
/// default month is passed on.
pub open spec fn memory_args(actor_id: Seq<char>, profile_dir: Seq<char>, shard_by: Seq<char>) -> Seq<Seq<char>> {
    seq!["mcp"@, "memory"@, "--actor-id"@, actor_id, "--profile-dir"@, profile_dir]
        + if shard_by.len() != 0 && shard_by != "month"@ { seq!["--shard-by"@, shard_by] } else { seq![] }
}

/// The arguments of the announcement bridge.
pub open spec fn announcement_args(actor_id: Seq<char>, server_url: Seq<char>) -> Seq<Seq<char>> {
    seq!["mcp"@, "announcement"@, "--actor-id"@, actor_id, "--server"@, server_url]
}

/// The servers for an actor: none without the `loom` binary; the memory
/// bridge when memory is delivered over MCP; then the announcement bridge
/// when announcements are delivered over MCP and a server URL is known.
pub open spec fn mcp_servers(
    loom_binary: Option<Seq<char>>,
    actor_id: Seq<char>,
    profile_dir: Seq<char>,
    memory: Option<MemorySpec>,
    announcement: Option<AnnouncementSpec>,
    server_url: Option<Seq<char>>,
) -> Seq<(Seq<char>, Seq<char>, Seq<Seq<char>>)> {
    match loom_binary {
        None => seq![],
        Some(bin) => {
            let mem = match memory {
                Some(m) => if m.delivery.mcp {
                    seq![("loom-memory"@, bin, memory_args(actor_id, profile_dir, m.store.shard_by@))]
                } else {
                    seq![]
                },
                None => seq![],
            };
            let ann = match (announcement, server_url) {
                (Some(a), Some(url)) => if a.mcp {
                    seq![("loom-announcement"@, bin, announcement_args(actor_id, url))]
                } else {
                    seq![]
                },
                _ => seq![],
            };
            mem + ann
        },
    }
}

/// The views of a list of entries.
pub open spec fn entries_view(es: Seq<McpServerEntry>) -> Seq<(Seq<char>, Seq<char>, Seq<Seq<char>>)> {
    es.map_values(|e: McpServerEntry| entry_view(e))
}

fn owned_args(parts: &[&str]) -> (out: Vec<String>)
    ensures
        out@.map_values(|a: String| a@) == parts@.map_values(|p: &str| p@),
{
    let mut out: Vec<String> = Vec::new();
    let mut i: usize = 0;
    while i < parts.len()
        invariant
            i <= parts.len(),
            out@.map_values(|a: String| a@) == parts@.take(i as int).map_values(|p: &str| p@),
        decreases parts.len() - i,
    {
        out.push(parts[i].to_owned());
        proof {
            assert(parts@.take(i + 1).map_values(|p: &str| p@) =~= parts@.take(i as int).map_values(|p: &str| p@).push(parts@[i as int]@));
        }
        i += 1;
    }
    assert(parts@.take(parts.len() as int) =~= parts@);
    out
}

/// The `mcpServers` entries for a new session of `actor_id`.
pub fn build_mcp_servers(
    loom_binary: Option<&str>,
    actor_id: &str,
    profile_dir: &str,
    memory: Option<&MemorySpec>,
    announcement: Option<&AnnouncementSpec>,
    server_url: Option<&str>,
) -> (out: Vec<McpServerEntry>)
    ensures
        entries_view(out@) == mcp_servers(
            crate::server_url::opt_str_view(loom_binary),
            actor_id@,
            profile_dir@,
            match memory { Some(m) => Some(*m), None => None },
            match announcement { Some(a) => Some(*a), None => None },
            crate::server_url::opt_str_view(server_url),
        ),
{
    let mut out: Vec<McpServerEntry> = Vec::new();
    let bin = match loom_binary {
        Some(b) => b,
        None => {
            assert(entries_view(out@) =~= seq![]);
            return out;
        },
    };
    if let Some(m) = memory {
        if m.delivery.mcp {
            let parts: [&str; 6] = ["mcp", "memory", "--actor-id", actor_id, "--profile-dir", profile_dir];
            let mut args = owned_args(&parts);
            let sb = chars_of(m.store.shard_by.as_str());
            if sb.len() != 0 && !eq_str(&sb, "month") {
                args.push("--shard-by".to_owned());
                args.push(m.store.shard_by.clone());
            }
            proof {
                assert(parts@.map_values(|p: &str| p@) =~= seq!["mcp"@, "memory"@, "--actor-id"@, actor_id@, "--profile-dir"@, profile_dir@]);
                assert(args@.map_values(|a: String| a@) =~= memory_args(actor_id@, profile_dir@, m.store.shard_by@));
            }
            out.push(McpServerEntry { name: "loom-memory".to_owned(), command: bin.to_owned(), args });
        }
    }
    let ghost mem_part = entries_view(out@);
    if let (Some(a), Some(url)) = (announcement, server_url) {
        if a.mcp {
            let parts: [&str; 6] = ["mcp", "announcement", "--actor-id", actor_id, "--server", url];
            let args = owned_args(&parts);
            proof {
                assert(parts@.map_values(|p: &str| p@) =~= announcement_args(actor_id@, url@));
            }
            out.push(McpServerEntry { name: "loom-announcement".to_owned(), command: bin.to_owned(), args });
        }
    }
    assert(entries_view(out@) =~= mcp_servers(
        crate::server_url::opt_str_view(loom_binary),
        actor_id@,
        profile_dir@,
        match memory { Some(m) => Some(*m), None => None },
        match announcement { Some(a) => Some(*a), None => None },
        crate::server_url::opt_str_view(server_url),
    ));
    out
}

} // verus!
