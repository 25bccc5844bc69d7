//! Context resources: the workspace file provider's naming rules and the
//! token-budget waterfall that assembles resource sections into a prompt.

use vstd::prelude::*;

use crate::paths::{appends, joined, path_extension, resolve_under};
use crate::text::{
    chars_of, eq_str, extend_str, lowercase, push_decimal, decimal, starts_with,
    starts_with_chars, slice_chars, string_of, to_lowercase,
};

verus! {

/// Metadata of a resource a provider can read.
#[derive(Debug, Clone)]
pub struct ResourceHandle {
    pub uri: String,
    pub name: String,
    pub size_bytes: u64,
}

/// The content of a resource read from a provider.
#[derive(Debug, Clone)]
pub struct ResourceContent {
    pub uri: String,
    pub media_type: String,
    pub text: String,
}

/// The largest file the file provider reads, in bytes.
pub const MAX_READ_BYTES: u64 = 131072;

/// Mounts workspace files as context resources.
#[derive(Debug, Clone)]
pub struct FileSystemProvider {
    /// Mount path, absolute or relative to the workspace directory.
    pub mount_path: String,
    /// Most files `list` enumerates.
    pub max_files: usize,
}

/// The media type the file provider reports for a file extension
/// (lowercased first); unknown or missing extensions are octet streams.
pub open spec fn media_type_of(ext: Option<Seq<char>>) -> Seq<char> {
    match ext {
        None => "application/octet-stream"@,
        Some(e) => {
            let l = lowercase(e);
            if l == "md"@ { "text/markdown"@ }
            else if l == "txt"@ { "text/plain"@ }
            else if l == "json"@ { "application/json"@ }
            else if l == "yaml"@ || l == "yml"@ { "application/yaml"@ }
            else if l == "toml"@ { "application/toml"@ }
            else if l == "rs"@ { "text/rust"@ }
            else if l == "py"@ { "text/x-python"@ }
            else if l == "js"@ || l == "ts"@ { "text/javascript"@ }
            else { "application/octet-stream"@ }
        },
    }
}

/// The file name a provider URI names: what follows `file:{scope_id}/`,
/// else what follows `file:`; `None` for any other URI.
pub open spec fn uri_file_name(uri: Seq<char>, scope_id: Seq<char>) -> Option<Seq<char>> {
    let prefix = "file:"@ + scope_id + "/"@;
    if starts_with(uri, prefix) {
        Some(uri.skip(prefix.len() as int))
    } else if starts_with(uri, "file:"@) {
        Some(uri.skip(5))
    } else {
        None
    }
}

impl FileSystemProvider {
    /// A provider mounting `mount_path`, listing at most `max_files` files.
    pub fn new(mount_path: String, max_files: usize) -> (p: Self)
        ensures
            p.mount_path == mount_path,
            p.max_files == max_files,
    {
        FileSystemProvider { mount_path, max_files }
    }

    /// The URI scheme this provider serves.
    pub fn scheme(&self) -> (s: &'static str)
        ensures
            s@ == "file"@,
    {
        "file"
    }

    /// The mount directory: the mount path when it is absolute, else the
    /// mount path under `workspace_dir`.
    pub fn resolve_base(&self, workspace_dir: &str) -> (out: String)
        ensures
            appends(workspace_dir@, self.mount_path@) ==> joined(workspace_dir@, self.mount_path@, out@),
    {
        resolve_under(workspace_dir, self.mount_path.as_str())
    }

    /// The media type for a file extension.
    pub fn media_type_for_extension(ext: Option<&str>) -> (out: String)
        ensures
            out@ == media_type_of(match ext { Some(e) => Some(e@), None => None }),
    {
        let t: &str = match ext {
            None => "application/octet-stream",
            Some(e) => {
                let l = to_lowercase(e);
                let c = chars_of(l.as_str());
                if eq_str(&c, "md") { "text/markdown" }
                else if eq_str(&c, "txt") { "text/plain" }
                else if eq_str(&c, "json") { "application/json" }
                else if eq_str(&c, "yaml") || eq_str(&c, "yml") { "application/yaml" }
                else if eq_str(&c, "toml") { "application/toml" }
                else if eq_str(&c, "rs") { "text/rust" }
                else if eq_str(&c, "py") { "text/x-python" }
                else if eq_str(&c, "js") || eq_str(&c, "ts") { "text/javascript" }
                else { "application/octet-stream" }
            },
        };
        t.to_owned()
    }

    /// The media type of the file at `path`, from its extension.
    pub fn infer_media_type(path: &str) -> (out: String)
        ensures
            exists|ext: Option<Seq<char>>|
                (ext matches Some(e) ==> crate::text::contains(path@, seq!['.'] + e))
                && out@ == media_type_of(ext),
    {
        let ext = path_extension(path);
        match &ext {
            Some(e) => Self::media_type_for_extension(Some(e.as_str())),
            None => Self::media_type_for_extension(None),
        }
    }
}

/// The file name a `file:` URI names for the scope `scope_id`, or the
/// error `invalid file URI: {uri}`.
pub fn file_uri_name(uri: &str, scope_id: &str) -> (r: Result<String, String>)
    ensures
        match r {
            Ok(n) => uri_file_name(uri@, scope_id@) == Some(n@),
            Err(m) => uri_file_name(uri@, scope_id@) is None && m@ == "invalid file URI: "@ + uri@,
        },
{
    let u = chars_of(uri);
    let mut prefix: Vec<char> = Vec::new();
    extend_str(&mut prefix, "file:");
    extend_str(&mut prefix, scope_id);
    extend_str(&mut prefix, "/");
    if starts_with_chars(&u, &prefix) {
        let n = slice_chars(&u, prefix.len(), u.len());
        return Ok(string_of(&n));
    }
    let mut f: Vec<char> = Vec::new();
    extend_str(&mut f, "file:");
    if starts_with_chars(&u, &f) {
        proof {
            reveal_strlit("file:");
        }
        let n = slice_chars(&u, 5, u.len());
        return Ok(string_of(&n));
    }
    let mut m: Vec<char> = Vec::new();
    extend_str(&mut m, "invalid file URI: ");
    extend_str(&mut m, uri);
    Err(string_of(&m))
}

/// The error for a file too large to read, if it is.
pub fn read_size_error(path: &str, len: u64) -> (r: Option<String>)
    ensures
        len <= MAX_READ_BYTES ==> r is None,
        len > MAX_READ_BYTES ==> (r matches Some(m) && m@ == "file "@ + path@ + " ("@ + decimal(len as nat)
            + " bytes) exceeds max read size ("@ + decimal(MAX_READ_BYTES as nat) + " bytes)"@),
{
    if len <= MAX_READ_BYTES {
        return None;
    }
    let mut m: Vec<char> = Vec::new();
    extend_str(&mut m, "file ");
    extend_str(&mut m, path);
    extend_str(&mut m, " (");
    push_decimal(&mut m, len);
    extend_str(&mut m, " bytes) exceeds max read size (");
    push_decimal(&mut m, MAX_READ_BYTES);
    extend_str(&mut m, " bytes)");
    Some(string_of(&m))
}

// ───────────────────────── resource registry ─────────────────────────

/// A registered context resource: its scheme, priority (lower assembles
/// first) and the scope kinds it serves.
#[derive(Debug, Clone)]
pub struct RegisteredResource {
    pub scheme: String,
    pub priority: i32,
    pub scopes: Vec<crate::argv::ScopeKind>,
}

/// The resources of a turn in assembly order.
#[derive(Debug, Clone)]
pub struct ContextResourceRegistry {
    pub resources: Vec<RegisteredResource>,
}

/// The priorities of a list of resources.
pub open spec fn priorities(rs: Seq<RegisteredResource>) -> Seq<i32> {
    rs.map_values(|r: RegisteredResource| r.priority)
}

/// Where a resource of priority `p` is registered: before the first
/// resource of higher priority.
pub open spec fn register_pos(ps: Seq<i32>, p: i32) -> int
    decreases ps.len(),
{
    if ps.len() == 0 {
        0
    } else if ps[0] > p {
        0
    } else {
        1 + register_pos(ps.skip(1), p)
    }
}

/// Priorities in non-decreasing order.
pub open spec fn sorted_priorities(ps: Seq<i32>) -> bool {
    forall|i: int, j: int| 0 <= i <= j < ps.len() ==> ps[i] <= ps[j]
}

proof fn lemma_register_pos(ps: Seq<i32>, p: i32)
    ensures
        0 <= register_pos(ps, p) <= ps.len(),
        forall|k: int| 0 <= k < register_pos(ps, p) ==> ps[k] <= p,
        register_pos(ps, p) < ps.len() ==> ps[register_pos(ps, p)] > p,
    decreases ps.len(),
{
    if ps.len() > 0 && ps[0] <= p {
        lemma_register_pos(ps.skip(1), p);
        assert forall|k: int| 0 <= k < register_pos(ps, p) implies ps[k] <= p by {
            if k > 0 {
                assert(ps[k] == ps.skip(1)[k - 1]);
            }
        }
    }
}

impl ContextResourceRegistry {
    /// An empty registry.
    pub fn new() -> (r: Self)
        ensures
            r.resources@.len() == 0,
    {
        ContextResourceRegistry { resources: Vec::new() }
    }

    /// Register a resource after every resource of equal or lower priority.
    pub fn register(&mut self, resource: RegisteredResource)
        ensures
            final(self).resources@ == old(self).resources@.insert(
                register_pos(priorities(old(self).resources@), resource.priority), resource),
    {
        let p = resource.priority;
        let mut i: usize = 0;
        let ghost ps = priorities(self.resources@);
        assert(ps.skip(0) =~= ps);
        while i < self.resources.len() && self.resources[i].priority <= p
            invariant
                i <= self.resources.len(),
                ps == priorities(self.resources@),
                register_pos(ps, p) == i + register_pos(ps.skip(i as int), p),
            decreases self.resources.len() - i,
        {
            assert(ps.skip(i as int)[0] == self.resources@[i as int].priority);
            assert(ps.skip(i as int).skip(1) =~= ps.skip(i + 1));
            i += 1;
        }
        proof {
            if i < self.resources.len() {
                assert(ps.skip(i as int)[0] == self.resources@[i as int].priority);
            }
        }
        self.resources.insert(i, resource);
    }

    /// Whether no resource is registered.
    pub fn is_empty(&self) -> (b: bool)
        ensures
            b == (self.resources@.len() == 0),
    {
        self.resources.len() == 0
    }

    /// Whether a resource of the scheme is registered.
    pub fn has_scheme(&self, scheme: &str) -> (b: bool)
        ensures
            b == exists|i: int| 0 <= i < self.resources@.len() && (#[trigger] self.resources@[i]).scheme@ == scheme@,
    {
        let sc = chars_of(scheme);
        let mut i: usize = 0;
        while i < self.resources.len()
            invariant
                i <= self.resources.len(),
                sc@ == scheme@,
                forall|k: int| 0 <= k < i ==> (#[trigger] self.resources@[k]).scheme@ != scheme@,
            decreases self.resources.len() - i,
        {
            if crate::text::eq_chars(&chars_of(self.resources[i].scheme.as_str()), &sc) {
                return true;
            }
            i += 1;
        }
        false
    }
}

/// Registering keeps the resources in priority order.
pub proof fn law_register_keeps_priority_order(rs: Seq<RegisteredResource>, r: RegisteredResource)
    requires
        sorted_priorities(priorities(rs)),
    ensures
        sorted_priorities(priorities(rs.insert(register_pos(priorities(rs), r.priority), r))),
{
    let ps = priorities(rs);
    lemma_register_pos(ps, r.priority);
    let k = register_pos(ps, r.priority);
    let qs = priorities(rs.insert(k, r));
    assert(qs =~= ps.insert(k, r.priority));
    assert forall|i: int, j: int| 0 <= i <= j < qs.len() implies qs[i] <= qs[j] by {
        if j < k {
        } else if i > k {
            assert(qs[i] == ps[i - 1] && qs[j] == ps[j - 1]);
        } else if i == k && j == k {
        } else if i == k {
            assert(qs[j] == ps[j - 1]);
            assert(ps[k] > r.priority);
            assert(ps[k] <= ps[j - 1]);
        } else if j == k {
            assert(ps[i] <= r.priority);
        } else {
            assert(qs[j] == ps[j - 1]);
        }
    }
}

// ───────────────────────── budget waterfall ─────────────────────────

/// What one resource produced for a turn: whether it serves the turn's
/// scope, and the token counts of its sections (`None` when assembling
/// failed and the resource is skipped).
#[derive(Debug, Clone)]
pub struct AssembledResource {
    pub priority: i32,
    pub in_scope: bool,
    pub section_tokens: Option<Vec<u64>>,
}

/// Waterfall over the sections of one resource.
pub open spec fn sections_fold(priority: i32, ri: int, tokens: Seq<u64>, acc: (Seq<(int, int)>, nat)) -> (Seq<(int, int)>, nat)
    decreases tokens.len(),
{
    if tokens.len() == 0 {
        acc
    } else {
        let before = sections_fold(priority, ri, tokens.drop_last(), acc);
        let t = tokens.last() as nat;
        let si = tokens.len() - 1;
        if priority != 0 && t > before.1 {
            before
        } else {
            (before.0.push((ri, si)), if before.1 >= t { (before.1 - t) as nat } else { 0 })
        }
    }
}

/// Waterfall over the resources: sections of resources out of scope or
/// that failed are skipped; a section over the remaining budget is skipped
/// (never truncated) unless its resource has priority 0; included sections
/// use up the budget (not below zero).
pub open spec fn waterfall(rs: Seq<AssembledResource>, budget: nat) -> (Seq<(int, int)>, nat)
    decreases rs.len(),
{
    if rs.len() == 0 {
        (seq![], budget)
    } else {
        let before = waterfall(rs.drop_last(), budget);
        let r = rs.last();
        if !r.in_scope {
            before
        } else {
            match r.section_tokens {
                None => before,
                Some(ts) => sections_fold(r.priority, rs.len() - 1, ts@, before),
            }
        }
    }
}

/// The views of the included (resource, section) positions.
pub open spec fn positions(v: Seq<(usize, usize)>) -> Seq<(int, int)> {
    v.map_values(|p: (usize, usize)| (p.0 as int, p.1 as int))
}

/// Apply the token budget to the resources' sections: the positions of
/// the included sections, in order, and the budget left.
pub fn assemble_chain(resources: &Vec<AssembledResource>, budget: u64) -> (r: (Vec<(usize, usize)>, u64))
    ensures
        positions(r.0@) == waterfall(resources@, budget as nat).0,
        r.1 as nat == waterfall(resources@, budget as nat).1,
{
    let mut included: Vec<(usize, usize)> = Vec::new();
    let mut remaining: u64 = budget;
    let mut i: usize = 0;
    assert(resources@.take(0) =~= Seq::<AssembledResource>::empty());
    while i < resources.len()
        invariant
            i <= resources.len(),
            (positions(included@), remaining as nat) == waterfall(resources@.take(i as int), budget as nat),
        decreases resources.len() - i,
    {
        proof {
            assert(resources@.take(i + 1).drop_last() =~= resources@.take(i as int));
            assert(resources@.take(i + 1).last() == resources@[i as int]);
        }
        let r = &resources[i];
        if r.in_scope {
            if let Some(ts) = &r.section_tokens {
                let ghost acc = (positions(included@), remaining as nat);
                let mut j: usize = 0;
                assert(ts@.take(0) =~= Seq::<u64>::empty());
                while j < ts.len()
                    invariant
                        j <= ts.len(),
                        i < resources.len(),
                        (positions(included@), remaining as nat) == sections_fold(r.priority, i as int, ts@.take(j as int), acc),
                    decreases ts.len() - j,
                {
                    proof {
                        assert(ts@.take(j + 1).drop_last() =~= ts@.take(j as int));
                        assert(ts@.take(j + 1).last() == ts@[j as int]);
                    }
                    let t = ts[j];
                    if r.priority != 0 && t > remaining {
                    } else {
                        let ghost before = positions(included@);
                        included.push((i, j));
                        assert(positions(included@) =~= before.push((i as int, j as int)));
                        remaining = if remaining >= t { remaining - t } else { 0 };
                    }
                    j += 1;
                }
                assert(ts@.take(ts.len() as int) =~= ts@);
            }
        }
        i += 1;
    }
    assert(resources@.take(resources.len() as int) =~= resources@);
    (included, remaining)
}

/// The tokens a section uses up of the budget: its count for resources of
/// priority other than 0, nothing for priority-0 resources (which are
/// always included).
pub open spec fn section_cost(rs: Seq<AssembledResource>, ri: int, si: int) -> int {
    if rs[ri].priority != 0 {
        match rs[ri].section_tokens {
            Some(ts) => ts@[si] as int,
            None => 0,
        }
    } else {
        0
    }
}

/// The budgeted tokens of the sections at positions `pos`.
pub open spec fn charged(rs: Seq<AssembledResource>, pos: Seq<(int, int)>) -> int
    decreases pos.len(),
{
    if pos.len() == 0 {
        0
    } else {
        charged(rs, pos.drop_last()) + section_cost(rs, pos.last().0, pos.last().1)
    }
}

proof fn lemma_sections_charged(rs: Seq<AssembledResource>, k: int, m: int, acc: (Seq<(int, int)>, nat))
    requires
        0 <= k < rs.len(),
        rs[k].section_tokens is Some,
        0 <= m <= rs[k].section_tokens->0@.len(),
    ensures
        ({
            let res = sections_fold(rs[k].priority, k, rs[k].section_tokens->0@.take(m), acc);
            charged(rs, res.0) + res.1 <= charged(rs, acc.0) + acc.1
        }),
    decreases m,
{
    let ts = rs[k].section_tokens->0@;
    if m > 0 {
        assert(ts.take(m).drop_last() =~= ts.take(m - 1));
        lemma_sections_charged(rs, k, m - 1, acc);
        let before = sections_fold(rs[k].priority, k, ts.take(m - 1), acc);
        let t = ts[m - 1];
        if !(rs[k].priority != 0 && t > before.1) {
            let pushed = before.0.push((k, m - 1));
            assert(pushed.drop_last() =~= before.0);
        }
    } else {
        assert(ts.take(0) =~= Seq::<u64>::empty());
    }
}

proof fn lemma_waterfall_charged(rs: Seq<AssembledResource>, budget: nat, k: int)
    requires
        0 <= k <= rs.len(),
    ensures
        charged(rs, waterfall(rs.take(k), budget).0) + waterfall(rs.take(k), budget).1 <= budget,
    decreases k,
{
    if k > 0 {
        lemma_waterfall_charged(rs, budget, k - 1);
        assert(rs.take(k).drop_last() =~= rs.take(k - 1));
        assert(rs.take(k).last() == rs[k - 1]);
        let r = rs[k - 1];
        if r.in_scope {
            if let Some(ts) = r.section_tokens {
                lemma_sections_charged(rs, k - 1, ts@.len() as int, waterfall(rs.take(k - 1), budget));
                assert(ts@.take(ts@.len() as int) =~= ts@);
            }
        }
    } else {
        assert(rs.take(0) =~= Seq::<AssembledResource>::empty());
    }
}

/// The budget waterfall never over-spends: the sections it includes from
/// resources of priority other than 0 hold, together with the budget it
/// reports left, no more tokens than the budget it started with.
pub proof fn law_waterfall_within_budget(rs: Seq<AssembledResource>, budget: nat)
    ensures
        charged(rs, waterfall(rs, budget).0) + waterfall(rs, budget).1 <= budget,
{
    lemma_waterfall_charged(rs, budget, rs.len() as int);
    assert(rs.take(rs.len() as int) =~= rs);
}

} // verus!
