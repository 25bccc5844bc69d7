//! Path joining as `std::path` does it, stated only as far as it is the same
//! on every platform: the separator it inserts is platform-specific.

use vstd::prelude::*;

verus! {

/// A separator on some platform: `/` everywhere, `\\` on Windows.
pub open spec fn is_separator(c: char) -> bool {
    c == '/' || c == '\\'
}

/// `out` is `base`, then at most one separator, then `rel`: none after an
/// empty `base` or one ending in `/`, and one after a `base` that ends in
/// neither separator and holds no drive colon.
pub open spec fn joined(base: Seq<char>, rel: Seq<char>, out: Seq<char>) -> bool {
    exists|m: Seq<char>| {
        &&& out == base + m + rel
        &&& m.len() == 0 || (m.len() == 1 && is_separator(m[0]))
        &&& (base.len() == 0 || base.last() == '/') ==> m.len() == 0
        &&& (base.len() > 0 && !is_separator(base.last()) && !base.contains(':')) ==> m.len() == 1
    }
}

/// A Windows verbatim path (`\\?\`): joining onto one normalises `.` and
/// `..` away.
pub open spec fn is_verbatim(p: Seq<char>) -> bool {
    p.len() >= 4 && p[0] == '\\' && p[1] == '\\' && p[2] == '?' && p[3] == '\\'
}

/// A path joined onto a base that is no verbatim path (and not a short one
/// holding `\\`) is no verbatim path either.
pub proof fn lemma_join_keeps_plain(base: Seq<char>, rel: Seq<char>, out: Seq<char>)
    requires
        !is_verbatim(base),
        base.len() >= 4 || !base.contains('\\'),
        is_relative_text(rel),
        joined(base, rel, out),
    ensures
        !is_verbatim(out),
{
    let m = choose|m: Seq<char>| {
        &&& out == base + m + rel
        &&& m.len() == 0 || (m.len() == 1 && is_separator(m[0]))
        &&& (base.len() == 0 || base.last() == '/') ==> m.len() == 0
        &&& (base.len() > 0 && !is_separator(base.last()) && !base.contains(':')) ==> m.len() == 1
    };
    if base.len() >= 4 {
        assert(out[0] == base[0] && out[1] == base[1] && out[2] == base[2] && out[3] == base[3]);
    } else if base.len() > 0 {
        assert(out[0] == base[0]);
        assert(base.contains(base[0]));
    } else {
        assert(out =~= rel);
    }
}

/// Joining `rel` onto `base` appends it on every platform: `rel` is relative
/// everywhere and `base` is no verbatim path.
pub open spec fn appends(base: Seq<char>, rel: Seq<char>) -> bool {
    is_relative_text(rel) && !is_verbatim(base)
}

/// A path that is relative on every platform: it does not start with a
/// separator and holds no drive colon.
pub open spec fn is_relative_text(s: Seq<char>) -> bool {
    !(s.len() > 0 && (s[0] == '/' || s[0] == '\\')) && !s.contains(':')
}

/// Calls `Path::join` and renders the result as a `String`. When `rel` is
/// relative on every platform and `base` is no verbatim path, the result is
/// `base`, then a separator where `PathBuf::push` needs one (none after an
/// empty base or a trailing separator, none after a bare drive), then
/// `rel`; which separator is the platform's (`/` or `\\`), and whether one
/// follows a base ending in `\\` or holding a drive colon is left unsaid.
/// When `rel` is rooted or has a drive prefix, or `base` is verbatim, the
/// platform's rules replace or normalise parts, which are left unsaid too.
#[verifier::external_body]
pub(crate) fn join_path(base: &str, rel: &str) -> (out: String)
    ensures
        appends(base@, rel@) ==> joined(base@, rel@, out@),
{
    std::path::Path::new(base).join(rel).to_string_lossy().into_owned()
}

/// Calls `Path::is_absolute`. A path that is relative on every platform is
/// not absolute; for other paths the answer is the platform's and left
/// unsaid.
#[verifier::external_body]
pub(crate) fn path_is_absolute(p: &str) -> (b: bool)
    ensures
        is_relative_text(p@) ==> !b,
{
    std::path::Path::new(p).is_absolute()
}

/// `rel` itself when it is absolute, else `rel` under `base` (how
/// configured relative paths are resolved).
pub fn resolve_under(base: &str, rel: &str) -> (out: String)
    ensures
        appends(base@, rel@) ==> joined(base@, rel@, out@),
{
    if path_is_absolute(rel) {
        rel.to_owned()
    } else {
        join_path(base, rel)
    }
}

/// `config_dir/providers`: the directory holding provider manifests.
pub fn providers_dir(config_dir: &str) -> (out: String)
    ensures
        !is_verbatim(config_dir@) ==> joined(config_dir@, "providers"@, out@),
{
    proof {
        reveal_strlit("providers");
        assert(!"providers"@.contains(':'));
    }
    join_path(config_dir, "providers")
}

/// What follows the last `/` of a path (the whole path when it has none).
pub open spec fn last_segment(p: Seq<char>) -> Seq<char>
    decreases p.len(),
{
    if p.len() == 0 {
        p
    } else if p.last() == '/' {
        Seq::empty()
    } else {
        last_segment(p.drop_last()).push(p.last())
    }
}

/// The index of the last `.` of `s`, or -1.
pub open spec fn last_dot(s: Seq<char>) -> int
    decreases s.len(),
{
    if s.len() == 0 {
        -1
    } else if s.last() == '.' {
        s.len() - 1
    } else {
        last_dot(s.drop_last())
    }
}

/// The extension of a file name: what follows its last `.`, unless the name
/// has no `.` or its only `.` comes first.
pub open spec fn name_extension(name: Seq<char>) -> Option<Seq<char>> {
    let i = last_dot(name);
    if i > 0 { Some(name.subrange(i + 1, name.len() as int)) } else { None }
}

/// A path that every platform splits alike: no `\`, no leading `//`, and a
/// last segment that is a plain name (not empty, `.` or `..`, no `:`), which
/// is then its file name on every platform.
pub open spec fn portable_file_path(p: Seq<char>) -> bool {
    let name = last_segment(p);
    &&& !p.contains('\\')
    &&& !(p.len() >= 2 && p[0] == '/' && p[1] == '/')
    &&& name.len() > 0
    &&& !name.contains(':')
    &&& name != "."@
    &&& name != ".."@
}

/// Calls `Path::extension`. What holds on every platform: `path` holds a
/// `.` followed by the extension. On a path that every platform splits alike
/// the extension is what follows the last `.` of the last segment, unless
/// that segment has no `.` or its only `.` comes first (as `std` documents
/// it). How other paths are split (separators, prefixes, a trailing
/// separator or `.`) is the platform's business and left unsaid.
#[verifier::external_body]
pub(crate) fn path_extension(path: &str) -> (r: Option<String>)
    ensures
        r matches Some(e) ==> crate::text::contains(path@, seq!['.'] + e@),
        portable_file_path(path@) ==> match r {
            Some(e) => name_extension(last_segment(path@)) == Some(e@),
            None => name_extension(last_segment(path@)) is None,
        },
{
    std::path::Path::new(path).extension().and_then(|e| e.to_str()).map(|e| e.to_string())
}

} // verus!
