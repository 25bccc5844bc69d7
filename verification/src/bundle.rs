//! Versions of installed agent bundles: the directory name a bundle is
//! installed under, derived from its declared version or its source path.

use vstd::prelude::*;

use crate::text::{
    char_is_ascii_alnum, chars_of, contains, extend_str, is_ascii_alnum, is_blank, string_of,
    trim, trim_chars,
};

verus! {

/// The part of an agent's bundle declaration that decides its version.
#[derive(Debug, Clone, PartialEq, Eq, Default)]
pub struct AgentBundleSpec {
    pub source: String,
    pub version: String,
}

/// A bundle ready to be copied: its version and the directory it goes to.
#[derive(Debug, Clone, PartialEq, Eq)]
pub struct PreparedBundleInstall {
    pub version: String,
    pub install_dir: String,
}

/// Characters kept as they are in a bundle version.
pub open spec fn is_version_char(c: char) -> bool {
    is_ascii_alnum(c) || c == '.' || c == '-' || c == '_'
}

/// Every other character becomes `-`.
pub open spec fn sanitize_version(s: Seq<char>) -> Seq<char> {
    s.map_values(|c: char| if is_version_char(c) { c } else { '-' })
}

/// The version before sanitising: the trimmed declared version, else the
/// source's file name, else `bundle`.
pub open spec fn raw_version(version: Seq<char>, file_name: Option<Seq<char>>) -> Seq<char> {
    if trim(version).len() != 0 {
        trim(version)
    } else {
        match file_name {
            Some(n) => n,
            None => "bundle"@,
        }
    }
}

/// Whether every character of `s` is a version character.
pub open spec fn all_version_chars(s: Seq<char>) -> bool {
    forall|i: int| 0 <= i < s.len() ==> is_version_char(#[trigger] s[i])
}

/// Whether `s` is one ordinary path component: not empty, `.` or `..`
/// (for strings made of version characters).
pub open spec fn is_safe_component(s: Seq<char>) -> bool {
    s.len() != 0 && s != "."@ && s != ".."@
}

/// The message of the error for an unsafe version.
pub open spec fn unsafe_version_message(v: Seq<char>) -> Seq<char> {
    "bundle version `"@ + v + "` is not a safe path component"@
}

/// Calls `Path::file_name` on `source`. What holds on every platform: a
/// file name is a non-empty piece of `source` without `/`. Which piece it is
/// depends on the platform's separators and is left unsaid.
#[verifier::external_body]
fn source_file_name(source: &str) -> (r: Option<String>)
    ensures
        r matches Some(n) ==> n@.len() > 0 && contains(source@, n@) && !n@.contains('/'),
{
    std::path::Path::new(source).file_name().and_then(|s| s.to_str()).map(|s| s.to_string())
}

/// The kind of a path component, as `std::path::Component` tells them apart.
#[derive(Debug, Clone, Copy, PartialEq, Eq)]
pub enum ComponentKind {
    Prefix,
    RootDir,
    CurDir,
    ParentDir,
    Normal,
}

/// Calls `Path::components` on `s` and gives the kinds of its components.
/// For a string of version characters (no separator, no drive prefix) there
/// is exactly one `Normal` component when it is not empty, `.` or `..`, and
/// never that otherwise, on every platform; other strings are split as the
/// platform does and that is left unsaid.
#[verifier::external_body]
fn component_kinds(s: &str) -> (r: Vec<ComponentKind>)
    ensures
        all_version_chars(s@) ==> ((r@ == seq![ComponentKind::Normal]) == is_safe_component(s@)),
{
    std::path::Path::new(s)
        .components()
        .map(|c| match c {
            std::path::Component::Prefix(_) => ComponentKind::Prefix,
            std::path::Component::RootDir => ComponentKind::RootDir,
            std::path::Component::CurDir => ComponentKind::CurDir,
            std::path::Component::ParentDir => ComponentKind::ParentDir,
            std::path::Component::Normal(_) => ComponentKind::Normal,
        })
        .collect()
}

/// Whether the kinds are exactly one `Normal` component.
fn is_single_normal(kinds: &Vec<ComponentKind>) -> (b: bool)
    ensures
        b == (kinds@ == seq![ComponentKind::Normal]),
{
    if kinds.len() == 1 {
        match kinds[0] {
            ComponentKind::Normal => {
                assert(kinds@ =~= seq![ComponentKind::Normal]);
                true
            },
            _ => false,
        }
    } else {
        false
    }
}

/// The sanitised version for a declared `version` and the file name of the
/// bundle source.
pub fn bundle_version_from(version: &str, file_name: Option<&str>) -> (out: String)
    ensures
        out@ == sanitize_version(raw_version(version@, match file_name { Some(n) => Some(n@), None => None })),
{
    let v = chars_of(version);
    let mut raw: Vec<char> = if !is_blank(&v) {
        trim_chars(&v)
    } else {
        match file_name {
            Some(n) => chars_of(n),
            None => {
                let mut b: Vec<char> = Vec::new();
                extend_str(&mut b, "bundle");
                b
            },
        }
    };
    let ghost r0 = raw@;
    let mut i: usize = 0;
    while i < raw.len()
        invariant
            i <= raw.len(),
            raw.len() == r0.len(),
            forall|k: int| 0 <= k < i ==> raw@[k] == (if is_version_char(r0[k]) { r0[k] } else { '-' }),
            forall|k: int| i <= k < raw.len() ==> raw@[k] == r0[k],
        decreases raw.len() - i,
    {
        let c = raw[i];
        if !(char_is_ascii_alnum(c) || c == '.' || c == '-' || c == '_') {
            raw.set(i, '-');
        }
        i += 1;
    }
    assert(raw@ =~= sanitize_version(r0));
    string_of(&raw)
}

/// The version a bundle is installed under: the declared version, or the
/// source's file name, with every character outside `[A-Za-z0-9._-]`
/// replaced by `-`.
pub fn normalized_bundle_version(bundle: &AgentBundleSpec, source: &str) -> (out: String)
    ensures
        trim(bundle.version@).len() != 0 ==> out@ == sanitize_version(trim(bundle.version@)),
        trim(bundle.version@).len() == 0 ==> exists|n: Option<Seq<char>>|
            (n matches Some(m) ==> m.len() > 0 && contains(source@, m) && !m.contains('/'))
            && out@ == sanitize_version(raw_version(bundle.version@, n)),
{
    let name = source_file_name(source);
    let out = match &name {
        Some(n) => bundle_version_from(bundle.version.as_str(), Some(n.as_str())),
        None => bundle_version_from(bundle.version.as_str(), None),
    };
    proof {
        let n = opt_name(name);
        assert(out@ == sanitize_version(raw_version(bundle.version@, n)));
    }
    out
}

/// The views of an optional string.
pub open spec fn opt_name(o: Option<String>) -> Option<Seq<char>> {
    match o {
        Some(s) => Some(s@),
        None => None,
    }
}

/// The version of a bundle that has a source; empty when it has none.
pub fn resolved_bundle_version(bundle: &AgentBundleSpec, source: &str) -> (out: String)
    ensures
        trim(bundle.source@).len() == 0 ==> out@.len() == 0,
        trim(bundle.source@).len() != 0 && trim(bundle.version@).len() != 0
            ==> out@ == sanitize_version(trim(bundle.version@)),
        trim(bundle.source@).len() != 0 && trim(bundle.version@).len() == 0 ==> exists|n: Option<Seq<char>>|
            (n matches Some(m) ==> m.len() > 0 && contains(source@, m) && !m.contains('/'))
            && out@ == sanitize_version(raw_version(bundle.version@, n)),
{
    let s = chars_of(bundle.source.as_str());
    if is_blank(&s) {
        String::new()
    } else {
        normalized_bundle_version(bundle, source)
    }
}

/// Accept a version that is a single ordinary path component.
pub fn validate_version_component(version: &str) -> (r: Result<(), String>)
    ensures
        all_version_chars(version@) ==> (r is Ok <==> is_safe_component(version@)),
        r matches Err(m) ==> m@ == unsafe_version_message(version@),
{
    if is_single_normal(&component_kinds(version)) {
        Ok(())
    } else {
        let mut m: Vec<char> = Vec::new();
        extend_str(&mut m, "bundle version `");
        extend_str(&mut m, version);
        extend_str(&mut m, "` is not a safe path component");
        Err(string_of(&m))
    }
}

/// Every character of a sanitised version is a version character, so a
/// resolved version passes `validate_version_component` exactly when it is
/// not empty, `.` or `..`.
pub proof fn law_sanitized_version_chars(s: Seq<char>)
    ensures
        all_version_chars(sanitize_version(s)),
{
    assert forall|i: int| 0 <= i < sanitize_version(s).len() implies is_version_char(#[trigger] sanitize_version(s)[i]) by {
        if is_version_char(s[i]) {
        } else {
            assert(is_version_char('-'));
        }
    }
}

} // verus!
