//! Provider manifests: the syntax rules of provider ids, JSON paths,
//! workspace files and template placeholders, and the rendering of prompt
//! outputs from prompt parts.

use vstd::prelude::*;

use crate::adapter::{PromptPart, PromptRoleHint};
use crate::text::{decimal, push_decimal};
use crate::text::{
    chars_of, contains, contains_str, eq_chars, eq_str, extend_chars, extend_str, is_ascii_alnum,
    is_ascii_digit, is_ascii_lower, is_blank, join, join_chars, replace, replace_str, slice_chars,
    starts_with, starts_with_chars, string_of, trim, trim_chars, trim_start, leading_ws,
};

verus! {

// ───────────────────────── provider ids ─────────────────────────

/// A character allowed after the first in a provider id.
pub open spec fn is_id_char(c: char) -> bool {
    is_ascii_lower(c) || is_ascii_digit(c) || c == '_' || c == '-' || c == '.'
}

/// Why a provider id is refused, if it is: it must not be empty, must start
/// with a lowercase ASCII letter or digit, and may only contain lowercase
/// ASCII letters, digits, `_`, `-` and `.`.
pub open spec fn provider_id_error(id: Seq<char>) -> Option<Seq<char>> {
    if id.len() == 0 {
        Some("provider id is required"@)
    } else if !is_ascii_lower(id[0]) && !is_ascii_digit(id[0]) {
        Some("provider id `"@ + id + "` must start with a lowercase ascii letter or digit"@)
    } else if !(forall|i: int| 1 <= i < id.len() ==> is_id_char(#[trigger] id[i])) {
        Some("provider id `"@ + id + "` may only contain lowercase ascii letters, digits, `_`, `-`, or `.`"@)
    } else {
        None
    }
}

fn is_lower_or_digit(c: char) -> (b: bool)
    ensures
        b == (is_ascii_lower(c) || is_ascii_digit(c)),
{
    ('a' <= c && c <= 'z') || ('0' <= c && c <= '9')
}

fn message(a: &str, mid: &str, b: &str) -> (out: String)
    ensures
        out@ == a@ + mid@ + b@,
{
    let mut m: Vec<char> = Vec::new();
    extend_str(&mut m, a);
    extend_str(&mut m, mid);
    extend_str(&mut m, b);
    string_of(&m)
}

/// Check a provider id.
pub fn validate_provider_id(id: &str) -> (r: Result<(), String>)
    ensures
        match r {
            Ok(()) => provider_id_error(id@) is None,
            Err(m) => provider_id_error(id@) == Some(m@),
        },
{
    let c = chars_of(id);
    if c.len() == 0 {
        return Err("provider id is required".to_owned());
    }
    if !is_lower_or_digit(c[0]) {
        return Err(message("provider id `", id, "` must start with a lowercase ascii letter or digit"));
    }
    let mut i: usize = 1;
    while i < c.len()
        invariant
            1 <= i <= c.len(),
            c@ == id@,
            is_ascii_lower(c@[0]) || is_ascii_digit(c@[0]),
            forall|k: int| 1 <= k < i ==> is_id_char(#[trigger] c@[k]),
        decreases c.len() - i,
    {
        let ch = c[i];
        if !(is_lower_or_digit(ch) || ch == '_' || ch == '-' || ch == '.') {
            assert(!is_id_char(c@[i as int]));
            return Err(message("provider id `", id, "` may only contain lowercase ascii letters, digits, `_`, `-`, or `.`"));
        }
        i += 1;
    }
    Ok(())
}

// ───────────────────────── JSON paths ─────────────────────────

/// A key of a JSON path segment: ASCII alphanumerics, `_` and `-`.
pub open spec fn valid_key(key: Seq<char>) -> bool {
    key.len() > 0 && forall|i: int| 0 <= i < key.len() ==> (is_ascii_alnum(#[trigger] key[i]) || key[i] == '_' || key[i] == '-')
}

/// Whether a JSON path key is valid.
pub fn valid_json_path_key(key: &[char]) -> (b: bool)
    ensures
        b == valid_key(key@),
{
    if key.len() == 0 {
        return false;
    }
    let mut i: usize = 0;
    while i < key.len()
        invariant
            i <= key.len(),
            forall|k: int| 0 <= k < i ==> (is_ascii_alnum(#[trigger] key@[k]) || key@[k] == '_' || key@[k] == '-'),
        decreases key.len() - i,
    {
        let c = key[i];
        if !(crate::text::char_is_ascii_alnum(c) || c == '_' || c == '-') {
            return false;
        }
        i += 1;
    }
    true
}

/// An index between brackets: `*` or ASCII digits.
pub open spec fn valid_index(index: Seq<char>) -> bool {
    index == "*"@ || (index.len() > 0 && crate::json::all_digits(index))
}

/// Why the bracketed indices `rest` of a segment are refused, if they are.
pub open spec fn indices_error(path: Seq<char>, segment: Seq<char>, rest: Seq<char>) -> Option<Seq<char>>
    decreases rest.len(),
{
    if rest.len() == 0 {
        None
    } else if rest[0] != '[' {
        Some("unsupported json path segment `"@ + segment + "` in `"@ + path + "`"@)
    } else {
        proof {
            crate::json::lemma_first_of(rest, ']');
        }
        match crate::json::first_of(rest, ']') {
            None => Some("unterminated json path index in `"@ + path + "`"@),
            Some(close) => {
                let index = rest.subrange(1, close);
                if !valid_index(index) {
                    Some("unsupported json path index `"@ + index + "` in `"@ + path + "`"@)
                } else {
                    indices_error(path, segment, rest.skip(close + 1))
                }
            },
        }
    }
}

/// Why a path segment is refused, if it is: a valid key (possibly empty
/// before `[`), then only `[index]` groups.
pub open spec fn segment_error(path: Seq<char>, segment: Seq<char>) -> Option<Seq<char>> {
    match crate::json::first_of(segment, '[') {
        None => if valid_key(segment) { None } else {
            Some("unsupported json path segment `"@ + segment + "` in `"@ + path + "`"@)
        },
        Some(open) => {
            let key = segment.take(open);
            if key.len() > 0 && !valid_key(key) {
                Some("unsupported json path segment `"@ + segment + "` in `"@ + path + "`"@)
            } else {
                indices_error(path, segment, segment.skip(open))
            }
        },
    }
}

/// Check one segment of a JSON path.
pub fn validate_json_path_segment(path: &[char], segment: &[char]) -> (r: Result<(), String>)
    ensures
        match r {
            Ok(()) => segment_error(path@, segment@) is None,
            Err(m) => segment_error(path@, segment@) == Some(m@),
        },
{
    proof {
        crate::json::lemma_first_of(segment@, '[');
    }
    let open = match crate::json::find_char(segment, '[') {
        None => {
            if !valid_json_path_key(segment) {
                return Err(segment_message(path, segment));
            }
            return Ok(());
        },
        Some(o) => o,
    };
    let key = slice_chars(segment, 0, open);
    if key.len() > 0 && !valid_json_path_key(&key) {
        return Err(segment_message(path, segment));
    }
    let mut rest = slice_chars(segment, open, segment.len());
    assert(rest@ =~= segment@.skip(open as int));
    loop
        invariant
            indices_error(path@, segment@, rest@) == segment_error(path@, segment@),
        decreases rest.len(),
    {
        if rest.len() == 0 {
            return Ok(());
        }
        if rest[0] != '[' {
            return Err(segment_message(path, segment));
        }
        proof {
            crate::json::lemma_first_of(rest@, ']');
        }
        let close = match crate::json::find_char(&rest, ']') {
            None => {
                let mut m: Vec<char> = Vec::new();
                extend_str(&mut m, "unterminated json path index in `");
                extend_chars(&mut m, path);
                extend_str(&mut m, "`");
                return Err(string_of(&m));
            },
            Some(c) => c,
        };
        let index = slice_chars(&rest, 1, close);
        let star = index.len() == 1 && index[0] == '*';
        proof {
            reveal_strlit("*");
            if index@ == "*"@ {
                assert(index@[0] == '*');
            }
            if star {
                assert(index@ =~= "*"@);
            }
        }
        if !star && (index.len() == 0 || !all_ascii_digits(&index)) {
            let mut m: Vec<char> = Vec::new();
            extend_str(&mut m, "unsupported json path index `");
            extend_chars(&mut m, &index);
            extend_str(&mut m, "` in `");
            extend_chars(&mut m, path);
            extend_str(&mut m, "`");
            return Err(string_of(&m));
        }
        rest = slice_chars(&rest, close + 1, rest.len());
    }
}

fn segment_message(path: &[char], segment: &[char]) -> (out: String)
    ensures
        out@ == "unsupported json path segment `"@ + segment@ + "` in `"@ + path@ + "`"@,
{
    let mut m: Vec<char> = Vec::new();
    extend_str(&mut m, "unsupported json path segment `");
    extend_chars(&mut m, segment);
    extend_str(&mut m, "` in `");
    extend_chars(&mut m, path);
    extend_str(&mut m, "`");
    string_of(&m)
}

fn all_ascii_digits(s: &[char]) -> (b: bool)
    ensures
        b == crate::json::all_digits(s@),
{
    let mut i: usize = 0;
    while i < s.len()
        invariant
            i <= s.len(),
            forall|k: int| 0 <= k < i ==> '0' <= #[trigger] s@[k] <= '9',
        decreases s.len() - i,
    {
        if !('0' <= s[i] && s[i] <= '9') {
            return false;
        }
        i += 1;
    }
    true
}

/// Why the first offending segment of `segs` is refused, if one is.
pub open spec fn segments_error(raw: Seq<char>, segs: Seq<Seq<char>>) -> Option<Seq<char>>
    decreases segs.len(),
{
    if segs.len() == 0 {
        None
    } else if segs[0].len() == 0 {
        Some("unsupported empty json path segment in `"@ + raw + "`"@)
    } else {
        match segment_error(raw, segs[0]) {
            Some(e) => Some(e),
            None => segments_error(raw, segs.skip(1)),
        }
    }
}

/// Why a JSON path is refused, if it is: it must not be blank, must have
/// something after its optional `$.` or `.` other than `$`, and every
/// `.`-separated segment must be valid.
pub open spec fn json_path_error(path: Seq<char>) -> Option<Seq<char>> {
    let raw = trim(path);
    if raw.len() == 0 {
        Some("json path is required"@)
    } else {
        let p = crate::json::strip_path_root(raw);
        if p.len() == 0 || p == "$"@ {
            Some("unsupported json path `"@ + raw + "`"@)
        } else {
            segments_error(raw, crate::json::path_segments(p))
        }
    }
}

/// Check the syntax of a JSON path as the runtime's path lookup reads it.
pub fn validate_json_path_syntax(path: &str) -> (r: Result<(), String>)
    ensures
        match r {
            Ok(()) => json_path_error(path@) is None,
            Err(m) => json_path_error(path@) == Some(m@),
        },
{
    let raw = trim_chars(&chars_of(path));
    if raw.len() == 0 {
        return Err("json path is required".to_owned());
    }
    let start: usize = if raw.len() >= 2 && raw[0] == '$' && raw[1] == '.' {
        2
    } else if raw.len() >= 1 && raw[0] == '.' {
        1
    } else {
        0
    };
    let p = slice_chars(&raw, start, raw.len());
    assert(p@ =~= crate::json::strip_path_root(raw@));
    let dollar = p.len() == 1 && p[0] == '$';
    proof {
        reveal_strlit("$");
        if p@ == "$"@ {
            assert(p@[0] == '$');
        }
        if dollar {
            assert(p@ =~= "$"@);
        }
    }
    if p.len() == 0 || dollar {
        let mut m: Vec<char> = Vec::new();
        extend_str(&mut m, "unsupported json path `");
        extend_chars(&mut m, &raw);
        extend_str(&mut m, "`");
        return Err(string_of(&m));
    }
    let mut i: usize = 0;
    let ghost all = crate::json::path_segments(p@);
    assert(p@.skip(0) =~= p@);
    loop
        invariant
            i <= p.len(),
            segments_error(raw@, all) == segments_error(raw@, crate::json::path_segments(p@.skip(i as int))),
            json_path_error(path@) == segments_error(raw@, all),
        decreases p.len() - i,
    {
        let rest = slice_chars(&p, i, p.len());
        assert(rest@ =~= p@.skip(i as int));
        proof {
            crate::json::lemma_first_of(rest@, '.');
        }
        let (seg, last) = match crate::json::find_char(&rest, '.') {
            None => (rest, true),
            Some(k) => (slice_chars(&rest, 0, k), false),
        };
        let ghost segs = crate::json::path_segments(rest@);
        proof {
            if last {
                assert(segs == seq![rest@]);
            } else {
                let k = crate::json::first_of(rest@, '.')->0;
                assert(segs == seq![rest@.take(k)] + crate::json::path_segments(rest@.skip(k + 1)));
            }
            assert(segs[0] == seg@);
        }
        if seg.len() == 0 {
            let mut m: Vec<char> = Vec::new();
            extend_str(&mut m, "unsupported empty json path segment in `");
            extend_chars(&mut m, &raw);
            extend_str(&mut m, "`");
            return Err(string_of(&m));
        }
        match validate_json_path_segment(&raw, &seg) {
            Err(e) => return Err(e),
            Ok(()) => {},
        }
        assert(segments_error(raw@, segs) == segments_error(raw@, segs.skip(1)));
        if last {
            assert(segs.skip(1) =~= Seq::<Seq<char>>::empty());
            return Ok(());
        }
        let k = seg.len();
        proof {
            assert(segs.skip(1) =~= crate::json::path_segments(rest@.skip(k + 1)));
            assert(rest@.skip(k + 1) =~= p@.skip(i + k + 1));
        }
        i = i + k + 1;
    }
}

// ───────────────────────── workspace files ─────────────────────────

/// A workspace file key: a lowercase ASCII letter or digit, then lowercase
/// letters, digits, `_` and `-`.
pub open spec fn workspace_key(key: Seq<char>) -> bool {
    key.len() > 0 && (is_ascii_lower(key[0]) || is_ascii_digit(key[0]))
        && forall|i: int| 1 <= i < key.len() ==> (is_ascii_lower(#[trigger] key[i]) || is_ascii_digit(key[i])
            || key[i] == '_' || key[i] == '-')
}

/// Whether a string is a workspace file key.
pub fn is_workspace_file_key(key: &str) -> (b: bool)
    ensures
        b == workspace_key(key@),
{
    let c = chars_of(key);
    if c.len() == 0 || !is_lower_or_digit(c[0]) {
        return false;
    }
    let mut i: usize = 1;
    while i < c.len()
        invariant
            1 <= i <= c.len(),
            c@ == key@,
            forall|k: int| 1 <= k < i ==> (is_ascii_lower(#[trigger] c@[k]) || is_ascii_digit(c@[k]) || c@[k] == '_' || c@[k] == '-'),
        decreases c.len() - i,
    {
        let ch = c[i];
        if !(is_lower_or_digit(ch) || ch == '_' || ch == '-') {
            return false;
        }
        i += 1;
    }
    true
}

/// Check a workspace file key.
pub fn validate_workspace_file_key(key: &str) -> (r: Result<(), String>)
    ensures
        r is Ok <==> workspace_key(key@),
        r matches Err(m) ==> m@ == "key `"@ + key@
            + "` must start with a lowercase letter or digit and contain only lowercase letters, digits, `_`, or `-`"@,
{
    if !is_workspace_file_key(key) {
        return Err(message("key `", key,
            "` must start with a lowercase letter or digit and contain only lowercase letters, digits, `_`, or `-`"));
    }
    Ok(())
}

/// The `/`-separated pieces of a path.
pub open spec fn slash_pieces(p: Seq<char>) -> Seq<Seq<char>>
    decreases p.len(),
{
    proof {
        crate::json::lemma_first_of(p, '/');
    }
    match crate::json::first_of(p, '/') {
        None => seq![p],
        Some(i) => seq![p.take(i)] + slash_pieces(p.skip(i + 1)),
    }
}

/// Why a workspace file path is refused, if it is. Components are read as
/// `Path::components` documents for `/`-separated paths: a leading `/` is
/// the root, a leading `.` piece is the current directory (other `.`
/// pieces and empty pieces vanish), `..` is the parent. A Windows drive
/// prefix is not recognised.
pub open spec fn workspace_path_error(path: Seq<char>) -> Option<Seq<char>> {
    if trim(path).len() == 0 {
        Some("path must not be empty"@)
    } else if path.contains('\0') {
        Some("path must not contain NUL bytes"@)
    } else if path.contains('\\') {
        Some("path must use `/` as the separator"@)
    } else if path[0] == '/' {
        Some("path must be relative under .loom"@)
    } else if slash_pieces(path)[0] == "."@ {
        Some("path must not contain `.` components"@)
    } else if slash_pieces(path).contains(".."@) {
        Some("path must not contain `..` components"@)
    } else {
        None
    }
}

fn has_char(s: &[char], c: char) -> (b: bool)
    ensures
        b == s@.contains(c),
{
    let mut i: usize = 0;
    while i < s.len()
        invariant
            i <= s.len(),
            forall|j: int| 0 <= j < i ==> s@[j] != c,
        decreases s.len() - i,
    {
        if s[i] == c {
            assert(s@[i as int] == c);
            return true;
        }
        i += 1;
    }
    false
}

fn is_dot(s: &[char]) -> (b: bool)
    ensures
        b == (s@ == "."@),
{
    proof {
        reveal_strlit(".");
    }
    let r = s.len() == 1 && s[0] == '.';
    proof {
        if s@ == "."@ {
            assert(s@[0] == '.');
        }
        if r {
            assert(s@ =~= "."@);
        }
    }
    r
}

fn is_dot_dot(s: &[char]) -> (b: bool)
    ensures
        b == (s@ == ".."@),
{
    proof {
        reveal_strlit("..");
    }
    let r = s.len() == 2 && s[0] == '.' && s[1] == '.';
    proof {
        if s@ == ".."@ {
            assert(s@[0] == '.' && s@[1] == '.');
        }
        if r {
            assert(s@ =~= ".."@);
        }
    }
    r
}

/// Check a workspace file path: relative, `/`-separated, without `.` or
/// `..` components or NUL bytes.
pub fn validate_workspace_file_path(path: &str) -> (r: Result<(), String>)
    ensures
        match r {
            Ok(()) => workspace_path_error(path@) is None,
            Err(m) => workspace_path_error(path@) == Some(m@),
        },
{
    let p = chars_of(path);
    if is_blank(&p) {
        return Err("path must not be empty".to_owned());
    }
    if has_char(&p, '\0') {
        return Err("path must not contain NUL bytes".to_owned());
    }
    if has_char(&p, '\\') {
        return Err("path must use `/` as the separator".to_owned());
    }
    if p[0] == '/' {
        return Err("path must be relative under .loom".to_owned());
    }
    let mut i: usize = 0;
    let mut first = true;
    let mut dotdot = false;
    let ghost all = slash_pieces(p@);
    assert(p@.skip(0) =~= p@);
    loop
        invariant_except_break
            dotdot == exists|k: int| 0 <= k < all.len() - slash_pieces(p@.skip(i as int)).len() && all[k] == ".."@,
        invariant
            i <= p.len(),
            all == slash_pieces(p@),
            p@ == path@,
            trim(path@).len() != 0 && !path@.contains('\0') && !path@.contains('\\') && path@[0] != '/',
            first ==> i == 0,
            !first ==> (all[0] != "."@),
            all.len() >= slash_pieces(p@.skip(i as int)).len(),
            all.skip(all.len() - slash_pieces(p@.skip(i as int)).len()) == slash_pieces(p@.skip(i as int)),
        ensures
            all[0] != "."@,
            dotdot == all.contains(".."@),
        decreases p.len() - i,
    {
        let rest = slice_chars(&p, i, p.len());
        assert(rest@ =~= p@.skip(i as int));
        proof {
            crate::json::lemma_first_of(rest@, '/');
        }
        let (piece, last) = match crate::json::find_char(&rest, '/') {
            None => (rest, true),
            Some(k) => (slice_chars(&rest, 0, k), false),
        };
        let ghost segs = slash_pieces(rest@);
        proof {
            if last {
                assert(segs == seq![rest@]);
            } else {
                let k = crate::json::first_of(rest@, '/')->0;
                assert(segs == seq![rest@.take(k)] + slash_pieces(rest@.skip(k + 1)));
            }
            assert(segs[0] == piece@);
            assert(all[all.len() - segs.len()] == piece@);
        }
        if first {
            proof {
                assert(p@.skip(0) =~= p@);
                assert(rest@ =~= p@);
                assert(all[0] == piece@);
            }
            if is_dot(&piece) {
                return Err("path must not contain `.` components".to_owned());
            }
            first = false;
        }
        if is_dot_dot(&piece) {
            dotdot = true;
        }
        if last {
            proof {
                assert(all.len() - segs.len() + 1 == all.len());
                if dotdot {
                } else {
                    assert forall|k: int| 0 <= k < all.len() implies all[k] != ".."@ by {}
                }
            }
            break;
        }
        let k = piece.len();
        proof {
            assert(segs.skip(1) =~= slash_pieces(rest@.skip(k + 1)));
            assert(rest@.skip(k + 1) =~= p@.skip(i + k + 1));
            assert(all.skip(all.len() - slash_pieces(p@.skip(i + k + 1)).len()) =~= segs.skip(1));
        }
        i = i + k + 1;
    }
    if dotdot {
        return Err("path must not contain `..` components".to_owned());
    }
    Ok(())
}

/// The prompt part key of a workspace file.
pub fn workspace_file_prompt_part_key(key: &str) -> (out: String)
    ensures
        out@ == "workspace_file."@ + key@,
{
    let mut m: Vec<char> = Vec::new();
    extend_str(&mut m, "workspace_file.");
    extend_str(&mut m, key);
    string_of(&m)
}

/// Who a workspace file is addressed as.
#[derive(Debug, Clone, Copy, PartialEq, Eq)]
pub enum ProviderPromptRoleHint {
    System,
    User,
}

/// A file under the workspace's `.loom` directory that a provider takes as
/// a prompt part.
#[derive(Debug, Clone, PartialEq, Eq)]
pub struct ProviderWorkspaceFileSpec {
    pub key: String,
    /// Relative to `.loom`, `/`-separated.
    pub path: String,
    pub title: Option<String>,
    /// A missing optional file is skipped.
    pub optional: bool,
    pub max_bytes: u64,
    pub role_hint: Option<ProviderPromptRoleHint>,
}

/// Why a workspace file spec is refused, if it is: its key, its path, a
/// zero size limit, or a NUL byte in its title.
pub open spec fn workspace_file_error(f: ProviderWorkspaceFileSpec) -> Option<Seq<char>> {
    if !workspace_key(f.key@) {
        Some("key `"@ + f.key@ + "` must start with a lowercase letter or digit and contain only lowercase letters, digits, `_`, or `-`"@)
    } else if workspace_path_error(f.path@) is Some {
        workspace_path_error(f.path@)
    } else if f.max_bytes == 0 {
        Some("maxBytes must be greater than zero"@)
    } else if (match f.title { Some(t) => t@.contains('\0'), None => false }) {
        Some("title must not contain NUL bytes"@)
    } else {
        None
    }
}

/// Check a workspace file spec.
pub fn validate_workspace_file_spec(f: &ProviderWorkspaceFileSpec) -> (r: Result<(), String>)
    ensures
        match r {
            Ok(()) => workspace_file_error(*f) is None,
            Err(m) => workspace_file_error(*f) == Some(m@),
        },
{
    if let Err(m) = validate_workspace_file_key(f.key.as_str()) {
        return Err(m);
    }
    if let Err(m) = validate_workspace_file_path(f.path.as_str()) {
        return Err(m);
    }
    if f.max_bytes == 0 {
        return Err("maxBytes must be greater than zero".to_owned());
    }
    if let Some(t) = &f.title {
        let c = chars_of(t.as_str());
        let mut i: usize = 0;
        while i < c.len()
            invariant
                i <= c.len(),
                c@ == t@,
                f.title == Some(*t),
                workspace_key(f.key@),
                workspace_path_error(f.path@) is None,
                f.max_bytes != 0,
                forall|j: int| 0 <= j < i ==> c@[j] != '\0',
            decreases c.len() - i,
        {
            if c[i] == '\0' {
                assert(t@.contains('\0')) by {
                    assert(t@[i as int] == '\0');
                }
                return Err("title must not contain NUL bytes".to_owned());
            }
            i += 1;
        }
    }
    Ok(())
}

/// The refusal of an invalid workspace file spec.
pub fn invalid_workspace_file_message(f: &ProviderWorkspaceFileSpec, err: &str) -> (out: String)
    ensures
        out@ == "workspace prompt file `"@ + trim(f.key@) + "` is invalid: "@ + err@,
{
    let mut m: Vec<char> = Vec::new();
    extend_str(&mut m, "workspace prompt file `");
    extend_chars(&mut m, &trim_chars(&chars_of(f.key.as_str())));
    extend_str(&mut m, "` is invalid: ");
    extend_str(&mut m, err);
    string_of(&m)
}

/// The refusal of a workspace file larger than its limit, if it is.
pub fn workspace_file_size_error(f: &ProviderWorkspaceFileSpec, shown_path: &str, len: u64) -> (r: Option<String>)
    ensures
        len <= f.max_bytes ==> r is None,
        len > f.max_bytes ==> (r matches Some(m) && m@ == "workspace prompt file `"@ + f.key@ + "` at "@ + shown_path@
            + " is "@ + decimal(len as nat) + " bytes, above maxBytes "@ + decimal(f.max_bytes as nat)),
{
    if len <= f.max_bytes {
        return None;
    }
    let mut m: Vec<char> = Vec::new();
    extend_str(&mut m, "workspace prompt file `");
    extend_str(&mut m, f.key.as_str());
    extend_str(&mut m, "` at ");
    extend_str(&mut m, shown_path);
    extend_str(&mut m, " is ");
    push_decimal(&mut m, len);
    extend_str(&mut m, " bytes, above maxBytes ");
    push_decimal(&mut m, f.max_bytes);
    Some(string_of(&m))
}

/// The role of a workspace file's part: user only when asked for.
pub open spec fn role_of(h: Option<ProviderPromptRoleHint>) -> PromptRoleHint {
    match h {
        Some(ProviderPromptRoleHint::User) => PromptRoleHint::User,
        _ => PromptRoleHint::System,
    }
}

/// The role of a workspace file's part.
pub fn provider_role_hint(h: Option<ProviderPromptRoleHint>) -> (r: PromptRoleHint)
    ensures
        r == role_of(h),
{
    match h {
        Some(ProviderPromptRoleHint::User) => PromptRoleHint::User,
        _ => PromptRoleHint::System,
    }
}

/// The title of a workspace file's part: its trimmed title unless blank,
/// else `Workspace file: .loom/{path}`.
pub open spec fn workspace_file_title(f: ProviderWorkspaceFileSpec) -> Seq<char> {
    match f.title {
        Some(t) => if trim(t@).len() != 0 { trim(t@) } else { "Workspace file: .loom/"@ + f.path@ },
        None => "Workspace file: .loom/"@ + f.path@,
    }
}

/// The prompt part a workspace file gives with its content: none for blank
/// content; else keyed `workspace_file.{key}`, titled, and rendered under
/// a `=== title ===` line.
pub fn workspace_file_part(f: &ProviderWorkspaceFileSpec, content: String) -> (r: Option<PromptPart>)
    ensures
        trim(content@).len() == 0 ==> r is None,
        trim(content@).len() != 0 ==> (r matches Some(p) && p.key@ == "workspace_file."@ + f.key@
            && p.title@ == workspace_file_title(*f) && p.content@ == content@
            && p.rendered_content@ == "=== "@ + workspace_file_title(*f) + " ===\n"@ + content@
            && p.role_hint == role_of(f.role_hint)),
{
    if is_blank(&chars_of(content.as_str())) {
        return None;
    }
    let mut title: Vec<char> = Vec::new();
    let mut titled = false;
    if let Some(t) = &f.title {
        let tt = trim_chars(&chars_of(t.as_str()));
        if tt.len() != 0 {
            title = tt;
            titled = true;
        }
    }
    if !titled {
        extend_str(&mut title, "Workspace file: .loom/");
        extend_str(&mut title, f.path.as_str());
    }
    let mut rendered: Vec<char> = Vec::new();
    extend_str(&mut rendered, "=== ");
    extend_chars(&mut rendered, &title);
    extend_str(&mut rendered, " ===\n");
    extend_str(&mut rendered, content.as_str());
    Some(PromptPart {
        key: workspace_file_prompt_part_key(f.key.as_str()),
        title: string_of(&title),
        content,
        rendered_content: string_of(&rendered),
        role_hint: provider_role_hint(f.role_hint),
    })
}

// ───────────────────────── placeholders ─────────────────────────

/// A placeholder name: non-empty ASCII alphanumerics, `_`, `-` and `.`.
pub open spec fn placeholder_name(key: Seq<char>) -> bool {
    key.len() > 0 && forall|i: int| 0 <= i < key.len() ==> (is_ascii_alnum(#[trigger] key[i]) || key[i] == '_'
        || key[i] == '-' || key[i] == '.')
}

/// A built-in prompt part name: non-empty ASCII alphanumerics and `_`.
pub open spec fn builtin_part_name(key: Seq<char>) -> bool {
    key.len() > 0 && forall|i: int| 0 <= i < key.len() ==> (is_ascii_alnum(#[trigger] key[i]) || key[i] == '_')
}

/// A prompt part placeholder: a built-in part name or `workspace_file.*`.
pub open spec fn part_placeholder(key: Seq<char>) -> bool {
    builtin_part_name(key) || starts_with(key, "workspace_file."@)
}

/// The placeholder names of a template, in order: for each `{...}` (up to
/// the first `}`), the name between the braces when it is a placeholder
/// name; scanning stops at a `{` without a closing `}`.
pub open spec fn placeholders(s: Seq<char>) -> Seq<Seq<char>>
    decreases s.len(),
{
    proof {
        crate::json::lemma_first_of(s, '{');
    }
    match crate::json::first_of(s, '{') {
        None => seq![],
        Some(start) => {
            let after = s.skip(start + 1);
            proof {
                crate::json::lemma_first_of(after, '}');
            }
            match crate::json::first_of(after, '}') {
                None => seq![],
                Some(end) => {
                    let key = after.take(end);
                    let rest = placeholders(after.skip(end + 1));
                    if placeholder_name(key) { seq![key] + rest } else { rest }
                },
            }
        },
    }
}

fn all_chars_are(key: &[char], allow_dash_dot: bool) -> (b: bool)
    ensures
        b == (forall|i: int| 0 <= i < key@.len() ==> (is_ascii_alnum(#[trigger] key@[i]) || key@[i] == '_'
            || (allow_dash_dot && (key@[i] == '-' || key@[i] == '.')))),
{
    let mut i: usize = 0;
    while i < key.len()
        invariant
            i <= key.len(),
            forall|k: int| 0 <= k < i ==> (is_ascii_alnum(#[trigger] key@[k]) || key@[k] == '_'
                || (allow_dash_dot && (key@[k] == '-' || key@[k] == '.'))),
        decreases key.len() - i,
    {
        let c = key[i];
        if !(crate::text::char_is_ascii_alnum(c) || c == '_' || (allow_dash_dot && (c == '-' || c == '.'))) {
            return false;
        }
        i += 1;
    }
    true
}

/// Whether a name is a placeholder name.
pub fn is_template_placeholder(key: &[char]) -> (b: bool)
    ensures
        b == placeholder_name(key@),
{
    key.len() > 0 && all_chars_are(key, true)
}

/// Whether a name is a built-in prompt part name.
pub fn is_builtin_prompt_part_placeholder(key: &[char]) -> (b: bool)
    ensures
        b == builtin_part_name(key@),
{
    key.len() > 0 && all_chars_are(key, false)
}

/// Whether a name is a prompt part placeholder.
pub fn is_prompt_part_placeholder(key: &[char]) -> (b: bool)
    ensures
        b == part_placeholder(key@),
{
    is_builtin_prompt_part_placeholder(key) || starts_with_chars(key, &chars_of("workspace_file."))
}

/// The placeholder names of a template, in order.
pub fn template_placeholders(value: &str) -> (out: Vec<Vec<char>>)
    ensures
        out@.map_values(|l: Vec<char>| l@) == placeholders(value@),
{
    let s = chars_of(value);
    let mut out: Vec<Vec<char>> = Vec::new();
    let mut rest = s;
    assert(out@.map_values(|l: Vec<char>| l@) + placeholders(rest@) =~= placeholders(value@));
    loop
        invariant
            out@.map_values(|l: Vec<char>| l@) + placeholders(rest@) == placeholders(value@),
        decreases rest.len(),
    {
        proof {
            crate::json::lemma_first_of(rest@, '{');
        }
        let start = match crate::json::find_char(&rest, '{') {
            None => {
                assert(out@.map_values(|l: Vec<char>| l@) + Seq::<Seq<char>>::empty() =~= out@.map_values(|l: Vec<char>| l@));
                return out;
            },
            Some(x) => x,
        };
        let after = slice_chars(&rest, start + 1, rest.len());
        assert(after@ =~= rest@.skip(start + 1));
        proof {
            crate::json::lemma_first_of(after@, '}');
        }
        let end = match crate::json::find_char(&after, '}') {
            None => {
                assert(out@.map_values(|l: Vec<char>| l@) + Seq::<Seq<char>>::empty() =~= out@.map_values(|l: Vec<char>| l@));
                return out;
            },
            Some(x) => x,
        };
        let key = slice_chars(&after, 0, end);
        assert(key@ =~= after@.take(end as int));
        let next = slice_chars(&after, end + 1, after.len());
        assert(next@ =~= after@.skip(end + 1));
        let ghost before = out@.map_values(|l: Vec<char>| l@);
        if is_template_placeholder(&key) {
            out.push(key);
            assert(out@.map_values(|l: Vec<char>| l@) =~= before.push(after@.take(end as int)));
            assert(out@.map_values(|l: Vec<char>| l@) + placeholders(next@) =~= before + placeholders(rest@));
        }
        rest = next;
    }
}

/// Whether a variable name delivers the prompt.
pub open spec fn delivers_prompt(name: Seq<char>) -> bool {
    name == "prompt"@ || name == "loom_envelope"@ || starts_with(name, "prompt."@)
}

/// Whether a variable name delivers the prompt.
pub fn is_prompt_delivery_var(name: &[char]) -> (b: bool)
    ensures
        b == delivers_prompt(name@),
{
    eq_str(name, "prompt") || eq_str(name, "loom_envelope") || starts_with_chars(name, &chars_of("prompt."))
}

/// Whether some argument template delivers the prompt through a
/// placeholder.
pub open spec fn args_deliver_prompt(args: Seq<String>) -> bool {
    exists|i: int, j: int| 0 <= i < args.len() && 0 <= j < placeholders(args[i]@).len()
        && delivers_prompt(#[trigger] placeholders(args[i]@)[j])
}

/// Whether some argument template delivers the prompt.
pub fn string_args_have_prompt_reference(args: &Vec<String>) -> (b: bool)
    ensures
        b == args_deliver_prompt(args@),
{
    let mut i: usize = 0;
    while i < args.len()
        invariant
            i <= args.len(),
            forall|a: int, j: int| 0 <= a < i && 0 <= j < placeholders(args@[a]@).len()
                ==> !delivers_prompt(#[trigger] placeholders(args@[a]@)[j]),
        decreases args.len() - i,
    {
        let ps = template_placeholders(args[i].as_str());
        let ghost pv = ps@.map_values(|l: Vec<char>| l@);
        let mut j: usize = 0;
        while j < ps.len()
            invariant
                j <= ps.len(),
                i < args.len(),
                pv == ps@.map_values(|l: Vec<char>| l@),
                pv == placeholders(args@[i as int]@),
                forall|k: int| 0 <= k < j ==> !delivers_prompt(#[trigger] pv[k]),
            decreases ps.len() - j,
        {
            if is_prompt_delivery_var(&ps[j]) {
                assert(pv[j as int] == ps@[j as int]@);
                assert(delivers_prompt(placeholders(args@[i as int]@)[j as int]));
                return true;
            }
            j += 1;
        }
        i += 1;
    }
    false
}

/// The runtime variables a manifest template may use.
pub open spec fn runtime_vars() -> Seq<Seq<char>> {
    seq!["bin"@, "model"@, "reasoningEffort"@, "session.id"@, "session_id"@, "prompt"@, "loom_envelope"@,
        "actor.id"@, "scope.id"@, "scope.kind"@, "loom.configDir"@, "loom.server"@, "loom.actor"@,
        "loom.scope.id"@, "loom.scope.kind"@, "loom.run.id"@, "loom.trigger.id"@, "loom.trigger.actor"@,
        "paths.cwd"@, "workspace.dir"@, "agent.root"@, "agent.configDir"@, "agent.specPath"@,
        "agent.profile"@, "agent.workspace"@, "agent.logs"@, "agent.skills"@, "agent.bundle_root"@,
        "agent.bundle"@, "agent.skillBody"@, "scope.skills"@, "channel.id"@, "channel.root"@,
        "channel.shared"@, "channel.sharedArtifacts"@, "thread.id"@, "trigger.id"@, "trigger.actor_id"@,
        "reply.target"@, "prompt.activeSkill"@]
}

/// Whether a template variable is supported at run time: a known runtime
/// variable or a `vars.*` variable.
pub fn is_supported_runtime_template_var(name: &[char]) -> (b: bool)
    ensures
        b == (runtime_vars().contains(name@) || starts_with(name@, "vars."@)),
{
    let names: [&str; 40] = ["bin", "model", "reasoningEffort", "session.id", "session_id", "prompt", "loom_envelope",
        "actor.id", "scope.id", "scope.kind", "loom.configDir", "loom.server", "loom.actor",
        "loom.scope.id", "loom.scope.kind", "loom.run.id", "loom.trigger.id", "loom.trigger.actor",
        "paths.cwd", "workspace.dir", "agent.root", "agent.configDir", "agent.specPath",
        "agent.profile", "agent.workspace", "agent.logs", "agent.skills", "agent.bundle_root",
        "agent.bundle", "agent.skillBody", "scope.skills", "channel.id", "channel.root",
        "channel.shared", "channel.sharedArtifacts", "thread.id", "trigger.id", "trigger.actor_id",
        "reply.target", "prompt.activeSkill"];
    assert(crate::json::strs(names@) =~= runtime_vars());
    one_of_names(name, &names) || starts_with_chars(name, &chars_of("vars."))
}

/// Whether `name` is one of `names`.
pub(crate) fn one_of_names(name: &[char], names: &[&str]) -> (b: bool)
    ensures
        b == crate::json::strs(names@).contains(name@),
{
    let mut i: usize = 0;
    while i < names.len()
        invariant
            i <= names.len(),
            forall|k: int| 0 <= k < i ==> names@[k]@ != name@,
        decreases names.len() - i,
    {
        if eq_str(name, names[i]) {
            assert(crate::json::strs(names@)[i as int] == name@);
            return true;
        }
        i += 1;
    }
    proof {
        if crate::json::strs(names@).contains(name@) {
            let k = choose|k: int| 0 <= k < crate::json::strs(names@).len() && crate::json::strs(names@)[k] == name@;
            assert(names@[k]@ == name@);
        }
    }
    false
}

/// The prompt parts the runtime knows.
pub open spec fn known_parts() -> Seq<Seq<char>> {
    seq!["trigger_prefix"@, "actor_context"@, "agent_instructions"@, "bootstrap_memory"@, "scope_bootstrap"@,
        "turn_memory"@, "runtime_context"@, "latest_message"@, "assignment_context"@, "turn_input"@, "user_message"@]
}

/// Whether a prompt part is one the runtime knows.
pub fn is_known_prompt_part(key: &[char]) -> (b: bool)
    ensures
        b == known_parts().contains(key@),
{
    let names: [&str; 11] = ["trigger_prefix", "actor_context", "agent_instructions", "bootstrap_memory", "scope_bootstrap",
        "turn_memory", "runtime_context", "latest_message", "assignment_context", "turn_input", "user_message"];
    assert(crate::json::strs(names@) =~= known_parts());
    one_of_names(key, &names)
}

/// The names referenced as `{prompt.NAME}` in a template, in order (empty
/// names skipped); scanning stops at a `{prompt.` without a closing `}`.
pub open spec fn prompt_refs(s: Seq<char>) -> Seq<Seq<char>>
    decreases s.len(),
{
    proof {
        reveal_strlit("{prompt.");
        crate::text::lemma_find_spec(s, "{prompt."@);
    }
    match crate::text::find(s, "{prompt."@) {
        None => seq![],
        Some(idx) => {
            let after = s.skip(idx + 8);
            proof {
                crate::json::lemma_first_of(after, '}');
            }
            match crate::json::first_of(after, '}') {
                None => seq![],
                Some(end) => {
                    let rest = prompt_refs(after.skip(end + 1));
                    if end > 0 { seq![after.take(end)] + rest } else { rest }
                },
            }
        },
    }
}

/// Append the `{prompt.NAME}` references of a template to `refs`.
pub fn collect_prompt_refs(value: &str, refs: &mut Vec<String>)
    ensures
        crate::text::views(final(refs)@) == crate::text::views(old(refs)@) + prompt_refs(value@),
{
    let marker = chars_of("{prompt.");
    proof {
        reveal_strlit("{prompt.");
        assert(marker@.len() == 8);
    }
    let mut rest = chars_of(value);
    let ghost r0 = crate::text::views(refs@);
    assert(crate::text::views(refs@) + prompt_refs(rest@) =~= r0 + prompt_refs(value@));
    loop
        invariant
            marker@ == "{prompt."@,
            marker@.len() == 8,
            r0 == crate::text::views(old(refs)@),
            crate::text::views(refs@) + prompt_refs(rest@) == r0 + prompt_refs(value@),
        decreases rest.len(),
    {
        proof {
            crate::text::lemma_find_spec(rest@, marker@);
        }
        let idx = match crate::text::find_chars(&rest, &marker) {
            None => {
                assert(crate::text::views(refs@) + Seq::<Seq<char>>::empty() =~= crate::text::views(refs@));
                return;
            },
            Some(i) => i,
        };
        let n = rest.len();
        assert(idx + 8 <= n);
        let after = slice_chars(&rest, idx + 8, n);
        assert(after@ =~= rest@.skip(idx + 8));
        proof {
            crate::json::lemma_first_of(after@, '}');
        }
        let end = match crate::json::find_char(&after, '}') {
            None => {
                assert(crate::text::views(refs@) + Seq::<Seq<char>>::empty() =~= crate::text::views(refs@));
                return;
            },
            Some(e) => e,
        };
        let ghost before = crate::text::views(refs@);
        if end > 0 {
            let name = slice_chars(&after, 0, end);
            refs.push(string_of(&name));
            assert(name@ =~= after@.take(end as int));
            assert(crate::text::views(refs@) =~= before.push(after@.take(end as int)));
        }
        let next = slice_chars(&after, end + 1, after.len());
        assert(next@ =~= after@.skip(end + 1));
        assert(crate::text::views(refs@) + prompt_refs(next@) =~= before + prompt_refs(rest@));
        rest = next;
    }
}

/// A static template with `{bin}` replaced by the resolved binary path.
pub fn expand_static_template(value: &str, bin: &str) -> (out: String)
    ensures
        out@ == replace(value@, "{bin}"@, bin@),
{
    let r = replace_str(&chars_of(value), "{bin}", bin);
    string_of(&r)
}

/// Arguments with `{session.id}` spelled `{session_id}`.
pub fn normalize_session_tokens(args: Vec<String>) -> (out: Vec<String>)
    ensures
        crate::text::views(out@) == crate::text::views(args@).map_values(|a: Seq<char>| replace(a, "{session.id}"@, "{session_id}"@)),
{
    let mut out: Vec<String> = Vec::new();
    let mut i: usize = 0;
    while i < args.len()
        invariant
            i <= args.len(),
            crate::text::views(out@) == crate::text::views(args@.take(i as int)).map_values(|a: Seq<char>| replace(a, "{session.id}"@, "{session_id}"@)),
        decreases args.len() - i,
    {
        let r = replace_str(&chars_of(args[i].as_str()), "{session.id}", "{session_id}");
        let ghost before = crate::text::views(out@);
        out.push(string_of(&r));
        proof {
            assert(crate::text::views(out@) =~= before.push(r@));
            assert(crate::text::views(args@.take(i + 1)).map_values(|a: Seq<char>| replace(a, "{session.id}"@, "{session_id}"@))
                =~= crate::text::views(args@.take(i as int)).map_values(|a: Seq<char>| replace(a, "{session.id}"@, "{session_id}"@)).push(r@));
        }
        i += 1;
    }
    assert(args@.take(args.len() as int) =~= args@);
    out
}

// ───────────────────────── prompt outputs ─────────────────────────

/// Whether a prompt part is rendered with its title.
#[derive(Debug, Clone, Copy, PartialEq, Eq)]
pub enum RenderTitle {
    Always,
    Never,
    Auto,
}

/// How one prompt output is assembled from prompt parts.
#[derive(Debug, Clone)]
pub struct PromptOutputSpec {
    pub required: Vec<String>,
    pub template: Option<String>,
    pub render_title: Option<RenderTitle>,
    pub parts: Vec<String>,
    pub preset: Option<String>,
    pub join: Option<String>,
    pub prefix: Option<String>,
    pub suffix: Option<String>,
}

/// The part with key `key` (the last one, as a map collected from the
/// parts keeps it).
pub open spec fn part_for(parts: Seq<PromptPart>, key: Seq<char>) -> Option<PromptPart>
    decreases parts.len(),
{
    if parts.len() == 0 {
        None
    } else if parts.last().key@ == key {
        Some(parts.last())
    } else {
        part_for(parts.drop_last(), key)
    }
}

/// A part as rendered in an output.
pub open spec fn rendered_part(part: PromptPart, rt: RenderTitle) -> Seq<char> {
    match rt {
        RenderTitle::Always => {
            let title = trim(part.title@);
            if title.len() == 0 {
                part.content@
            } else {
                let heading = "=== "@ + title + " ==="@;
                if starts_with(trim_start(part.content@), heading) { part.content@ } else { heading + "\n"@ + part.content@ }
            }
        },
        RenderTitle::Never => part.content@,
        RenderTitle::Auto => part.rendered_content@,
    }
}

/// Render a prompt part.
pub fn render_prompt_part(part: &PromptPart, rt: RenderTitle) -> (out: String)
    ensures
        out@ == rendered_part(*part, rt),
{
    match rt {
        RenderTitle::Always => {
            let title = trim_chars(&chars_of(part.title.as_str()));
            if title.len() == 0 {
                return part.content.clone();
            }
            let mut heading: Vec<char> = Vec::new();
            extend_str(&mut heading, "=== ");
            extend_chars(&mut heading, &title);
            extend_str(&mut heading, " ===");
            let c = chars_of(part.content.as_str());
            let ts = crate::text::trim_start_chars(&c);
            if starts_with_chars(&ts, &heading) {
                part.content.clone()
            } else {
                let mut out = heading;
                extend_str(&mut out, "\n");
                extend_chars(&mut out, &c);
                string_of(&out)
            }
        },
        RenderTitle::Never => part.content.clone(),
        RenderTitle::Auto => part.rendered_content.clone(),
    }
}

/// A template with each `{part}` placeholder replaced by the rendered part
/// (nothing when the part is absent); other braces are kept; text after a
/// `{` without `}` is kept as it is.
pub open spec fn rendered_template(t: Seq<char>, parts: Seq<PromptPart>, rt: RenderTitle) -> Seq<char>
    decreases t.len(),
{
    proof {
        crate::json::lemma_first_of(t, '{');
    }
    match crate::json::first_of(t, '{') {
        None => t,
        Some(start) => {
            let after = t.skip(start + 1);
            proof {
                crate::json::lemma_first_of(after, '}');
            }
            match crate::json::first_of(after, '}') {
                None => t,
                Some(end) => {
                    let key = after.take(end);
                    let here = if part_placeholder(key) {
                        match part_for(parts, key) { Some(p) => rendered_part(p, rt), None => seq![] }
                    } else {
                        seq!['{'] + key + seq!['}']
                    };
                    t.take(start) + here + rendered_template(after.skip(end + 1), parts, rt)
                },
            }
        },
    }
}

/// The part with key `key`.
pub fn find_part<'a>(parts: &'a Vec<PromptPart>, key: &[char]) -> (r: Option<&'a PromptPart>)
    ensures
        match r {
            Some(p) => part_for(parts@, key@) == Some(*p),
            None => part_for(parts@, key@) is None,
        },
{
    let mut i: usize = parts.len();
    assert(parts@.take(parts.len() as int) =~= parts@);
    while i > 0
        invariant
            i <= parts.len(),
            part_for(parts@, key@) == part_for(parts@.take(i as int), key@),
        decreases i,
    {
        assert(parts@.take(i as int).last() == parts@[i - 1]);
        assert(parts@.take(i as int).drop_last() =~= parts@.take(i - 1));
        if eq_chars(&chars_of(parts[i - 1].key.as_str()), key) {
            return Some(&parts[i - 1]);
        }
        i -= 1;
    }
    None
}

/// Render a prompt template from the parts.
pub fn render_prompt_template(template: &str, parts: &Vec<PromptPart>, rt: RenderTitle) -> (out: String)
    ensures
        out@ == rendered_template(template@, parts@, rt),
{
    let mut out: Vec<char> = Vec::new();
    let mut rest = chars_of(template);
    assert(out@ + rendered_template(rest@, parts@, rt) =~= rendered_template(template@, parts@, rt));
    loop
        invariant
            out@ + rendered_template(rest@, parts@, rt) == rendered_template(template@, parts@, rt),
        decreases rest.len(),
    {
        proof {
            crate::json::lemma_first_of(rest@, '{');
        }
        let start = match crate::json::find_char(&rest, '{') {
            None => {
                extend_chars(&mut out, &rest);
                return string_of(&out);
            },
            Some(x) => x,
        };
        let after = slice_chars(&rest, start + 1, rest.len());
        assert(after@ =~= rest@.skip(start + 1));
        proof {
            crate::json::lemma_first_of(after@, '}');
        }
        let end = match crate::json::find_char(&after, '}') {
            None => {
                extend_chars(&mut out, &rest);
                return string_of(&out);
            },
            Some(x) => x,
        };
        let head = slice_chars(&rest, 0, start);
        assert(head@ =~= rest@.take(start as int));
        let key = slice_chars(&after, 0, end);
        assert(key@ =~= after@.take(end as int));
        let ghost before = out@;
        extend_chars(&mut out, &head);
        if is_prompt_part_placeholder(&key) {
            if let Some(p) = find_part(parts, &key) {
                let r = render_prompt_part(p, rt);
                extend_str(&mut out, r.as_str());
            }
        } else {
            out.push('{');
            extend_chars(&mut out, &key);
            out.push('}');
        }
        let next = slice_chars(&after, end + 1, after.len());
        assert(next@ =~= after@.skip(end + 1));
        assert(out@ + rendered_template(next@, parts@, rt) =~= before + rendered_template(rest@, parts@, rt));
        rest = next;
    }
}

/// The parts a named preset includes.
pub open spec fn preset(name: Seq<char>) -> Option<Seq<Seq<char>>> {
    if name == "loom_system"@ {
        Some(seq!["actor_context"@, "agent_instructions"@, "bootstrap_memory"@, "scope_bootstrap"@])
    } else if name == "loom_turn"@ {
        Some(seq!["turn_memory"@, "runtime_context"@, "user_message"@])
    } else if name == "loom_full"@ {
        Some(seq!["actor_context"@, "agent_instructions"@, "bootstrap_memory"@, "scope_bootstrap"@,
            "turn_memory"@, "runtime_context"@, "user_message"@])
    } else {
        None
    }
}

fn strings_of(names: &[&str]) -> (out: Vec<String>)
    ensures
        crate::text::views(out@) == crate::json::strs(names@),
{
    let mut out: Vec<String> = Vec::new();
    let mut i: usize = 0;
    while i < names.len()
        invariant
            i <= names.len(),
            crate::text::views(out@) == crate::json::strs(names@.take(i as int)),
        decreases names.len() - i,
    {
        let ghost before = crate::text::views(out@);
        out.push(names[i].to_owned());
        proof {
            assert(crate::text::views(out@) =~= before.push(names@[i as int]@));
            assert(crate::json::strs(names@.take(i + 1)) =~= crate::json::strs(names@.take(i as int)).push(names@[i as int]@));
        }
        i += 1;
    }
    assert(names@.take(names.len() as int) =~= names@);
    out
}

/// The parts of a named preset, or the error for an unknown preset.
pub fn preset_parts(name: &str) -> (r: Result<Vec<String>, String>)
    ensures
        match r {
            Ok(v) => preset(name@) == Some(crate::text::views(v@)),
            Err(m) => preset(name@) is None && m@ == "unknown prompt preset `"@ + name@ + "`"@,
        },
{
    let n = chars_of(name);
    if eq_str(&n, "loom_system") {
        let a: [&str; 4] = ["actor_context", "agent_instructions", "bootstrap_memory", "scope_bootstrap"];
        let v = strings_of(&a);
        assert(crate::json::strs(a@) =~= seq!["actor_context"@, "agent_instructions"@, "bootstrap_memory"@, "scope_bootstrap"@]);
        Ok(v)
    } else if eq_str(&n, "loom_turn") {
        let a: [&str; 3] = ["turn_memory", "runtime_context", "user_message"];
        let v = strings_of(&a);
        assert(crate::json::strs(a@) =~= seq!["turn_memory"@, "runtime_context"@, "user_message"@]);
        Ok(v)
    } else if eq_str(&n, "loom_full") {
        let a: [&str; 7] = ["actor_context", "agent_instructions", "bootstrap_memory", "scope_bootstrap",
            "turn_memory", "runtime_context", "user_message"];
        let v = strings_of(&a);
        assert(crate::json::strs(a@) =~= seq!["actor_context"@, "agent_instructions"@, "bootstrap_memory"@, "scope_bootstrap"@,
            "turn_memory"@, "runtime_context"@, "user_message"@]);
        Ok(v)
    } else {
        Err(message("unknown prompt preset `", name, "`"))
    }
}

/// The non-blank pieces, in order.
pub open spec fn non_blank_pieces(parts: Seq<Seq<char>>) -> Seq<Seq<char>>
    decreases parts.len(),
{
    if parts.len() == 0 {
        seq![]
    } else if trim(parts.last()).len() == 0 {
        non_blank_pieces(parts.drop_last())
    } else {
        non_blank_pieces(parts.drop_last()).push(parts.last())
    }
}

/// Join the non-blank pieces with `sep`.
pub fn join_parts(parts: &Vec<String>, sep: &str) -> (out: String)
    ensures
        out@ == join(non_blank_pieces(crate::text::views(parts@)), sep@),
{
    let mut kept: Vec<Vec<char>> = Vec::new();
    let mut i: usize = 0;
    while i < parts.len()
        invariant
            i <= parts.len(),
            kept@.map_values(|l: Vec<char>| l@) == non_blank_pieces(crate::text::views(parts@.take(i as int))),
        decreases parts.len() - i,
    {
        let c = chars_of(parts[i].as_str());
        proof {
            assert(crate::text::views(parts@.take(i + 1)).drop_last() =~= crate::text::views(parts@.take(i as int)));
            assert(crate::text::views(parts@.take(i + 1)).last() == parts@[i as int]@);
        }
        if !is_blank(&c) {
            let ghost before = kept@.map_values(|l: Vec<char>| l@);
            kept.push(c);
            assert(kept@.map_values(|l: Vec<char>| l@) =~= before.push(parts@[i as int]@));
        }
        i += 1;
    }
    assert(parts@.take(parts.len() as int) =~= parts@);
    let j = join_chars(&kept, &chars_of(sep));
    string_of(&j)
}

/// Whether a required part is present and not blank.
pub open spec fn part_present(parts: Seq<PromptPart>, key: Seq<char>) -> bool {
    part_for(parts, key) matches Some(p) && trim(p.content@).len() != 0
}

/// The first required part that is missing, if any.
pub open spec fn first_missing(required: Seq<String>, parts: Seq<PromptPart>) -> Option<Seq<char>>
    decreases required.len(),
{
    if required.len() == 0 {
        None
    } else if !part_present(parts, required[0]@) {
        Some(required[0]@)
    } else {
        first_missing(required.skip(1), parts)
    }
}

/// The rendered parts named by `keys` that exist, in order.
pub open spec fn rendered_parts(keys: Seq<Seq<char>>, parts: Seq<PromptPart>, rt: RenderTitle) -> Seq<Seq<char>>
    decreases keys.len(),
{
    if keys.len() == 0 {
        seq![]
    } else {
        let rest = rendered_parts(keys.drop_last(), parts, rt);
        match part_for(parts, keys.last()) {
            Some(p) => rest.push(rendered_part(p, rt)),
            None => rest,
        }
    }
}

/// Law: with `Auto` titles a part appears as it does in the composed
/// envelope (its `rendered_content`); with `Never` as its bare content.
pub proof fn law_auto_title_uses_rendered_content(part: PromptPart)
    ensures
        rendered_part(part, RenderTitle::Auto) == part.rendered_content@,
        rendered_part(part, RenderTitle::Never) == part.content@,
{
}

/// Law: with `Always` titles a part with a non-blank title starts (after
/// leading white space) with its `=== title ===` heading, and the content
/// follows the heading or already held it; a part without a title is its
/// bare content.
pub proof fn law_always_title_heading(part: PromptPart)
    ensures
        trim(part.title@).len() != 0 ==> starts_with(trim_start(rendered_part(part, RenderTitle::Always)),
            "=== "@ + trim(part.title@) + " ==="@),
        trim(part.title@).len() != 0 ==> crate::text::ends_with(rendered_part(part, RenderTitle::Always), part.content@),
        trim(part.title@).len() == 0 ==> rendered_part(part, RenderTitle::Always) == part.content@,
{
    reveal_strlit("=== ");
    reveal_strlit(" ===");
    reveal_strlit("\n");
    let title = trim(part.title@);
    if title.len() != 0 {
        let heading = "=== "@ + title + " ==="@;
        let r = rendered_part(part, RenderTitle::Always);
        if !starts_with(trim_start(part.content@), heading) {
            assert(r == heading + "\n"@ + part.content@);
            assert(r[0] == '=');
            assert(!crate::text::white_space('='));
            assert(leading_ws(r) == 0);
            assert(trim_start(r) =~= r);
            assert(r.subrange(0, heading.len() as int) =~= heading);
            assert(r.subrange(r.len() - part.content@.len(), r.len() as int) =~= part.content@);
        } else {
            assert(r.subrange(r.len() - part.content@.len(), r.len() as int) =~= part.content@);
        }
    }
}

/// The parts for `keys` all exist.
pub open spec fn all_present(keys: Seq<Seq<char>>, parts: Seq<PromptPart>) -> bool {
    forall|i: int| 0 <= i < keys.len() ==> (#[trigger] part_for(parts, keys[i])) is Some
}

proof fn lemma_rendered_parts_auto(keys: Seq<Seq<char>>, parts: Seq<PromptPart>)
    requires
        all_present(keys, parts),
    ensures
        rendered_parts(keys, parts, RenderTitle::Auto)
            == keys.map_values(|k: Seq<char>| part_for(parts, k)->0.rendered_content@),
    decreases keys.len(),
{
    if keys.len() > 0 {
        assert(all_present(keys.drop_last(), parts)) by {
            assert forall|i: int| 0 <= i < keys.drop_last().len() implies
                (#[trigger] part_for(parts, keys.drop_last()[i])) is Some by {
                assert(keys.drop_last()[i] == keys[i]);
            }
        }
        lemma_rendered_parts_auto(keys.drop_last(), parts);
        assert(part_for(parts, keys[keys.len() - 1]) is Some);
        assert(keys.map_values(|k: Seq<char>| part_for(parts, k)->0.rendered_content@)
            =~= keys.drop_last().map_values(|k: Seq<char>| part_for(parts, k)->0.rendered_content@)
                .push(part_for(parts, keys.last())->0.rendered_content@));
    }
}

proof fn lemma_non_blank_pieces_keep(ps: Seq<Seq<char>>)
    requires
        forall|i: int| 0 <= i < ps.len() ==> trim(#[trigger] ps[i]).len() != 0,
    ensures
        non_blank_pieces(ps) == ps,
    decreases ps.len(),
{
    if ps.len() > 0 {
        assert(trim(ps[ps.len() - 1]).len() != 0);
        lemma_non_blank_pieces_keep(ps.drop_last());
        assert(ps.drop_last().push(ps.last()) =~= ps);
    }
}

/// Law: an output that lists parts, with no template, required parts,
/// title mode, prefix or suffix, is the listed parts' envelope texts
/// (`rendered_content`) joined by its separator (a blank line by
/// default), when every listed part exists and is not blank and the list
/// is not `full` alone.
pub proof fn law_part_list_output(out: PromptOutputSpec, parts: Seq<PromptPart>, full: Seq<char>)
    requires
        out.required@.len() == 0,
        out.template is None,
        out.render_title is None,
        out.prefix is None,
        out.suffix is None,
        out.parts@.len() != 0,
        !(out.parts@.len() == 1 && out.parts@[0]@ == "full"@),
        all_present(crate::text::views(out.parts@), parts),
        forall|i: int| 0 <= i < out.parts@.len()
            ==> trim(#[trigger] part_for(parts, out.parts@[i]@)->0.rendered_content@).len() != 0,
    ensures
        rendered_output(out, parts, full) == Ok::<Seq<char>, Seq<char>>(join(
            crate::text::views(out.parts@).map_values(|k: Seq<char>| part_for(parts, k)->0.rendered_content@),
            match out.join { Some(j) => j@, None => "\n\n"@ })),
{
    let keys = crate::text::views(out.parts@);
    lemma_rendered_parts_auto(keys, parts);
    let ps = keys.map_values(|k: Seq<char>| part_for(parts, k)->0.rendered_content@);
    assert forall|i: int| 0 <= i < ps.len() implies trim(#[trigger] ps[i]).len() != 0 by {
        assert(keys[i] == out.parts@[i]@);
    }
    lemma_non_blank_pieces_keep(ps);
    assert(!(keys.len() == 1 && keys[0] == "full"@));
    let b = body_from_keys(keys, out, parts, full);
    assert(Seq::<char>::empty() + b + Seq::<char>::empty() =~= b);
}

/// The body of an output from its included part keys.
pub open spec fn body_from_keys(keys: Seq<Seq<char>>, out: PromptOutputSpec, parts: Seq<PromptPart>, full: Seq<char>) -> Seq<char> {
    let rt = match out.render_title { Some(r) => r, None => RenderTitle::Auto };
    if keys.len() == 1 && keys[0] == "full"@ {
        full
    } else {
        join(non_blank_pieces(rendered_parts(keys, parts, rt)), match out.join { Some(j) => j@, None => "\n\n"@ })
    }
}

/// An output rendered from the parts: the first missing required part is
/// an error; a template is rendered (titles never shown unless asked);
/// otherwise the included parts (or a preset's, or `full`) are rendered and
/// joined, `full` alone meaning the whole composed prompt; then prefix and
/// suffix are added.
pub open spec fn rendered_output(out: PromptOutputSpec, parts: Seq<PromptPart>, full: Seq<char>) -> Result<Seq<char>, Seq<char>> {
    match first_missing(out.required@, parts) {
        Some(k) => Err("required prompt part `"@ + k + "` is missing"@),
        None => {
            let body: Result<Seq<char>, Seq<char>> = match out.template {
                Some(t) => Ok(rendered_template(t@, parts, match out.render_title { Some(r) => r, None => RenderTitle::Never })),
                None => if out.parts@.len() != 0 {
                    Ok(body_from_keys(crate::text::views(out.parts@), out, parts, full))
                } else {
                    match out.preset {
                        Some(p) => match preset(p@) {
                            Some(keys) => Ok(body_from_keys(keys, out, parts, full)),
                            None => Err("unknown prompt preset `"@ + p@ + "`"@),
                        },
                        None => Ok(body_from_keys(seq!["full"@], out, parts, full)),
                    }
                },
            };
            match body {
                Err(e) => Err(e),
                Ok(b) => Ok((match out.prefix { Some(p) => p@, None => seq![] }) + b
                    + (match out.suffix { Some(x) => x@, None => seq![] })),
            }
        },
    }
}

fn body_exec(keys: &Vec<String>, out: &PromptOutputSpec, parts: &Vec<PromptPart>, full: &str) -> (r: String)
    ensures
        r@ == body_from_keys(crate::text::views(keys@), *out, parts@, full@),
{
    let rt = match out.render_title { Some(r) => r, None => RenderTitle::Auto };
    if keys.len() == 1 && eq_str(&chars_of(keys[0].as_str()), "full") {
        return full.to_owned();
    }
    let mut rendered: Vec<String> = Vec::new();
    let mut i: usize = 0;
    while i < keys.len()
        invariant
            i <= keys.len(),
            rt == (match out.render_title { Some(r) => r, None => RenderTitle::Auto }),
            crate::text::views(rendered@) == rendered_parts(crate::text::views(keys@.take(i as int)), parts@, rt),
        decreases keys.len() - i,
    {
        proof {
            assert(crate::text::views(keys@.take(i + 1)).drop_last() =~= crate::text::views(keys@.take(i as int)));
            assert(crate::text::views(keys@.take(i + 1)).last() == keys@[i as int]@);
        }
        let ghost before = crate::text::views(rendered@);
        if let Some(p) = find_part(parts, &chars_of(keys[i].as_str())) {
            let r = render_prompt_part(p, rt);
            rendered.push(r);
            assert(crate::text::views(rendered@) =~= before.push(r@));
        }
        i += 1;
    }
    assert(keys@.take(keys.len() as int) =~= keys@);
    let sep: String = match &out.join { Some(j) => j.clone(), None => "\n\n".to_owned() };
    join_parts(&rendered, sep.as_str())
}

/// Render one prompt output from the prompt parts and the whole composed
/// prompt.
pub fn render_prompt_output(out: &PromptOutputSpec, parts: &Vec<PromptPart>, full: &str) -> (r: Result<String, String>)
    ensures
        match r {
            Ok(s) => rendered_output(*out, parts@, full@) == Ok::<Seq<char>, Seq<char>>(s@),
            Err(m) => rendered_output(*out, parts@, full@) == Err::<Seq<char>, Seq<char>>(m@),
        },
{
    let mut i: usize = 0;
    assert(out.required@.skip(0) =~= out.required@);
    while i < out.required.len()
        invariant
            i <= out.required.len(),
            first_missing(out.required@, parts@) == first_missing(out.required@.skip(i as int), parts@),
        decreases out.required.len() - i,
    {
        assert(out.required@.skip(i as int)[0] == out.required@[i as int]);
        let present = match find_part(parts, &chars_of(out.required[i].as_str())) {
            Some(p) => !is_blank(&chars_of(p.content.as_str())),
            None => false,
        };
        if !present {
            return Err(message("required prompt part `", out.required[i].as_str(), "` is missing"));
        }
        assert(out.required@.skip(i as int).skip(1) =~= out.required@.skip(i + 1));
        i += 1;
    }
    let body: String = match &out.template {
        Some(t) => render_prompt_template(t.as_str(), parts, match out.render_title { Some(r) => r, None => RenderTitle::Never }),
        None => if out.parts.len() != 0 {
            body_exec(&out.parts, out, parts, full)
        } else {
            match &out.preset {
                Some(p) => match preset_parts(p.as_str()) {
                    Ok(keys) => body_exec(&keys, out, parts, full),
                    Err(e) => return Err(e),
                },
                None => {
                    let keys = vec!["full".to_owned()];
                    assert(crate::text::views(keys@) =~= seq!["full"@]);
                    body_exec(&keys, out, parts, full)
                },
            }
        },
    };
    let mut o: Vec<char> = Vec::new();
    if let Some(p) = &out.prefix {
        extend_str(&mut o, p.as_str());
    }
    extend_str(&mut o, body.as_str());
    if let Some(x) = &out.suffix {
        extend_str(&mut o, x.as_str());
    }
    Ok(string_of(&o))
}

/// A provider's prompt configuration: workspace files to read, and the
/// named outputs to render (in name order).
#[derive(Debug, Clone)]
pub struct ProviderPromptSpec {
    pub workspace_files: Vec<ProviderWorkspaceFileSpec>,
    pub outputs: Vec<(String, PromptOutputSpec)>,
}

/// An output's value: a blank `full` output falls back to the whole
/// composed prompt (unless that is blank too).
pub open spec fn output_value(name: Seq<char>, rendered: Seq<char>, full: Seq<char>) -> Seq<char> {
    if name == "full"@ && trim(rendered).len() == 0 && trim(full).len() != 0 { full } else { rendered }
}

/// The outputs rendered in order; the first error stops the rendering.
pub open spec fn rendered_outputs(outs: Seq<(String, PromptOutputSpec)>, parts: Seq<PromptPart>, full: Seq<char>)
    -> Result<Seq<(Seq<char>, Seq<char>)>, Seq<char>>
    decreases outs.len(),
{
    if outs.len() == 0 {
        Ok(seq![])
    } else {
        match rendered_outputs(outs.drop_last(), parts, full) {
            Err(e) => Err(e),
            Ok(prev) => match rendered_output(outs.last().1, parts, full) {
                Err(e) => Err(e),
                Ok(r) => Ok(prev.push((outs.last().0@, output_value(outs.last().0@, r, full)))),
            },
        }
    }
}

/// The default output of a provider that declares none: `full`, the
/// `loom_full` preset's parts with their titles, joined by blank lines.
pub open spec fn default_full_output(parts: Seq<PromptPart>, full: Seq<char>) -> Seq<char> {
    output_value("full"@, join(non_blank_pieces(rendered_parts(preset("loom_full"@)->0, parts, RenderTitle::Auto)), "\n\n"@), full)
}

/// The views of rendered outputs.
pub open spec fn output_views(v: Seq<(String, String)>) -> Seq<(Seq<char>, Seq<char>)> {
    v.map_values(|p: (String, String)| (p.0@, p.1@))
}

/// Render a provider's prompt outputs: its declared outputs, or the
/// default `full` output when it declares none.
pub fn render_prompt_outputs(spec: Option<&ProviderPromptSpec>, parts: &Vec<PromptPart>, full: &str)
    -> (r: Result<Vec<(String, String)>, String>)
    ensures
        match spec {
            Some(s) if s.outputs@.len() != 0 => match r {
                Ok(v) => rendered_outputs(s.outputs@, parts@, full@) == Ok::<Seq<(Seq<char>, Seq<char>)>, Seq<char>>(output_views(v@)),
                Err(m) => rendered_outputs(s.outputs@, parts@, full@) == Err::<Seq<(Seq<char>, Seq<char>)>, Seq<char>>(m@),
            },
            _ => r matches Ok(v) && output_views(v@) == seq![("full"@, default_full_output(parts@, full@))],
        },
{
    let declared = match spec {
        Some(s) => s.outputs.len() != 0,
        None => false,
    };
    if !declared {
        let d = PromptOutputSpec {
            required: Vec::new(),
            template: None,
            render_title: None,
            parts: Vec::new(),
            preset: Some("loom_full".to_owned()),
            join: None,
            prefix: None,
            suffix: None,
        };
        proof {
            reveal_strlit("loom_full");
            assert(d.required@ =~= Seq::<String>::empty());
        }
        let rendered = match render_prompt_output(&d, parts, full) {
            Ok(x) => x,
            Err(e) => return Err(e),
        };
        let v = output_value_exec("full", rendered, full);
        let out = vec![("full".to_owned(), v)];
        proof {
            reveal_strlit("full");
            assert(output_views(out@) =~= seq![("full"@, default_full_output(parts@, full@))]);
        }
        return Ok(out);
    }
    let s = match spec {
        Some(s) => s,
        None => return Ok(Vec::new()),
    };
    let mut out: Vec<(String, String)> = Vec::new();
    let mut i: usize = 0;
    assert(s.outputs@.take(0) =~= Seq::<(String, PromptOutputSpec)>::empty());
    assert(output_views(out@) =~= seq![]);
    while i < s.outputs.len()
        invariant
            i <= s.outputs.len(),
            spec == Some(s),
            s.outputs@.len() != 0,
            rendered_outputs(s.outputs@.take(i as int), parts@, full@) == Ok::<Seq<(Seq<char>, Seq<char>)>, Seq<char>>(output_views(out@)),
        decreases s.outputs.len() - i,
    {
        proof {
            assert(s.outputs@.take(i + 1).drop_last() =~= s.outputs@.take(i as int));
            assert(s.outputs@.take(i + 1).last() == s.outputs@[i as int]);
        }
        let rendered = match render_prompt_output(&s.outputs[i].1, parts, full) {
            Ok(x) => x,
            Err(e) => {
                proof {
                    assert(rendered_outputs(s.outputs@.take(i + 1), parts@, full@) == Err::<Seq<(Seq<char>, Seq<char>)>, Seq<char>>(e@));
                    lemma_rendered_outputs_err(s.outputs@, parts@, full@, i + 1);
                }
                return Err(e);
            },
        };
        let v = output_value_exec(s.outputs[i].0.as_str(), rendered, full);
        let ghost before = output_views(out@);
        out.push((s.outputs[i].0.clone(), v));
        assert(output_views(out@) =~= before.push((s.outputs@[i as int].0@, v@)));
        i += 1;
    }
    assert(s.outputs@.take(s.outputs.len() as int) =~= s.outputs@);
    Ok(out)
}

proof fn lemma_rendered_outputs_err(outs: Seq<(String, PromptOutputSpec)>, parts: Seq<PromptPart>, full: Seq<char>, k: int)
    requires
        0 <= k <= outs.len(),
        rendered_outputs(outs.take(k), parts, full) is Err,
    ensures
        rendered_outputs(outs, parts, full) == rendered_outputs(outs.take(k), parts, full),
    decreases outs.len() - k,
{
    if k < outs.len() {
        assert(outs.take(k + 1).drop_last() =~= outs.take(k));
        lemma_rendered_outputs_err(outs, parts, full, k + 1);
    } else {
        assert(outs.take(k) =~= outs);
    }
}

fn output_value_exec(name: &str, rendered: String, full: &str) -> (r: String)
    ensures
        r@ == output_value(name@, rendered@, full@),
{
    if eq_str(&chars_of(name), "full") && is_blank(&chars_of(rendered.as_str())) && !is_blank(&chars_of(full)) {
        full.to_owned()
    } else {
        rendered
    }
}

} // verus!
