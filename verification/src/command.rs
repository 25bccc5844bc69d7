//! Decisions of the one-shot command transport that do not need the
//! process: recognising provider failures in output, cleaning arguments for
//! batch files, summarising errors, and cutting embedded JSON out of log
//! lines.

use vstd::prelude::*;

use crate::json::{
    as_str, get_key, get_member, pointer, pointer_get, string_at, string_at_paths, string_or_int_at,
    string_or_number_at_paths, strs, JsonValue,
};
use crate::paths::{last_segment, name_extension, path_extension, portable_file_path};
use crate::text::{
    ascii_lowercase, chars_of, contains, contains_str, eq_chars, eq_str, extend_chars, extend_str,
    is_blank, join, join_chars, lemma_utf8_len_bound, lemma_utf8_take_step, lemma_utf8_take_strict, replace, replace_str, slice_chars, string_of, to_ascii_lowercase_chars,
    trim, trim_chars, trim_end, trim_end_chars, utf8_len, utf8_width,
};

verus! {

// ───────────────────────── failure recognition ─────────────────────────

/// Standard error and output together, ASCII-lowercased.
pub open spec fn combined_lower(stderr: Seq<char>, stdout: Seq<char>) -> Seq<char> {
    ascii_lowercase(stderr + seq!['\n'] + stdout)
}

/// The provider says the session it was asked to resume is gone.
pub open spec fn session_lost(stderr: Seq<char>, stdout: Seq<char>) -> bool {
    let s = combined_lower(stderr, stdout);
    contains(s, "session not found"@) || contains(s, "unknown session"@) || contains(s, "no such session"@)
        || contains(s, "no conversation found with session id"@)
}

/// The provider refused to replay a conversation whose signed thinking
/// blocks were modified.
pub open spec fn signed_thinking_replay_error(stderr: Seq<char>, stdout: Seq<char>) -> bool {
    let s = combined_lower(stderr, stdout);
    (contains(s, "thinking"@) || contains(s, "redacted_thinking"@))
        && contains(s, "latest assistant message"@) && contains(s, "cannot be modified"@)
        && contains(s, "original response"@)
}

/// `stderr`, a newline and `stdout`, ASCII-lowercased.
pub fn combined_lowercase(stderr: &str, stdout: &str) -> (out: Vec<char>)
    ensures
        out@ == combined_lower(stderr@, stdout@),
{
    let mut s: Vec<char> = Vec::new();
    extend_str(&mut s, stderr);
    s.push('\n');
    extend_str(&mut s, stdout);
    to_ascii_lowercase_chars(&s)
}

/// Whether the output says the resumed session no longer exists.
pub fn looks_like_session_lost(stderr: &str, stdout: &str) -> (b: bool)
    ensures
        b == session_lost(stderr@, stdout@),
{
    let s = combined_lowercase(stderr, stdout);
    contains_str(&s, "session not found") || contains_str(&s, "unknown session")
        || contains_str(&s, "no such session") || contains_str(&s, "no conversation found with session id")
}

/// Whether the output is the provider's refusal to replay modified signed
/// thinking blocks.
pub fn looks_like_signed_thinking_replay_error(stderr: &str, stdout: &str) -> (b: bool)
    ensures
        b == signed_thinking_replay_error(stderr@, stdout@),
{
    let s = combined_lowercase(stderr, stdout);
    (contains_str(&s, "thinking") || contains_str(&s, "redacted_thinking"))
        && contains_str(&s, "latest assistant message") && contains_str(&s, "cannot be modified")
        && contains_str(&s, "original response")
}

// ───────────────────────── batch files ─────────────────────────

/// Whether an extension names a Windows batch file.
pub open spec fn batch_extension(ext: Seq<char>) -> bool {
    ascii_lowercase(ext) == "cmd"@ || ascii_lowercase(ext) == "bat"@
}

/// Whether an extension (if any) is `cmd` or `bat` in any ASCII case.
pub fn is_batch_extension(ext: Option<&str>) -> (b: bool)
    ensures
        b == (ext matches Some(e) && batch_extension(e@)),
{
    match ext {
        Some(e) => {
            let c = chars_of(e);
            let l = to_ascii_lowercase_chars(&c);
            eq_str(&l, "cmd") || eq_str(&l, "bat")
        },
        None => false,
    }
}

/// Whether the command is a `.cmd` or `.bat` file (any ASCII case), which
/// Windows runs through `cmd.exe /c`.
pub fn is_batch_file(path: &str) -> (b: bool)
    ensures
        b ==> exists|e: Seq<char>| crate::text::contains(path@, seq!['.'] + e) && batch_extension(e),
        portable_file_path(path@) ==> (b <==> (name_extension(last_segment(path@)) matches Some(e)
            && batch_extension(e))),
{
    let ext = path_extension(path);
    match &ext {
        Some(e) => {
            let b = is_batch_extension(Some(e.as_str()));
            proof {
                if b {
                    assert(crate::text::contains(path@, seq!['.'] + e@) && batch_extension(e@));
                }
            }
            b
        },
        None => false,
    }
}

/// An argument with its line breaks turned into spaces (`\r` first, then
/// `\n`), when it has any.
pub open spec fn flatten_arg(a: Seq<char>) -> Seq<char> {
    if a.contains('\n') || a.contains('\r') {
        replace(replace(a, "\r"@, " "@), "\n"@, " "@)
    } else {
        a
    }
}

/// Whether `s` holds `c`.
fn has_char(s: &[char], c: char) -> (b: bool)
    ensures
        b == s@.contains(c),
{
    let mut i: usize = 0;
    while i < s.len()
        invariant
            i <= s.len(),
            forall|j: int| 0 <= j < i ==> s@[j] != c,
        decreases s.len() - i,
    {
        if s[i] == c {
            assert(s@[i as int] == c);
            return true;
        }
        i += 1;
    }
    false
}

/// Replace line breaks in arguments with spaces, so `cmd.exe` does not take
/// them as command separators.
pub fn sanitize_batch_args(args: &mut Vec<String>)
    ensures
        final(args)@.len() == old(args)@.len(),
        forall|i: int| 0 <= i < old(args)@.len() ==> #[trigger] final(args)@[i]@ == flatten_arg(old(args)@[i]@),
{
    let mut i: usize = 0;
    while i < args.len()
        invariant
            i <= args.len(),
            args@.len() == old(args)@.len(),
            forall|j: int| 0 <= j < i ==> #[trigger] args@[j]@ == flatten_arg(old(args)@[j]@),
            forall|j: int| i <= j < args@.len() ==> #[trigger] args@[j] == old(args)@[j],
        decreases args.len() - i,
    {
        let c = chars_of(args[i].as_str());
        if has_char(&c, '\n') || has_char(&c, '\r') {
            let a = replace_str(&c, "\r", " ");
            let b = replace_str(&a, "\n", " ");
            args.set(i, string_of(&b));
        }
        i += 1;
    }
}

/// Index of the first part whose id is `id`.
pub open spec fn first_with_key(parts: Seq<(String, String)>, id: Seq<char>) -> Option<int>
    decreases parts.len(),
{
    if parts.len() == 0 {
        None
    } else if parts[0].0@ == id {
        Some(0)
    } else {
        match first_with_key(parts.skip(1), id) {
            Some(i) => Some(i + 1),
            None => None,
        }
    }
}

/// Replace the text of the first part with id `id`, or append the part.
pub fn upsert_part_text(parts: &mut Vec<(String, String)>, id: String, text: String)
    ensures
        match first_with_key(old(parts)@, id@) {
            Some(i) => final(parts)@ == old(parts)@.update(i, (old(parts)@[i].0, text)),
            None => final(parts)@ == old(parts)@.push((id, text)),
        },
{
    let idc = chars_of(id.as_str());
    let mut i: usize = 0;
    assert(parts@.skip(0) =~= parts@);
    while i < parts.len()
        invariant
            i <= parts.len(),
            parts@ == old(parts)@,
            idc@ == id@,
            first_with_key(old(parts)@, id@) == (match first_with_key(old(parts)@.skip(i as int), id@) {
                Some(k) => Some(k + i),
                None => None,
            }),
        decreases parts.len() - i,
    {
        let k = chars_of(parts[i].0.as_str());
        if eq_chars(&k, &idc) {
            assert(old(parts)@.skip(i as int)[0] == old(parts)@[i as int]);
            let existing_id = parts[i].0.clone();
            parts.set(i, (existing_id, text));
            return;
        }
        assert(old(parts)@.skip(i as int).skip(1) =~= old(parts)@.skip(i + 1));
        i += 1;
    }
    parts.push((id, text));
}
// ───────────────────────── summaries ─────────────────────────

/// The longest summary kept, in bytes.
pub const SUMMARY_MAX_BYTES: usize = 500;

/// Whether byte offset `n` of the UTF-8 encoding of `s` falls between
/// characters.
pub open spec fn is_char_boundary(s: Seq<char>, n: nat) -> bool {
    exists|k: int| 0 <= k <= s.len() && utf8_len(#[trigger] s.take(k)) == n
}

/// The number of characters in the first `n` bytes, at a boundary.
pub open spec fn chars_in_bytes(s: Seq<char>, n: nat) -> int {
    choose|k: int| 0 <= k <= s.len() && utf8_len(#[trigger] s.take(k)) == n
}

/// A summary of an error message: trimmed, and when longer than
/// `SUMMARY_MAX_BYTES` bytes, its first `SUMMARY_MAX_BYTES` bytes trimmed
/// and followed by `…`.
pub open spec fn summary_of(s: Seq<char>) -> Seq<char> {
    if utf8_len(s) <= SUMMARY_MAX_BYTES {
        trim(s)
    } else {
        trim(s.take(chars_in_bytes(s, SUMMARY_MAX_BYTES as nat))).push('…')
    }
}

/// Number of bytes of the UTF-8 encoding of `c`.
fn utf8_width_of(c: char) -> (w: usize)
    ensures
        w == utf8_width(c),
{
    let u = c as u32;
    if u < 0x80 { 1 } else if u < 0x800 { 2 } else if u < 0x10000 { 3 } else { 4 }
}

/// Shorten an error message for a turn summary. Cutting inside a
/// multi-byte character is refused (it would panic), so longer messages
/// must have a character boundary at byte `SUMMARY_MAX_BYTES`.
pub fn truncate_for_summary(s: &str) -> (out: String)
    requires
        utf8_len(s@) <= SUMMARY_MAX_BYTES || is_char_boundary(s@, SUMMARY_MAX_BYTES as nat),
    ensures
        out@ == summary_of(s@),
{
    let c = chars_of(s);
    let mut bytes: usize = 0;
    let mut k: usize = 0;
    assert(c@.take(0) =~= Seq::<char>::empty());
    while k < c.len() && bytes + utf8_width_of(c[k]) <= SUMMARY_MAX_BYTES
        invariant
            k <= c.len(),
            c@ == s@,
            bytes == utf8_len(c@.take(k as int)),
            bytes <= SUMMARY_MAX_BYTES,
        decreases c.len() - k,
    {
        proof {
            lemma_utf8_take_step(c@, k as int);
        }
        bytes = bytes + utf8_width_of(c[k]);
        k += 1;
    }
    if k == c.len() {
        assert(c@.take(k as int) =~= c@);
        let t = trim_chars(&c);
        return string_of(&t);
    }
    proof {
        lemma_utf8_take_step(c@, k as int);
        assert(c@.take(c@.len() as int) =~= c@);
        if k + 1 < c@.len() {
            lemma_utf8_take_strict(c@, k + 1, c@.len() as int);
        }
        assert(utf8_len(s@) > SUMMARY_MAX_BYTES);
        let w = chars_in_bytes(s@, SUMMARY_MAX_BYTES as nat);
        if w < k {
            lemma_utf8_take_strict(c@, w, k as int);
        } else if w > k {
            if w > k + 1 {
                lemma_utf8_take_strict(c@, k + 1, w);
            }
        }
        assert(w == k);
    }
    let head = slice_chars(&c, 0, k);
    assert(head@ =~= c@.take(k as int));
    let mut t = trim_chars(&head);
    t.push('…');
    string_of(&t)
}

/// `Some` of the message without trailing white space, unless it is blank.
pub open spec fn non_blank_text(s: Seq<char>) -> Option<Seq<char>> {
    if trim(trim_end(s)).len() == 0 { None } else { Some(trim_end(s)) }
}

/// A message without trailing white space, or `None` when it is blank.
pub fn non_blank(s: String) -> (r: Option<String>)
    ensures
        match r {
            Some(t) => non_blank_text(s@) == Some(t@),
            None => non_blank_text(s@) is None,
        },
{
    let c = chars_of(s.as_str());
    let t = trim_end_chars(&c);
    if is_blank(&t) {
        None
    } else {
        Some(string_of(&t))
    }
}

/// Whether a message can be shortened for a summary without cutting a
/// character (see [`truncate_for_summary`]).
pub open spec fn summarisable(s: Seq<char>) -> bool {
    utf8_len(s) <= SUMMARY_MAX_BYTES || is_char_boundary(s, SUMMARY_MAX_BYTES as nat)
}

/// The summary of the last provider error of an output, given the runtime
/// error found on each of its lines (if any): the last non-blank one,
/// without trailing white space, shortened.
pub open spec fn last_error_summary(msgs: Seq<Option<Seq<char>>>) -> Option<Seq<char>>
    decreases msgs.len(),
{
    if msgs.len() == 0 {
        None
    } else if msgs.last() is Some && non_blank_text(msgs.last()->0) is Some {
        Some(summary_of(non_blank_text(msgs.last()->0)->0))
    } else {
        last_error_summary(msgs.drop_last())
    }
}

/// The values of optional messages.
pub open spec fn opt_views(v: Seq<Option<String>>) -> Seq<Option<Seq<char>>> {
    v.map_values(|o: Option<String>| crate::server_url::opt_view(o))
}

/// The summary of the last provider error, from the runtime error found on
/// each line of an output (see [`last_error_summary`]).
pub fn last_runtime_error_summary(msgs: &Vec<Option<String>>) -> (r: Option<String>)
    requires
        forall|i: int| 0 <= i < msgs@.len() && (#[trigger] msgs@[i]) is Some
            && non_blank_text(msgs@[i]->0@) is Some ==> summarisable(non_blank_text(msgs@[i]->0@)->0),
    ensures
        crate::server_url::opt_view(r) == last_error_summary(opt_views(msgs@)),
{
    let ghost all = opt_views(msgs@);
    let mut found: Option<String> = None;
    let mut i: usize = 0;
    while i < msgs.len()
        invariant
            i <= msgs.len(),
            all == opt_views(msgs@),
            forall|k: int| 0 <= k < msgs@.len() && (#[trigger] msgs@[k]) is Some
                && non_blank_text(msgs@[k]->0@) is Some ==> summarisable(non_blank_text(msgs@[k]->0@)->0),
            crate::server_url::opt_view(found) == last_error_summary(all.take(i as int)),
        decreases msgs.len() - i,
    {
        assert(all.take(i + 1).drop_last() =~= all.take(i as int));
        assert(all.take(i + 1).last() == all[i as int]);
        match &msgs[i] {
            Some(m) => {
                match non_blank(m.clone()) {
                    Some(t) => {
                        found = Some(truncate_for_summary(t.as_str()));
                    },
                    None => {},
                }
            },
            None => {},
        }
        i += 1;
    }
    assert(all.take(msgs.len() as int) =~= all);
    found
}

// ───────────────────────── embedded JSON ─────────────────────────

/// Scan for the `}` closing the object that starts the text, skipping
/// braces inside strings; `None` when a `}` comes with no open object or the
/// text ends first.
pub open spec fn close_scan(s: Seq<char>, i: int, depth: nat, in_str: bool, esc: bool) -> Option<int>
    decreases s.len() - i,
{
    if i < 0 || i >= s.len() {
        None
    } else if in_str {
        if esc {
            close_scan(s, i + 1, depth, true, false)
        } else if s[i] == '\\' {
            close_scan(s, i + 1, depth, true, true)
        } else if s[i] == '"' {
            close_scan(s, i + 1, depth, false, false)
        } else {
            close_scan(s, i + 1, depth, true, false)
        }
    } else if s[i] == '"' {
        close_scan(s, i + 1, depth, true, false)
    } else if s[i] == '{' {
        close_scan(s, i + 1, depth + 1, false, false)
    } else if s[i] == '}' {
        if depth == 0 {
            None
        } else if depth == 1 {
            Some(i)
        } else {
            close_scan(s, i + 1, (depth - 1) as nat, false, false)
        }
    } else {
        close_scan(s, i + 1, depth, false, false)
    }
}

/// The shortest prefix of `s` whose braces balance, strings aware.
pub open spec fn balanced_prefix(s: Seq<char>) -> Option<Seq<char>> {
    match close_scan(s, 0, 0, false, false) {
        Some(i) => Some(s.take(i + 1)),
        None => None,
    }
}

/// The prefix of `input` up to the `}` that balances its first `{`.
pub fn balanced_json_object_prefix(input: &[char]) -> (r: Option<Vec<char>>)
    ensures
        match r {
            Some(p) => balanced_prefix(input@) == Some(p@),
            None => balanced_prefix(input@) is None,
        },
{
    let mut depth: usize = 0;
    let mut in_string = false;
    let mut escaped = false;
    let mut i: usize = 0;
    while i < input.len()
        invariant
            i <= input.len(),
            depth <= i,
            !in_string ==> !escaped,
            close_scan(input@, 0, 0, false, false) == close_scan(input@, i as int, depth as nat, in_string, escaped),
        decreases input.len() - i,
    {
        let ch = input[i];
        if in_string {
            if escaped {
                escaped = false;
            } else if ch == '\\' {
                escaped = true;
            } else if ch == '"' {
                in_string = false;
            }
        } else if ch == '"' {
            in_string = true;
        } else if ch == '{' {
            depth = depth + 1;
        } else if ch == '}' {
            if depth == 0 {
                return None;
            }
            depth = depth - 1;
            if depth == 0 {
                let p = slice_chars(input, 0, i + 1);
                assert(p@ =~= input@.take(i + 1));
                return Some(p);
            }
        }
        i += 1;
    }
    None
}

/// The JSON object text that follows `error=` in a log line.
pub open spec fn embedded_error_text(line: Seq<char>) -> Option<Seq<char>> {
    match crate::text::find(line, "error="@) {
        None => None,
        Some(start) => {
            let after = line.skip(start + 6);
            match crate::text::find(after, seq!['{']) {
                None => None,
                Some(b) => balanced_prefix(after.skip(b)),
            }
        },
    }
}

/// The JSON object text after `error=` in a log line, for the caller to
/// parse.
pub fn embedded_error_json_text(line: &str) -> (r: Option<String>)
    ensures
        match r {
            Some(t) => embedded_error_text(line@) == Some(t@),
            None => embedded_error_text(line@) is None,
        },
{
    let l = chars_of(line);
    let marker = chars_of("error=");
    proof {
        reveal_strlit("error=");
        assert(marker@.len() == 6);
    }
    proof {
        crate::text::lemma_find_spec(l@, marker@);
    }
    let start = match crate::text::find_chars(&l, &marker) {
        Some(s) => s,
        None => return None,
    };
    assert(crate::text::find(l@, marker@) == Some(start as int));
    assert(start + marker@.len() <= l@.len());
    let n = l.len();
    assert(start + 6 <= n);
    let after = slice_chars(&l, start + 6, n);
    assert(after@ =~= l@.skip(start + 6));
    let brace = vec!['{'];
    assert(brace@ =~= seq!['{']);
    proof {
        crate::text::lemma_find_spec(after@, brace@);
    }
    let b = match crate::text::find_chars(&after, &brace) {
        Some(b) => b,
        None => return None,
    };
    let obj = slice_chars(&after, b, after.len());
    assert(obj@ =~= after@.skip(b as int));
    match balanced_json_object_prefix(&obj) {
        Some(p) => Some(string_of(&p)),
        None => None,
    }
}

// ───────────────────────── runtime errors in JSON ─────────────────────────

/// `a`, or else `b`.
pub open spec fn or_else(a: Option<Seq<char>>, b: Option<Seq<char>>) -> Option<Seq<char>> {
    if a is Some { a } else { b }
}

/// `string_at` on an optional document.
pub open spec fn string_in(v: Option<JsonValue>, paths: Seq<Seq<char>>) -> Option<Seq<char>> {
    match v {
        Some(x) => string_at(x, paths),
        None => None,
    }
}

/// `string_or_int_at` on an optional document.
pub open spec fn string_or_int_in(v: Option<JsonValue>, paths: Seq<Seq<char>>) -> Option<Seq<char>> {
    match v {
        Some(x) => string_or_int_at(x, paths),
        None => None,
    }
}

/// Where an error document may hold a JSON error serialised as a string.
pub open spec fn embedded_paths() -> Seq<Seq<char>> {
    seq!["/data/errorMessage"@, "/errorMessage"@, "/error/errorMessage"@]
}

/// Where an error document may hold an HTTP response body.
pub open spec fn body_paths() -> Seq<Seq<char>> {
    seq!["/responseBody"@, "/error/responseBody"@, "/properties/responseBody"@, "/data/responseBody"@]
}

pub open spec fn message_paths() -> Seq<Seq<char>> {
    seq!["/error/message"@, "/error/data/error/message"@, "/error/data/message"@, "/error/error/message"@,
        "/properties/error/message"@, "/data/error/message"@, "/data/message"@, "/message/content/0/text"@,
        "/message"@, "/result"@, "/details"@]
}

pub open spec fn embedded_message_paths() -> Seq<Seq<char>> {
    seq!["/error/message"@, "/message"@, "/details"@]
}

pub open spec fn raw_message_paths() -> Seq<Seq<char>> {
    seq!["/data/errorMessage"@, "/errorMessage"@]
}

pub open spec fn body_message_paths() -> Seq<Seq<char>> {
    seq!["/error/message"@, "/message"@, "/error/details"@, "/details"@]
}

pub open spec fn status_paths() -> Seq<Seq<char>> {
    seq!["/statusCode"@, "/status"@, "/properties/statusCode"@, "/properties/status"@, "/data/statusCode"@,
        "/data/status"@, "/api_error_status"@, "/error/statusCode"@, "/error/status"@, "/error/api_error_status"@]
}

pub open spec fn nested_status_paths() -> Seq<Seq<char>> {
    seq!["/statusCode"@, "/status"@, "/error/statusCode"@, "/error/status"@]
}

pub open spec fn code_paths() -> Seq<Seq<char>> {
    seq!["/error/type"@, "/error/code"@, "/properties/error/type"@, "/properties/error/code"@,
        "/data/errorType"@, "/data/errorCode"@, "/data/code"@, "/code"@, "/error"@]
}

pub open spec fn nested_code_paths() -> Seq<Seq<char>> {
    seq!["/error/type"@, "/error/code"@, "/error/name"@, "/code"@, "/name"@]
}

pub open spec fn name_paths() -> Seq<Seq<char>> {
    seq!["/error/name"@, "/properties/error/name"@, "/name"@]
}

pub open spec fn retry_paths() -> Seq<Seq<char>> {
    seq!["/responseHeaders/retry-after"@, "/responseHeaders/Retry-After"@,
        "/error/responseHeaders/retry-after"@, "/error/responseHeaders/Retry-After"@,
        "/properties/responseHeaders/retry-after"@, "/properties/responseHeaders/Retry-After"@,
        "/headers/retry-after"@, "/headers/Retry-After"@]
}

/// The trimmed strings at `paths` that start with `{`, in order: the texts
/// the caller tries to parse as an embedded error, keeping the first that
/// parses.
pub open spec fn object_texts(v: JsonValue, paths: Seq<Seq<char>>) -> Seq<Seq<char>>
    decreases paths.len(),
{
    if paths.len() == 0 {
        seq![]
    } else {
        let rest = object_texts(v, paths.drop_last());
        match as_str(pointer(v, paths.last())) {
            Some(t) => if trim(t).len() > 0 && trim(t)[0] == '{' { rest.push(trim(t)) } else { rest },
            None => rest,
        }
    }
}

/// A response body's `type`, unless it is `error`.
pub open spec fn body_kind(body: Option<JsonValue>) -> Option<Seq<char>> {
    match body {
        Some(b) => match as_str(get_key(b, "type"@)) {
            Some(k) => if k != "error"@ { Some(k) } else { None },
            None => None,
        },
        None => None,
    }
}

/// The error message: from the document, the embedded error, the raw
/// embedded text, or the response body, in that order.
pub open spec fn error_message(v: JsonValue, embedded: Option<JsonValue>, body: Option<JsonValue>) -> Option<Seq<char>> {
    or_else(string_at(v, message_paths()),
        or_else(string_in(embedded, embedded_message_paths()),
            or_else(string_at(v, raw_message_paths()), string_in(body, body_message_paths()))))
}

/// The HTTP status of the error, if any source gives one.
pub open spec fn error_status(v: JsonValue, embedded: Option<JsonValue>, body: Option<JsonValue>) -> Option<Seq<char>> {
    or_else(string_or_int_at(v, status_paths()),
        or_else(string_or_int_in(embedded, nested_status_paths()), string_or_int_in(body, nested_status_paths())))
}

/// The error code or type, if any source gives one.
pub open spec fn error_code(v: JsonValue, embedded: Option<JsonValue>, body: Option<JsonValue>) -> Option<Seq<char>> {
    or_else(string_at(v, code_paths()),
        or_else(string_in(embedded, nested_code_paths()),
            or_else(or_else(string_in(body, nested_code_paths()), body_kind(body)), string_at(v, name_paths()))))
}

/// The labels put before the message: status and code, each unless the
/// message already mentions it.
pub open spec fn error_prefix(msg: Seq<char>, status: Option<Seq<char>>, code: Option<Seq<char>>) -> Seq<Seq<char>> {
    (match status { Some(s) => if !contains(msg, s) { seq![s] } else { seq![] }, None => seq![] })
        + (match code { Some(c) => if !contains(msg, c) { seq![c] } else { seq![] }, None => seq![] })
}

/// The rendered error: `status code: message`, then ` (retry-after: Ns)`
/// when the document carries a retry delay; `None` without a message.
pub open spec fn runtime_error(v: JsonValue, embedded: Option<JsonValue>, body: Option<JsonValue>) -> Option<Seq<char>> {
    match error_message(v, embedded, body) {
        None => None,
        Some(msg) => {
            let prefix = error_prefix(msg, error_status(v, embedded, body), error_code(v, embedded, body));
            let head = if prefix.len() == 0 { msg } else { join(prefix, " "@) + ": "@ + msg };
            Some(match string_or_int_at(v, retry_paths()) {
                Some(r) => head + " (retry-after: "@ + r + "s)"@,
                None => head,
            })
        },
    }
}

fn or_else_exec(a: Option<String>, b: Option<String>) -> (r: Option<String>)
    ensures
        crate::server_url::opt_view(r) == or_else(crate::server_url::opt_view(a), crate::server_url::opt_view(b)),
{
    if a.is_some() { a } else { b }
}

fn string_in_exec(v: Option<&JsonValue>, paths: &[&str]) -> (r: Option<String>)
    ensures
        crate::server_url::opt_view(r) == string_in(match v { Some(x) => Some(*x), None => None }, strs(paths@)),
{
    match v {
        Some(x) => string_at_paths(x, paths),
        None => None,
    }
}

fn string_or_int_in_exec(v: Option<&JsonValue>, paths: &[&str]) -> (r: Option<String>)
    ensures
        crate::server_url::opt_view(r) == string_or_int_in(match v { Some(x) => Some(*x), None => None }, strs(paths@)),
{
    match v {
        Some(x) => string_or_number_at_paths(x, paths),
        None => None,
    }
}

/// The texts at the embedded-error paths that look like JSON objects, in
/// order; the caller parses them and keeps the first that parses.
pub fn embedded_error_candidates(v: &JsonValue) -> (out: Vec<String>)
    ensures
        crate::text::views(out@) == object_texts(*v, embedded_paths()),
{
    let paths: [&str; 3] = ["/data/errorMessage", "/errorMessage", "/error/errorMessage"];
    assert(strs(paths@) =~= embedded_paths());
    let mut out: Vec<String> = Vec::new();
    let mut i: usize = 0;
    while i < 3
        invariant
            i <= 3,
            strs(paths@) == embedded_paths(),
            crate::text::views(out@) == object_texts(*v, embedded_paths().take(i as int)),
        decreases 3 - i,
    {
        proof {
            assert(embedded_paths().take(i + 1).drop_last() =~= embedded_paths().take(i as int));
            assert(embedded_paths().take(i + 1).last() == paths@[i as int]@);
        }
        let ghost before = out@;
        match pointer_get(v, paths[i]) {
            Some(JsonValue::String(t)) => {
                let tc = chars_of(t.as_str());
                let tt = trim_chars(&tc);
                if tt.len() > 0 && tt[0] == '{' {
                    out.push(string_of(&tt));
                    assert(crate::text::views(out@) =~= crate::text::views(before).push(tt@));
                }
            },
            _ => {},
        }
        i += 1;
    }
    assert(embedded_paths().take(3) =~= embedded_paths());
    out
}

/// The response body text of an error document, for the caller to parse.
pub fn response_body_text(v: &JsonValue) -> (r: Option<String>)
    ensures
        crate::server_url::opt_view(r) == string_at(*v, body_paths()),
{
    let paths: [&str; 4] = ["/responseBody", "/error/responseBody", "/properties/responseBody", "/data/responseBody"];
    assert(strs(paths@) =~= body_paths());
    string_at_paths(v, &paths)
}

fn body_kind_exec(body: Option<&JsonValue>) -> (r: Option<String>)
    ensures
        crate::server_url::opt_view(r) == body_kind(match body { Some(x) => Some(*x), None => None }),
{
    match body {
        Some(b) => {
            let key = chars_of("type");
            match get_member(b, &key) {
                Some(JsonValue::String(k)) => {
                    let kc = chars_of(k.as_str());
                    if eq_str(&kc, "error") { None } else { Some(k.clone()) }
                },
                _ => None,
            }
        },
        None => None,
    }
}

/// Render the runtime error a provider reported as JSON. `embedded` is the
/// first of `embedded_error_candidates` that parses and `body` the parsed
/// `response_body_text`, where there are such.
#[verifier::rlimit(60)]
#[verifier::spinoff_prover]
pub fn runtime_error_from_json(v: &JsonValue, embedded: Option<&JsonValue>, body: Option<&JsonValue>) -> (r: Option<String>)
    ensures
        crate::server_url::opt_view(r) == runtime_error(*v,
            match embedded { Some(x) => Some(*x), None => None },
            match body { Some(x) => Some(*x), None => None }),
{
    let m1: [&str; 11] = ["/error/message", "/error/data/error/message", "/error/data/message", "/error/error/message",
        "/properties/error/message", "/data/error/message", "/data/message", "/message/content/0/text",
        "/message", "/result", "/details"];
    let m2: [&str; 3] = ["/error/message", "/message", "/details"];
    let m3: [&str; 2] = ["/data/errorMessage", "/errorMessage"];
    let m4: [&str; 4] = ["/error/message", "/message", "/error/details", "/details"];
    let s1: [&str; 10] = ["/statusCode", "/status", "/properties/statusCode", "/properties/status", "/data/statusCode",
        "/data/status", "/api_error_status", "/error/statusCode", "/error/status", "/error/api_error_status"];
    let s2: [&str; 4] = ["/statusCode", "/status", "/error/statusCode", "/error/status"];
    let c1: [&str; 9] = ["/error/type", "/error/code", "/properties/error/type", "/properties/error/code",
        "/data/errorType", "/data/errorCode", "/data/code", "/code", "/error"];
    let c2: [&str; 5] = ["/error/type", "/error/code", "/error/name", "/code", "/name"];
    let c3: [&str; 3] = ["/error/name", "/properties/error/name", "/name"];
    let r1: [&str; 8] = ["/responseHeaders/retry-after", "/responseHeaders/Retry-After",
        "/error/responseHeaders/retry-after", "/error/responseHeaders/Retry-After",
        "/properties/responseHeaders/retry-after", "/properties/responseHeaders/Retry-After",
        "/headers/retry-after", "/headers/Retry-After"];
    assert(strs(m1@) =~= message_paths());
    assert(strs(m2@) =~= embedded_message_paths());
    assert(strs(m3@) =~= raw_message_paths());
    assert(strs(m4@) =~= body_message_paths());
    assert(strs(s1@) =~= status_paths());
    assert(strs(s2@) =~= nested_status_paths());
    assert(strs(c1@) =~= code_paths());
    assert(strs(c2@) =~= nested_code_paths());
    assert(strs(c3@) =~= name_paths());
    assert(strs(r1@) =~= retry_paths());
    let message = or_else_exec(string_at_paths(v, &m1),
        or_else_exec(string_in_exec(embedded, &m2),
            or_else_exec(string_at_paths(v, &m3), string_in_exec(body, &m4))));
    let message = match message {
        Some(m) => m,
        None => return None,
    };
    let status = or_else_exec(string_or_number_at_paths(v, &s1),
        or_else_exec(string_or_int_in_exec(embedded, &s2), string_or_int_in_exec(body, &s2)));
    let code = or_else_exec(string_at_paths(v, &c1),
        or_else_exec(string_in_exec(embedded, &c2),
            or_else_exec(or_else_exec(string_in_exec(body, &c2), body_kind_exec(body)), string_at_paths(v, &c3))));
    let retry = string_or_number_at_paths(v, &r1);
    let mc = chars_of(message.as_str());
    let mut prefix: Vec<Vec<char>> = Vec::new();
    if let Some(st) = &status {
        let sc = chars_of(st.as_str());
        if !crate::text::contains_chars(&mc, &sc) {
            prefix.push(sc);
        }
    }
    let ghost p1 = prefix@.map_values(|l: Vec<char>| l@);
    if let Some(cd) = &code {
        let cc = chars_of(cd.as_str());
        if !crate::text::contains_chars(&mc, &cc) {
            prefix.push(cc);
        }
    }
    let ghost ev = match embedded { Some(x) => Some(*x), None => None };
    let ghost bv = match body { Some(x) => Some(*x), None => None };
    assert(prefix@.map_values(|l: Vec<char>| l@) =~= error_prefix(mc@, error_status(*v, ev, bv), error_code(*v, ev, bv)));
    let mut out: Vec<char> = Vec::new();
    if prefix.len() == 0 {
        extend_chars(&mut out, &mc);
    } else {
        let sp = vec![' '];
        assert(sp@ =~= " "@) by {
            reveal_strlit(" ");
        }
        let j = join_chars(&prefix, &sp);
        extend_chars(&mut out, &j);
        extend_str(&mut out, ": ");
        extend_chars(&mut out, &mc);
    }
    if let Some(ra) = &retry {
        extend_str(&mut out, " (retry-after: ");
        extend_str(&mut out, ra.as_str());
        extend_str(&mut out, "s)");
    }
    Some(string_of(&out))
}

} // verus!
