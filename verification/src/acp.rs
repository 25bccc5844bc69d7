//! Decisions of the ACP transport that do not need the child process:
//! reading a login shell's environment dump, quoting commands for display,
//! picking the authentication method an agent offers, and reading text and
//! permission options out of agent messages.

use vstd::prelude::*;

use crate::adapter::ActionChoice;
use crate::decode::{event_view, EventView, ProviderRuntimeEvent};
use crate::json::{as_str, get_key, get_member, json_clone, json_same, json_value_to_string, value_text, JsonValue};
use crate::memory::str_lt;
use crate::text::{
    chars_of, contains, contains_str, decimal, eq_chars, eq_str, extend_chars, extend_str, join,
    join_chars, push_decimal, replace, replace_str, slice_chars, string_of, utf8_len, utf8_width,
    lemma_utf8_take_step, lemma_utf8_take_strict,
};

verus! {

// ───────────────────────── bytes ─────────────────────────

/// `needle` occurs in `hay` at `i`.
pub open spec fn bytes_at(hay: Seq<u8>, needle: Seq<u8>, i: int) -> bool {
    0 <= i && i + needle.len() <= hay.len() && hay.subrange(i, i + needle.len()) == needle
}

/// The first index at which `needle` occurs in `hay` (0 for an empty needle).
pub open spec fn find_in(hay: Seq<u8>, needle: Seq<u8>) -> Option<int> {
    if exists|i: int| bytes_at(hay, needle, i) && forall|j: int| 0 <= j < i ==> !bytes_at(hay, needle, j) {
        Some(choose|i: int| bytes_at(hay, needle, i) && forall|j: int| 0 <= j < i ==> !bytes_at(hay, needle, j))
    } else {
        None
    }
}

/// Whether a byte is a line break.
pub open spec fn is_newline(b: u8) -> bool {
    b == 10 || b == 13
}

/// Count of leading line breaks.
pub open spec fn leading_newlines(b: Seq<u8>) -> nat
    decreases b.len(),
{
    if b.len() > 0 && is_newline(b[0]) { 1 + leading_newlines(b.skip(1)) } else { 0 }
}

/// Count of trailing line breaks.
pub open spec fn trailing_newlines(b: Seq<u8>) -> nat
    decreases b.len(),
{
    if b.len() > 0 && is_newline(b.last()) { 1 + trailing_newlines(b.drop_last()) } else { 0 }
}

/// `b` without leading and trailing `\n`/`\r`.
pub open spec fn trim_newlines(b: Seq<u8>) -> Seq<u8> {
    let s = b.skip(leading_newlines(b) as int);
    s.take(s.len() - trailing_newlines(s))
}

proof fn lemma_leading_newlines(b: Seq<u8>)
    ensures
        leading_newlines(b) <= b.len(),
        forall|k: int| 0 <= k < leading_newlines(b) ==> is_newline(#[trigger] b[k]),
        leading_newlines(b) < b.len() ==> !is_newline(b[leading_newlines(b) as int]),
    decreases b.len(),
{
    if b.len() > 0 && is_newline(b[0]) {
        lemma_leading_newlines(b.skip(1));
        assert forall|k: int| 0 <= k < leading_newlines(b) implies is_newline(#[trigger] b[k]) by {
            if k > 0 {
                assert(b[k] == b.skip(1)[k - 1]);
            }
        }
    }
}

proof fn lemma_trailing_newlines(b: Seq<u8>)
    ensures
        trailing_newlines(b) <= b.len(),
    decreases b.len(),
{
    if b.len() > 0 && is_newline(b.last()) {
        lemma_trailing_newlines(b.drop_last());
    }
}

/// The first index of `needle` in `hay`.
pub fn find_bytes(hay: &[u8], needle: &[u8]) -> (r: Option<usize>)
    ensures
        match r {
            Some(i) => find_in(hay@, needle@) == Some(i as int),
            None => find_in(hay@, needle@) is None,
        },
{
    if needle.len() > hay.len() {
        proof {
            assert(forall|i: int| !bytes_at(hay@, needle@, i));
        }
        return None;
    }
    let last = hay.len() - needle.len();
    let mut i: usize = 0;
    while i <= last
        invariant
            i <= last + 1,
            last + needle.len() == hay.len(),
            forall|j: int| 0 <= j < i ==> !bytes_at(hay@, needle@, j),
        decreases last + 1 - i,
    {
        let mut k: usize = 0;
        let mut same = true;
        while k < needle.len()
            invariant
                k <= needle.len(),
                i + needle.len() <= hay.len(),
                same == forall|m: int| 0 <= m < k ==> hay@[i + m] == needle@[m],
            decreases needle.len() - k,
        {
            if hay[i + k] != needle[k] {
                same = false;
            }
            k += 1;
        }
        if same {
            proof {
                assert(hay@.subrange(i as int, i + needle.len()) =~= needle@);
                assert(bytes_at(hay@, needle@, i as int));
                assert(bytes_at(hay@, needle@, i as int) && forall|j: int| 0 <= j < i ==> !bytes_at(hay@, needle@, j));
                let c = choose|c: int| bytes_at(hay@, needle@, c) && forall|j: int| 0 <= j < c ==> !bytes_at(hay@, needle@, j);
                if c < i {
                    assert(!bytes_at(hay@, needle@, c));
                } else if c > i {
                    assert(!bytes_at(hay@, needle@, i as int));
                }
                assert(c == i);
            }
            return Some(i);
        }
        proof {
            if bytes_at(hay@, needle@, i as int) {
                let m = choose|m: int| 0 <= m < needle@.len() && hay@[i + m] != needle@[m];
                assert(hay@.subrange(i as int, i + needle.len())[m] == hay@[i + m]);
            }
        }
        i += 1;
    }
    proof {
        assert forall|j: int| !bytes_at(hay@, needle@, j) by {
            if 0 <= j && j + needle@.len() <= hay@.len() {
                assert(j < i);
            }
        }
    }
    None
}

/// `bytes` without leading and trailing `\n`/`\r`.
pub fn trim_ascii_newlines(bytes: &[u8]) -> (out: Vec<u8>)
    ensures
        out@ == trim_newlines(bytes@),
{
    proof {
        lemma_leading_newlines(bytes@);
    }
    let mut start: usize = 0;
    while start < bytes.len() && (bytes[start] == 10 || bytes[start] == 13)
        invariant
            start <= bytes.len(),
            start <= leading_newlines(bytes@),
            leading_newlines(bytes@) <= bytes@.len(),
            forall|k: int| 0 <= k < leading_newlines(bytes@) ==> is_newline(#[trigger] bytes@[k]),
            leading_newlines(bytes@) < bytes@.len() ==> !is_newline(bytes@[leading_newlines(bytes@) as int]),
        decreases bytes.len() - start,
    {
        start += 1;
    }
    let ghost s = bytes@.skip(start as int);
    assert(start == leading_newlines(bytes@));
    let mut end: usize = bytes.len();
    assert(s.take(s.len() as int) =~= s);
    while end > start && (bytes[end - 1] == 10 || bytes[end - 1] == 13)
        invariant
            start <= end <= bytes.len(),
            s == bytes@.skip(start as int),
            trailing_newlines(s) == (bytes.len() - end) + trailing_newlines(s.take(end - start)),
        decreases end,
    {
        assert(s.take(end - start).drop_last() =~= s.take(end - start - 1));
        end -= 1;
    }
    proof {
        lemma_trailing_newlines(s.take(end - start));
    }
    let mut out: Vec<u8> = Vec::new();
    let mut i = start;
    while i < end
        invariant
            start <= i <= end <= bytes.len(),
            out@ == bytes@.subrange(start as int, i as int),
        decreases end - i,
    {
        out.push(bytes[i]);
        i += 1;
        assert(out@ =~= bytes@.subrange(start as int, i as int));
    }
    assert(out@ =~= trim_newlines(bytes@));
    out
}

// ───────────────────────── login shell environment ─────────────────────────

/// What `String::from_utf8_lossy` gives for `b`: the text, with each
/// invalid sequence replaced by U+FFFD.
pub uninterp spec fn lossy_text(b: Seq<u8>) -> Seq<char>;

/// Calls `String::from_utf8_lossy`; the contract names the result.
#[verifier::external_body]
fn from_utf8_lossy(b: &[u8]) -> (s: String)
    ensures
        s@ == lossy_text(b@),
{
    String::from_utf8_lossy(b).into_owned()
}

/// Index of the first `b` in `s`.
pub open spec fn first_byte(s: Seq<u8>, b: u8) -> Option<int>
    decreases s.len(),
{
    if s.len() == 0 {
        None
    } else if s[0] == b {
        Some(0)
    } else {
        match first_byte(s.skip(1), b) {
            Some(i) => Some(i + 1),
            None => None,
        }
    }
}

pub proof fn lemma_first_byte(s: Seq<u8>, b: u8)
    ensures
        first_byte(s, b) matches Some(i) ==> 0 <= i < s.len() && s[i] == b,
    decreases s.len(),
{
    if s.len() > 0 && s[0] != b {
        lemma_first_byte(s.skip(1), b);
    }
}

/// The pieces of `s` between NUL bytes, as `split(|b| *b == 0)` yields them.
pub open spec fn nul_pieces(s: Seq<u8>) -> Seq<Seq<u8>>
    decreases s.len(),
{
    proof {
        lemma_first_byte(s, 0);
    }
    match first_byte(s, 0) {
        None => seq![s],
        Some(i) => seq![s.take(i)] + nul_pieces(s.skip(i + 1)),
    }
}

/// The `KEY=VALUE` entry of one record, if it is one: line breaks trimmed,
/// not empty, with a `=` that is not the first byte.
pub open spec fn env_entry(raw: Seq<u8>) -> Option<(Seq<char>, Seq<char>)> {
    let r = trim_newlines(raw);
    if r.len() == 0 {
        None
    } else {
        match first_byte(r, 61) {
            None => None,
            Some(eq) => if eq == 0 { None } else { Some((lossy_text(r.take(eq)), lossy_text(r.skip(eq + 1)))) },
        }
    }
}

/// The entries of a list of records, in order.
pub open spec fn env_entries(pieces: Seq<Seq<u8>>) -> Seq<(Seq<char>, Seq<char>)>
    decreases pieces.len(),
{
    if pieces.len() == 0 {
        seq![]
    } else {
        match env_entry(pieces[0]) {
            Some(e) => seq![e] + env_entries(pieces.skip(1)),
            None => env_entries(pieces.skip(1)),
        }
    }
}

/// Where the dump's body starts: after the start marker and one optional
/// `\r`, then one optional `\n`.
pub open spec fn body_start(out: Seq<u8>, start_pos: int, marker_len: int) -> int {
    let a = start_pos + marker_len;
    let b = if a < out.len() && out[a] == 13 { a + 1 } else { a };
    if b < out.len() && out[b] == 10 { b + 1 } else { b }
}

/// Where the dump's body ends: before the end marker and any line breaks
/// that precede it (never before the start).
pub open spec fn body_end(out: Seq<u8>, from: int, to: int) -> int
    decreases to - from,
{
    if to > from && is_newline(out[to - 1]) { body_end(out, from, to - 1) } else { to }
}

/// The outcome of reading a login shell's `env -0` dump framed by two
/// markers: the `KEY=VALUE` entries in order, or why there are none.
pub open spec fn env_dump(out: Seq<u8>, start: Seq<u8>, end: Seq<u8>) -> Result<Seq<(Seq<char>, Seq<char>)>, Seq<char>> {
    match find_in(out, start) {
        None => Err("login shell env output did not contain start marker"@),
        Some(sp) => {
            let bs = body_start(out, sp, start.len() as int);
            match find_in(out.skip(bs), end) {
                None => Err("login shell env output did not contain end marker"@),
                Some(er) => {
                    let be = body_end(out, bs, bs + er);
                    let entries = env_entries(nul_pieces(out.subrange(bs, be)));
                    if entries.len() == 0 {
                        Err("login shell env output contained no KEY=VALUE entries"@)
                    } else {
                        Ok(entries)
                    }
                },
            }
        },
    }
}

/// The entry of one record.
fn env_entry_exec(raw: &[u8]) -> (r: Option<(String, String)>)
    ensures
        match r {
            Some((k, v)) => env_entry(raw@) == Some((k@, v@)),
            None => env_entry(raw@) is None,
        },
{
    let t = trim_ascii_newlines(raw);
    if t.len() == 0 {
        return None;
    }
    proof {
        lemma_first_byte(t@, 61);
    }
    let mut i: usize = 0;
    assert(t@.skip(0) =~= t@);
    while i < t.len() && t[i] != 61
        invariant
            i <= t.len(),
            first_byte(t@, 61) == (match first_byte(t@.skip(i as int), 61) { Some(k) => Some(k + i), None => None }),
        decreases t.len() - i,
    {
        assert(t@.skip(i as int).skip(1) =~= t@.skip(i + 1));
        i += 1;
    }
    if i == t.len() {
        assert(t@.skip(i as int).len() == 0);
        return None;
    }
    if i == 0 {
        return None;
    }
    let mut kb: Vec<u8> = Vec::new();
    let mut j: usize = 0;
    while j < i
        invariant
            j <= i < t.len(),
            kb@ == t@.take(j as int),
        decreases i - j,
    {
        kb.push(t[j]);
        j += 1;
        assert(kb@ =~= t@.take(j as int));
    }
    let mut vb: Vec<u8> = Vec::new();
    let mut m: usize = i + 1;
    while m < t.len()
        invariant
            i + 1 <= m <= t.len(),
            vb@ == t@.subrange(i + 1, m as int),
        decreases t.len() - m,
    {
        vb.push(t[m]);
        m += 1;
        assert(vb@ =~= t@.subrange(i + 1, m as int));
    }
    assert(vb@ =~= t@.skip(i + 1));
    Some((from_utf8_lossy(&kb), from_utf8_lossy(&vb)))
}

/// The views of a list of entries.
pub open spec fn entry_views(v: Seq<(String, String)>) -> Seq<(Seq<char>, Seq<char>)> {
    v.map_values(|e: (String, String)| (e.0@, e.1@))
}

/// `s[from..to]`.
fn copy_range(s: &[u8], from: usize, to: usize) -> (out: Vec<u8>)
    requires
        from <= to <= s@.len(),
    ensures
        out@ == s@.subrange(from as int, to as int),
{
    let mut out: Vec<u8> = Vec::new();
    let mut i = from;
    while i < to
        invariant
            from <= i <= to <= s@.len(),
            out@ == s@.subrange(from as int, i as int),
        decreases to - i,
    {
        out.push(s[i]);
        i += 1;
        assert(out@ =~= s@.subrange(from as int, i as int));
    }
    out
}

/// The entries of the NUL-separated records of `body`.
fn collect_entries(body: &Vec<u8>) -> (entries: Vec<(String, String)>)
    ensures
        entry_views(entries@) == env_entries(nul_pieces(body@)),
{
    let mut entries: Vec<(String, String)> = Vec::new();
    let mut p: usize = 0;
    let mut more = true;
    assert(body@.skip(0) =~= body@);
    assert(entry_views(entries@) =~= Seq::<(Seq<char>, Seq<char>)>::empty());
    while more
        invariant
            p <= body.len(),
            more ==> env_entries(nul_pieces(body@)) == entry_views(entries@) + env_entries(nul_pieces(body@.skip(p as int))),
            !more ==> env_entries(nul_pieces(body@)) == entry_views(entries@),
        decreases body.len() - p + (if more { 1int } else { 0int }),
    {
        let ghost restp = body@.skip(p as int);
        proof {
            lemma_first_byte(restp, 0);
        }
        let mut q = p;
        assert(body@.skip(q as int) =~= restp);
        while q < body.len() && body[q] != 0
            invariant
                p <= q <= body.len(),
                restp == body@.skip(p as int),
                first_byte(restp, 0) == (match first_byte(body@.skip(q as int), 0) { Some(x) => Some(x + (q - p)), None => None }),
                forall|j: int| p <= j < q ==> body@[j] != 0,
            decreases body.len() - q,
        {
            assert(body@.skip(q as int).skip(1) =~= body@.skip(q + 1));
            q += 1;
        }
        let piece = copy_range(body, p, q);
        let ghost before = entry_views(entries@);
        let ghost ent = env_entry(piece@);
        match env_entry_exec(&piece) {
            Some(e) => {
                entries.push(e);
                assert(entry_views(entries@) =~= before.push((e.0@, e.1@)));
            },
            None => {},
        }
        if q == body.len() {
            assert(body@.skip(q as int).len() == 0);
            assert(piece@ =~= restp);
            assert(nul_pieces(restp) == seq![restp]);
            assert(seq![restp].skip(1) =~= Seq::<Seq<u8>>::empty());
            assert(seq![restp][0] == restp);
            assert(env_entries(seq![restp].skip(1)) == Seq::<(Seq<char>, Seq<char>)>::empty());
            assert(entry_views(entries@) =~= before + env_entries(seq![restp]));
            more = false;
        } else {
            let ghost tail = restp.skip(q - p + 1);
            assert(piece@ =~= restp.take(q - p));
            assert(tail =~= body@.skip(q + 1));
            assert(nul_pieces(restp) == seq![restp.take(q - p)] + nul_pieces(tail));
            assert((seq![restp.take(q - p)] + nul_pieces(tail))[0] == restp.take(q - p));
            assert((seq![restp.take(q - p)] + nul_pieces(tail)).skip(1) =~= nul_pieces(tail));
            assert(entry_views(entries@) + env_entries(nul_pieces(tail)) =~= before + env_entries(nul_pieces(restp)));
            p = q + 1;
        }
    }
    entries
}

/// Read the `KEY=VALUE` entries of a login shell's environment dump
/// between the `start` and `end` markers (shell noise around them is
/// ignored). A later entry for the same key wins when the caller collects
/// them into a map.
pub fn parse_env_entries(out: &[u8], start: &str, end: &str) -> (r: Result<Vec<(String, String)>, String>)
    ensures
        match r {
            Ok(v) => env_dump(out@, crate::signature::utf8(start@), crate::signature::utf8(end@)) == Ok::<Seq<(Seq<char>, Seq<char>)>, Seq<char>>(entry_views(v@)),
            Err(m) => env_dump(out@, crate::signature::utf8(start@), crate::signature::utf8(end@)) == Err::<Seq<(Seq<char>, Seq<char>)>, Seq<char>>(m@),
        },
{
    let sb = crate::signature::str_bytes(start);
    let eb = crate::signature::str_bytes(end);
    let sp = match find_bytes(out, &sb) {
        Some(p) => p,
        None => return Err("login shell env output did not contain start marker".to_owned()),
    };
    assert(bytes_at(out@, sb@, sp as int));
    let n = out.len();
    assert(sp + sb.len() <= n);
    let mut bs = sp + sb.len();
    if bs < out.len() && out[bs] == 13 {
        bs += 1;
    }
    if bs < out.len() && out[bs] == 10 {
        bs += 1;
    }
    assert(bs == body_start(out@, sp as int, sb@.len() as int));
    let rest = copy_range(out, bs, out.len());
    assert(rest@ =~= out@.skip(bs as int));
    let er = match find_bytes(&rest, &eb) {
        Some(p) => p,
        None => return Err("login shell env output did not contain end marker".to_owned()),
    };
    assert(bytes_at(rest@, eb@, er as int));
    let mut be = bs + er;
    while be > bs && (out[be - 1] == 10 || out[be - 1] == 13)
        invariant
            bs <= be <= out.len(),
            body_end(out@, bs as int, (bs + er) as int) == body_end(out@, bs as int, be as int),
        decreases be,
    {
        be -= 1;
    }
    let body = copy_range(out, bs, be);
    let entries = collect_entries(&body);
    if entries.len() == 0 {
        return Err("login shell env output contained no KEY=VALUE entries".to_owned());
    }
    Ok(entries)
}
// ───────────────────────── quoting and log text ─────────────────────────

/// `value` in single quotes for a POSIX shell, each `'` written `'\''`.
pub open spec fn quoted(value: Seq<char>) -> Seq<char> {
    seq!['\''] + replace(value, seq!['\''], "'\\''"@) + seq!['\'']
}

/// Quote a value for display as a shell word.
pub fn shell_quote(value: &str) -> (out: String)
    ensures
        out@ == quoted(value@),
{
    let v = chars_of(value);
    let q = vec!['\''];
    let r = replace_str(&v, "'", "'\\''");
    proof {
        reveal_strlit("'");
    }
    let mut out: Vec<char> = Vec::new();
    out.push('\'');
    extend_chars(&mut out, &r);
    out.push('\'');
    assert(q@ =~= seq!['\'']);
    assert("'"@ =~= seq!['\'']);
    assert(out@ =~= quoted(value@));
    string_of(&out)
}

/// The command a terminal-auth method runs.
#[derive(Debug, Clone, PartialEq, Eq)]
pub struct TerminalAuthCommand {
    pub command: String,
    pub args: Vec<String>,
    /// Environment entries in key order.
    pub env: Vec<(String, String)>,
    pub label: Option<String>,
}

/// An authentication method an agent offers.
#[derive(Debug, Clone, PartialEq, Eq)]
pub struct AcpAuthMethod {
    pub id: String,
    pub terminal_auth: Option<TerminalAuthCommand>,
}

/// The quoted command and arguments, space-separated.
pub open spec fn command_line(command: Seq<char>, args: Seq<String>) -> Seq<char> {
    join(seq![quoted(command)] + args.map_values(|a: String| quoted(a@)), " "@)
}

/// Display a terminal-auth command as a shell line.
pub fn format_terminal_auth_command(terminal: &TerminalAuthCommand) -> (out: String)
    ensures
        out@ == command_line(terminal.command@, terminal.args@),
{
    let mut parts: Vec<Vec<char>> = Vec::new();
    parts.push(chars_of(shell_quote(terminal.command.as_str()).as_str()));
    let mut i: usize = 0;
    while i < terminal.args.len()
        invariant
            i <= terminal.args.len(),
            parts@.map_values(|l: Vec<char>| l@) == seq![quoted(terminal.command@)]
                + terminal.args@.take(i as int).map_values(|a: String| quoted(a@)),
        decreases terminal.args.len() - i,
    {
        let ghost before = parts@.map_values(|l: Vec<char>| l@);
        parts.push(chars_of(shell_quote(terminal.args[i].as_str()).as_str()));
        proof {
            assert(parts@.map_values(|l: Vec<char>| l@) =~= before.push(quoted(terminal.args@[i as int]@)));
            assert(terminal.args@.take(i + 1).map_values(|a: String| quoted(a@))
                =~= terminal.args@.take(i as int).map_values(|a: String| quoted(a@)).push(quoted(terminal.args@[i as int]@)));
        }
        i += 1;
    }
    assert(terminal.args@.take(terminal.args.len() as int) =~= terminal.args@);
    let sp = vec![' '];
    assert(sp@ =~= " "@) by {
        reveal_strlit(" ");
    }
    let j = join_chars(&parts, &sp);
    string_of(&j)
}

/// The number of characters in the longest prefix of `s` of at most `n`
/// bytes.
pub open spec fn fit_chars(s: Seq<char>, n: nat) -> int {
    choose|k: int| 0 <= k <= s.len() && utf8_len(#[trigger] s.take(k)) <= n
        && (k == s.len() || utf8_len(s.take(k + 1)) > n)
}

/// A log excerpt: `s` itself when it fits in `max_bytes` bytes, else its
/// longest prefix that fits (cut at a character boundary), `…`, and how
/// many bytes were dropped.
pub open spec fn log_excerpt(s: Seq<char>, max_bytes: nat) -> Seq<char> {
    if utf8_len(s) <= max_bytes {
        s
    } else {
        let k = fit_chars(s, max_bytes);
        s.take(k) + "…(+"@ + decimal((utf8_len(s) - utf8_len(s.take(k))) as nat) + "b)"@
    }
}

/// Shorten text for a log line to at most `max_bytes` bytes plus a marker.
pub fn truncate_for_log(s: &str, max_bytes: usize) -> (out: String)
    ensures
        out@ == log_excerpt(s@, max_bytes as nat),
{
    let c = chars_of(s);
    let mut bytes: usize = 0;
    let mut k: usize = 0;
    assert(c@.take(0) =~= Seq::<char>::empty());
    while k < c.len() && utf8_width_exec(c[k]) <= max_bytes - bytes
        invariant
            k <= c.len(),
            c@ == s@,
            bytes == utf8_len(c@.take(k as int)),
            bytes <= max_bytes,
        decreases c.len() - k,
    {
        proof {
            lemma_utf8_take_step(c@, k as int);
        }
        bytes = bytes + utf8_width_exec(c[k]);
        k += 1;
    }
    if k == c.len() {
        assert(c@.take(k as int) =~= c@);
        return s.to_owned();
    }
    proof {
        lemma_utf8_take_step(c@, k as int);
        assert(c@.take(c@.len() as int) =~= c@);
        if k + 1 < c@.len() {
            lemma_utf8_take_strict(c@, k + 1, c@.len() as int);
        }
        let w = fit_chars(s@, max_bytes as nat);
        assert(0 <= k <= s@.len() && utf8_len(s@.take(k as int)) <= max_bytes
            && (k == s@.len() || utf8_len(s@.take(k + 1)) > max_bytes));
        if w < k {
            lemma_utf8_take_strict(c@, w + 1, k + 1);
            if w + 1 < k {
                lemma_utf8_take_strict(c@, w + 1, k as int);
            }
        } else if w > k {
            if w > k + 1 {
                lemma_utf8_take_strict(c@, k + 1, w);
            }
        }
        assert(w == k);
    }
    let total = crate::text::str_byte_len(s);
    let head = slice_chars(&c, 0, k);
    let mut out: Vec<char> = Vec::new();
    extend_chars(&mut out, &head);
    extend_str(&mut out, "…(+");
    push_decimal(&mut out, (total - bytes) as u64);
    extend_str(&mut out, "b)");
    assert(head@ =~= c@.take(k as int));
    string_of(&out)
}

/// Number of bytes of the UTF-8 encoding of `c`.
fn utf8_width_exec(c: char) -> (w: usize)
    ensures
        w == utf8_width(c),
{
    let u = c as u32;
    if u < 0x80 { 1 } else if u < 0x800 { 2 } else if u < 0x10000 { 3 } else { 4 }
}


/// The message for a child that could not be started: a missing command
/// gets the working directory and (shortened) `PATH`, any other failure
/// the error text.
pub open spec fn spawn_error(command: Seq<char>, cwd: Seq<char>, path: Seq<char>, not_found: bool, err: Seq<char>) -> Seq<char> {
    if not_found {
        "Failed to start ACP command `"@ + command + "`: command not found on PATH (cwd `"@ + cwd + "`, PATH `"@
            + log_excerpt(path, 500) + "`)"@
    } else {
        "Failed to start ACP command `"@ + command + "` in `"@ + cwd + "`: "@ + err
    }
}

/// The message for a child that could not be started.
pub fn spawn_error_message(command: &str, cwd: &str, path: &str, not_found: bool, err: &str) -> (out: String)
    ensures
        out@ == spawn_error(command@, cwd@, path@, not_found, err@),
{
    let mut m: Vec<char> = Vec::new();
    extend_str(&mut m, "Failed to start ACP command `");
    extend_str(&mut m, command);
    if not_found {
        extend_str(&mut m, "`: command not found on PATH (cwd `");
        extend_str(&mut m, cwd);
        extend_str(&mut m, "`, PATH `");
        let p = truncate_for_log(path, 500);
        extend_str(&mut m, p.as_str());
        extend_str(&mut m, "`)");
    } else {
        extend_str(&mut m, "` in `");
        extend_str(&mut m, cwd);
        extend_str(&mut m, "`: ");
        extend_str(&mut m, err);
    }
    string_of(&m)
}

/// Whether an agent error means authentication is required: the text says
/// so, or (parsed as JSON by the caller) its `message` is exactly that.
pub open spec fn auth_required(err: Seq<char>, parsed: Option<JsonValue>) -> bool {
    contains(err, "Authentication required"@) || (match parsed {
        Some(v) => as_str(get_key(v, "message"@)) == Some("Authentication required"@),
        None => false,
    })
}

/// Whether an agent error means authentication is required. `parsed` is the
/// error parsed as JSON, when it parses.
pub fn is_auth_required_error(err: &str, parsed: Option<&JsonValue>) -> (b: bool)
    ensures
        b == auth_required(err@, match parsed { Some(v) => Some(*v), None => None }),
{
    let e = chars_of(err);
    if contains_str(&e, "Authentication required") {
        return true;
    }
    match parsed {
        Some(v) => match get_member(v, &chars_of("message")) {
            Some(JsonValue::String(m)) => eq_str(&chars_of(m.as_str()), "Authentication required"),
            _ => false,
        },
        None => false,
    }
}

/// The strings of a JSON array, in order (other elements skipped).
pub open spec fn array_strings(items: Seq<JsonValue>) -> Seq<Seq<char>>
    decreases items.len(),
{
    if items.len() == 0 {
        seq![]
    } else {
        match items.last() {
            JsonValue::String(s) => array_strings(items.drop_last()).push(s@),
            _ => array_strings(items.drop_last()),
        }
    }
}

/// The string members of a JSON object, in order.
pub open spec fn object_strings(fields: Seq<(String, JsonValue)>) -> Seq<(Seq<char>, Seq<char>)>
    decreases fields.len(),
{
    if fields.len() == 0 {
        seq![]
    } else {
        match fields.last().1 {
            JsonValue::String(s) => object_strings(fields.drop_last()).push((fields.last().0@, s@)),
            _ => object_strings(fields.drop_last()),
        }
    }
}

/// A view of a terminal-auth command.
pub open spec fn terminal_view(t: TerminalAuthCommand) -> (Seq<char>, Seq<Seq<char>>, Seq<(Seq<char>, Seq<char>)>, Option<Seq<char>>) {
    (t.command@, crate::text::views(t.args@), entry_views(t.env@), crate::server_url::opt_view(t.label))
}

/// The terminal-auth command a method advertises under
/// `_meta.terminal-auth`: its `command` (required), string `args`, string
/// `env` members and `label`.
pub open spec fn terminal_auth_of(method: JsonValue) -> Option<(Seq<char>, Seq<Seq<char>>, Seq<(Seq<char>, Seq<char>)>, Option<Seq<char>>)> {
    match get_key(method, "_meta"@) {
        None => None,
        Some(meta) => match get_key(meta, "terminal-auth"@) {
            None => None,
            Some(t) => match as_str(get_key(t, "command"@)) {
                None => None,
                Some(cmd) => Some((cmd,
                    match get_key(t, "args"@) { Some(JsonValue::Array(a)) => array_strings(a@), _ => seq![] },
                    match get_key(t, "env"@) { Some(JsonValue::Object(f)) => object_strings(f@), _ => seq![] },
                    as_str(get_key(t, "label"@)))),
            },
        },
    }
}

fn array_strings_exec(items: &Vec<JsonValue>) -> (out: Vec<String>)
    ensures
        crate::text::views(out@) == array_strings(items@),
{
    let mut out: Vec<String> = Vec::new();
    let mut i: usize = 0;
    while i < items.len()
        invariant
            i <= items.len(),
            crate::text::views(out@) == array_strings(items@.take(i as int)),
        decreases items.len() - i,
    {
        proof {
            assert(items@.take(i + 1).drop_last() =~= items@.take(i as int));
        }
        let ghost before = out@;
        match &items[i] {
            JsonValue::String(s) => {
                out.push(s.clone());
                assert(crate::text::views(out@) =~= crate::text::views(before).push(s@));
            },
            _ => {},
        }
        i += 1;
    }
    assert(items@.take(items.len() as int) =~= items@);
    out
}

fn object_strings_exec(fields: &Vec<(String, JsonValue)>) -> (out: Vec<(String, String)>)
    ensures
        entry_views(out@) == object_strings(fields@),
{
    let mut out: Vec<(String, String)> = Vec::new();
    let mut i: usize = 0;
    while i < fields.len()
        invariant
            i <= fields.len(),
            entry_views(out@) == object_strings(fields@.take(i as int)),
        decreases fields.len() - i,
    {
        proof {
            assert(fields@.take(i + 1).drop_last() =~= fields@.take(i as int));
        }
        let ghost before = out@;
        match &fields[i].1 {
            JsonValue::String(s) => {
                out.push((fields[i].0.clone(), s.clone()));
                assert(entry_views(out@) =~= entry_views(before).push((fields@[i as int].0@, s@)));
            },
            _ => {},
        }
        i += 1;
    }
    assert(fields@.take(fields.len() as int) =~= fields@);
    out
}

fn str_member(v: &JsonValue, key: &str) -> (r: Option<String>)
    ensures
        crate::server_url::opt_view(r) == as_str(get_key(*v, key@)),
{
    match get_member(v, &chars_of(key)) {
        Some(JsonValue::String(s)) => Some(s.clone()),
        _ => None,
    }
}

/// The terminal-auth command a method advertises.
pub fn parse_terminal_auth_command(method: &JsonValue) -> (r: Option<TerminalAuthCommand>)
    ensures
        match r {
            Some(t) => terminal_auth_of(*method) == Some(terminal_view(t)),
            None => terminal_auth_of(*method) is None,
        },
{
    let meta = match get_member(method, &chars_of("_meta")) {
        Some(m) => m,
        None => return None,
    };
    let t = match get_member(meta, &chars_of("terminal-auth")) {
        Some(t) => t,
        None => return None,
    };
    let command = match str_member(t, "command") {
        Some(c) => c,
        None => return None,
    };
    let args = match get_member(t, &chars_of("args")) {
        Some(JsonValue::Array(a)) => array_strings_exec(a),
        _ => {
            let e: Vec<String> = Vec::new();
            assert(crate::text::views(e@) =~= Seq::<Seq<char>>::empty());
            e
        },
    };
    let env = match get_member(t, &chars_of("env")) {
        Some(JsonValue::Object(f)) => object_strings_exec(f),
        _ => {
            let e: Vec<(String, String)> = Vec::new();
            assert(entry_views(e@) =~= Seq::<(Seq<char>, Seq<char>)>::empty());
            e
        },
    };
    let label = str_member(t, "label");
    Some(TerminalAuthCommand { command, args, env, label })
}

/// A view of an auth method.
pub open spec fn method_view(m: AcpAuthMethod) -> (Seq<char>, Option<(Seq<char>, Seq<Seq<char>>, Seq<(Seq<char>, Seq<char>)>, Option<Seq<char>>)>) {
    (m.id@, match m.terminal_auth { Some(t) => Some(terminal_view(t)), None => None })
}

/// An advertised auth method: its string `id` and terminal auth.
pub open spec fn auth_method_of(method: JsonValue) -> Option<(Seq<char>, Option<(Seq<char>, Seq<Seq<char>>, Seq<(Seq<char>, Seq<char>)>, Option<Seq<char>>)>)> {
    match as_str(get_key(method, "id"@)) {
        Some(id) => Some((id, terminal_auth_of(method))),
        None => None,
    }
}

/// Read an advertised auth method.
pub fn parse_auth_method(method: &JsonValue) -> (r: Option<AcpAuthMethod>)
    ensures
        match r {
            Some(m) => auth_method_of(*method) == Some(method_view(m)),
            None => auth_method_of(*method) is None,
        },
{
    let id = match str_member(method, "id") {
        Some(i) => i,
        None => return None,
    };
    Some(AcpAuthMethod { id, terminal_auth: parse_terminal_auth_command(method) })
}

/// The first advertised method whose id is `configured`.
pub open spec fn configured_method(methods: Seq<JsonValue>, configured: Seq<char>) -> Option<(Seq<char>, Option<(Seq<char>, Seq<Seq<char>>, Seq<(Seq<char>, Seq<char>)>, Option<Seq<char>>)>)>
    decreases methods.len(),
{
    if methods.len() == 0 {
        None
    } else {
        match auth_method_of(methods[0]) {
            Some(m) => if m.0 == configured { Some(m) } else { configured_method(methods.skip(1), configured) },
            None => configured_method(methods.skip(1), configured),
        }
    }
}

/// The auth method to use after `initialize`: with a configured id, the
/// advertised method of that id, or a bare method with that id; without,
/// the only advertised method, if exactly one is advertised. Nothing when
/// `authMethods` is missing or not an array.
pub open spec fn selected_auth_method(init: JsonValue, configured: Option<Seq<char>>) -> Option<(Seq<char>, Option<(Seq<char>, Seq<Seq<char>>, Seq<(Seq<char>, Seq<char>)>, Option<Seq<char>>)>)> {
    match get_key(init, "authMethods"@) {
        Some(JsonValue::Array(methods)) => match configured {
            Some(c) => match configured_method(methods@, c) {
                Some(m) => Some(m),
                None => Some((c, None)),
            },
            None => if methods@.len() != 1 { None } else { auth_method_of(methods@[0]) },
        },
        _ => None,
    }
}

/// Pick the auth method to use after `initialize`.
pub fn select_initialize_auth_method(init: &JsonValue, configured: Option<&str>) -> (r: Option<AcpAuthMethod>)
    ensures
        match r {
            Some(m) => selected_auth_method(*init, crate::server_url::opt_str_view(configured)) == Some(method_view(m)),
            None => selected_auth_method(*init, crate::server_url::opt_str_view(configured)) is None,
        },
{
    let methods = match get_member(init, &chars_of("authMethods")) {
        Some(JsonValue::Array(m)) => m,
        _ => return None,
    };
    match configured {
        Some(c) => {
            let cc = chars_of(c);
            let mut i: usize = 0;
            assert(methods@.skip(0) =~= methods@);
            while i < methods.len()
                invariant
                    i <= methods.len(),
                    cc@ == c@,
                    configured_method(methods@, c@) == configured_method(methods@.skip(i as int), c@),
                    selected_auth_method(*init, crate::server_url::opt_str_view(configured)) == (match configured_method(methods@, c@) {
                        Some(m) => Some(m),
                        None => Some((c@, None)),
                    }),
                decreases methods.len() - i,
            {
                assert(methods@.skip(i as int)[0] == methods@[i as int]);
                assert(methods@.skip(i as int).skip(1) =~= methods@.skip(i + 1));
                if let Some(m) = parse_auth_method(&methods[i]) {
                    if eq_chars(&chars_of(m.id.as_str()), &cc) {
                        return Some(m);
                    }
                }
                i += 1;
            }
            Some(AcpAuthMethod { id: c.to_owned(), terminal_auth: None })
        },
        None => {
            if methods.len() != 1 {
                return None;
            }
            parse_auth_method(&methods[0])
        },
    }
}

// ───────────────────────── agent messages ─────────────────────────

/// The text of a content block: its string `text`, else the text of its
/// `content`.
pub open spec fn block_text(b: JsonValue) -> Option<Seq<char>>
    decreases b,
{
    match b {
        JsonValue::Object(fields) => match as_str(crate::json::member(fields@, "text"@)) {
            Some(t) => Some(t),
            None => content_text(fields@),
        },
        _ => None,
    }
}

/// The text of the first member named `content`.
pub open spec fn content_text(fields: Seq<(String, JsonValue)>) -> Option<Seq<char>>
    decreases fields,
{
    if fields.len() == 0 {
        None
    } else if fields[0].0@ == "content"@ {
        block_text(fields[0].1)
    } else {
        content_text(fields.skip(1))
    }
}

/// The text of the first block that has one.
pub open spec fn first_block_text(blocks: Seq<JsonValue>) -> Option<Seq<char>>
    decreases blocks.len(),
{
    if blocks.len() == 0 {
        None
    } else {
        match block_text(blocks[0]) {
            Some(t) => Some(t),
            None => first_block_text(blocks.skip(1)),
        }
    }
}

/// The text of a `session/update` chunk: of the first text block of an
/// array `content`, or of the `content` block itself.
pub open spec fn chunk_text(update: JsonValue) -> Option<Seq<char>> {
    match get_key(update, "content"@) {
        Some(JsonValue::Array(blocks)) => first_block_text(blocks@),
        Some(block) => block_text(block),
        None => None,
    }
}

/// The text of a content block.
pub fn extract_text_block(b: &JsonValue) -> (r: Option<String>)
    ensures
        crate::server_url::opt_view(r) == block_text(*b),
    decreases *b,
{
    match b {
        JsonValue::Object(fields) => {
            let ck = chars_of("content");
            match get_member(b, &chars_of("text")) {
                Some(JsonValue::String(t)) => return Some(t.clone()),
                _ => {},
            }
            assert(block_text(*b) == content_text(fields@));
            let mut j: usize = 0;
            assert(fields@.skip(0) =~= fields@);
            while j < fields.len()
                invariant
                    j <= fields.len(),
                    ck@ == "content"@,
                    *b == JsonValue::Object(*fields),
                    block_text(*b) == content_text(fields@),
                    content_text(fields@) == content_text(fields@.skip(j as int)),
                decreases fields.len() - j,
            {
                assert(fields@.skip(j as int)[0] == fields@[j as int]);
                if eq_chars(&chars_of(fields[j].0.as_str()), &ck) {
                    proof {
                        assert(decreases_to!(*b => (*b)->Object_0));
                        assert(decreases_to!(*fields => fields@));
                        assert(decreases_to!(fields@ => fields@[j as int]));
                        assert(decreases_to!(fields@[j as int] => fields@[j as int].1));
                    }
                    return extract_text_block(&fields[j].1);
                }
                assert(fields@.skip(j as int).skip(1) =~= fields@.skip(j + 1));
                j += 1;
            }
            None
        },
        _ => None,
    }
}

/// The text of a `session/update` chunk.
pub fn extract_text_chunk(update: &JsonValue) -> (r: Option<String>)
    ensures
        crate::server_url::opt_view(r) == chunk_text(*update),
{
    match get_member(update, &chars_of("content")) {
        Some(JsonValue::Array(blocks)) => {
            let mut i: usize = 0;
            assert(blocks@.skip(0) =~= blocks@);
            while i < blocks.len()
                invariant
                    i <= blocks.len(),
                    chunk_text(*update) == first_block_text(blocks@),
                    first_block_text(blocks@) == first_block_text(blocks@.skip(i as int)),
                decreases blocks.len() - i,
            {
                assert(blocks@.skip(i as int)[0] == blocks@[i as int]);
                let t = extract_text_block(&blocks[i]);
                if t.is_some() {
                    return t;
                }
                assert(blocks@.skip(i as int).skip(1) =~= blocks@.skip(i + 1));
                i += 1;
            }
            None
        },
        Some(block) => extract_text_block(block),
        None => None,
    }
}

/// The option id and label of a permission option: its string `optionId`
/// (required) and its `name`, else the id.
pub open spec fn choice_of(option: JsonValue) -> Option<(Seq<char>, Seq<char>)> {
    match as_str(get_key(option, "optionId"@)) {
        None => None,
        Some(id) => Some((id, match as_str(get_key(option, "name"@)) { Some(n) => n, None => id })),
    }
}

/// The choices of a permission request's options, in order.
pub open spec fn choices_of(options: Seq<JsonValue>) -> Seq<(Seq<char>, Seq<char>)>
    decreases options.len(),
{
    if options.len() == 0 {
        seq![]
    } else {
        match choice_of(options.last()) {
            Some(c) => choices_of(options.drop_last()).push(c),
            None => choices_of(options.drop_last()),
        }
    }
}

/// The choices of an optional `options` value (none unless it is an array).
pub open spec fn permission_choices(raw: Option<JsonValue>) -> Seq<(Seq<char>, Seq<char>)> {
    match raw {
        Some(JsonValue::Array(opts)) => choices_of(opts@),
        _ => seq![],
    }
}

/// The views of choices.
pub open spec fn choice_views(v: Seq<ActionChoice>) -> Seq<(Seq<char>, Seq<char>)> {
    v.map_values(|c: ActionChoice| (c.id@, c.label@))
}

/// The choices a permission request offers.
pub fn extract_permission_choices(raw: Option<&JsonValue>) -> (out: Vec<ActionChoice>)
    ensures
        choice_views(out@) == permission_choices(match raw { Some(v) => Some(*v), None => None }),
{
    let mut out: Vec<ActionChoice> = Vec::new();
    let opts = match raw {
        Some(JsonValue::Array(o)) => o,
        _ => {
            assert(choice_views(out@) =~= Seq::<(Seq<char>, Seq<char>)>::empty());
            return out;
        },
    };
    let mut i: usize = 0;
    while i < opts.len()
        invariant
            i <= opts.len(),
            choice_views(out@) == choices_of(opts@.take(i as int)),
        decreases opts.len() - i,
    {
        proof {
            assert(opts@.take(i + 1).drop_last() =~= opts@.take(i as int));
        }
        let ghost before = choice_views(out@);
        if let Some(id) = str_member(&opts[i], "optionId") {
            let label = match str_member(&opts[i], "name") {
                Some(n) => n,
                None => id.clone(),
            };
            let ghost c = (id@, label@);
            out.push(ActionChoice { id, label });
            assert(choice_views(out@) =~= before.push(c));
        }
        i += 1;
    }
    assert(opts@.take(opts.len() as int) =~= opts@);
    out
}

/// The key a JSON-RPC request id is tracked under: a string as is, a
/// number as displayed.
pub fn request_id_key(id: &JsonValue) -> (r: Option<String>)
    ensures
        crate::server_url::opt_view(r) == (match *id {
            JsonValue::String(_) => value_text(*id),
            JsonValue::Number(_) => value_text(*id),
            _ => None,
        }),
{
    match id {
        JsonValue::String(_) => json_value_to_string(id),
        JsonValue::Number(_) => json_value_to_string(id),
        _ => None,
    }
}

/// The action id of a permission request: `namespace:key`, or
/// `namespace:unknown` for an id without a key.
pub fn compose_action_id(namespace: &str, id: &JsonValue) -> (out: String)
    ensures
        out@ == namespace@ + ":"@ + (match *id {
            JsonValue::String(_) => value_text(*id)->0,
            JsonValue::Number(_) => value_text(*id)->0,
            _ => "unknown"@,
        }),
{
    let mut m: Vec<char> = Vec::new();
    extend_str(&mut m, namespace);
    extend_str(&mut m, ":");
    match request_id_key(id) {
        Some(k) => extend_str(&mut m, k.as_str()),
        None => {
            extend_str(&mut m, "unknown");
        },
    }
    string_of(&m)
}

/// The title of a permission request: the tool call's `title`, `kind` or
/// `toolCallId`, else `tool`.
pub open spec fn permission_title(tool_call: JsonValue) -> Seq<char> {
    "Permission required: "@ + match as_str(get_key(tool_call, "title"@)) {
        Some(t) => t,
        None => match as_str(get_key(tool_call, "kind"@)) {
            Some(k) => k,
            None => match as_str(get_key(tool_call, "toolCallId"@)) {
                Some(i) => i,
                None => "tool"@,
            },
        },
    }
}

/// The title of a permission request.
pub fn describe_permission_title(tool_call: &JsonValue) -> (out: String)
    ensures
        out@ == permission_title(*tool_call),
{
    let name = match str_member(tool_call, "title") {
        Some(t) => t,
        None => match str_member(tool_call, "kind") {
            Some(k) => k,
            None => match str_member(tool_call, "toolCallId") {
                Some(i) => i,
                None => "tool".to_owned(),
            },
        },
    };
    let mut m: Vec<char> = Vec::new();
    extend_str(&mut m, "Permission required: ");
    extend_str(&mut m, name.as_str());
    string_of(&m)
}

// ───────────────────────── message dispatch ─────────────────────────

/// How an incoming JSON-RPC message from the agent is handled.
#[derive(Debug, Clone, Copy, PartialEq, Eq)]
pub enum IncomingKind {
    /// A `method` and an `id`: the agent asks something of the client.
    Request,
    /// A `method` without an `id`.
    Notification,
    /// An `id` without a `method`: the answer to one of the client's requests.
    Response,
    /// Neither: ignored.
    Ignored,
}

/// The kind of an incoming message: by whether it has a string `method`
/// and whether it has an `id`.
pub open spec fn incoming_kind(msg: JsonValue) -> IncomingKind {
    let has_method = as_str(get_key(msg, "method"@)) is Some;
    let has_id = get_key(msg, "id"@) is Some;
    if has_method && has_id {
        IncomingKind::Request
    } else if has_method {
        IncomingKind::Notification
    } else if has_id {
        IncomingKind::Response
    } else {
        IncomingKind::Ignored
    }
}

/// Classify an incoming message.
pub fn classify_incoming(msg: &JsonValue) -> (k: IncomingKind)
    ensures
        k == incoming_kind(*msg),
{
    let has_method = str_member(msg, "method").is_some();
    let has_id = get_member(msg, &chars_of("id")).is_some();
    if has_method && has_id {
        IncomingKind::Request
    } else if has_method {
        IncomingKind::Notification
    } else if has_id {
        IncomingKind::Response
    } else {
        IncomingKind::Ignored
    }
}

/// The refusal of an agent request the client does not implement.
pub fn unsupported_method_message(method: &str) -> (m: String)
    ensures
        m@ == "joi-server does not implement `"@ + method@ + "`"@,
{
    let mut out: Vec<char> = Vec::new();
    extend_str(&mut out, "joi-server does not implement `");
    extend_str(&mut out, method);
    extend_str(&mut out, "`");
    string_of(&out)
}

/// The `params.update` of a notification, or `null`.
pub open spec fn update_of(msg: JsonValue) -> JsonValue {
    match get_key(msg, "params"@) {
        Some(p) => match get_key(p, "update"@) {
            Some(u) => u,
            None => JsonValue::Null,
        },
        None => JsonValue::Null,
    }
}

/// The tool name of a tool-call update: its `title`, `kind` or
/// `toolCallId`, else `tool_call`.
pub open spec fn update_tool_name(update: JsonValue) -> Seq<char> {
    match as_str(get_key(update, "title"@)) {
        Some(t) => t,
        None => match as_str(get_key(update, "kind"@)) {
            Some(k) => k,
            None => match as_str(get_key(update, "toolCallId"@)) {
                Some(i) => i,
                None => "tool_call"@,
            },
        },
    }
}

/// The event a notification stands for: for `session/update`, partial text
/// of a message chunk, or a tool use (with the whole update as input) of a
/// tool call or its update; nothing otherwise.
pub open spec fn notification_event(method: Seq<char>, msg: JsonValue) -> Option<EventView> {
    if method != "session/update"@ {
        None
    } else {
        let update = update_of(msg);
        let kind = as_str(get_key(update, "sessionUpdate"@));
        if kind == Some("agent_message_chunk"@) {
            match chunk_text(update) {
                Some(t) => Some(EventView::Text(t, true)),
                None => None,
            }
        } else if kind == Some("tool_call"@) || kind == Some("tool_call_update"@) {
            Some(EventView::ToolUse(update_tool_name(update), update))
        } else {
            None
        }
    }
}

/// Whether an event is a notification's (tool inputs equal as JSON).
pub open spec fn is_notification_event(e: ProviderRuntimeEvent, method: Seq<char>, msg: JsonValue) -> bool {
    match e {
        ProviderRuntimeEvent::ToolUse { tool_name, input } =>
            notification_event(method, msg) == Some(EventView::ToolUse(tool_name@, update_of(msg)))
                && json_same(input, update_of(msg)),
        _ => notification_event(method, msg) == Some(event_view(e)),
    }
}

/// Decode an agent notification (see [`notification_event`]).
pub fn notification_event_of(method: &str, msg: &JsonValue) -> (r: Option<ProviderRuntimeEvent>)
    ensures
        match r {
            Some(e) => is_notification_event(e, method@, *msg),
            None => notification_event(method@, *msg) is None,
        },
{
    if !eq_str(&chars_of(method), "session/update") {
        return None;
    }
    let null = JsonValue::Null;
    let update: &JsonValue = match get_member(msg, &chars_of("params")) {
        Some(p) => match get_member(p, &chars_of("update")) {
            Some(u) => u,
            None => &null,
        },
        None => &null,
    };
    assert(*update == update_of(*msg));
    let kind = str_member(update, "sessionUpdate");
    let is_chunk = match &kind {
        Some(k) => eq_str(&chars_of(k.as_str()), "agent_message_chunk"),
        None => false,
    };
    let is_tool = match &kind {
        Some(k) => eq_str(&chars_of(k.as_str()), "tool_call") || eq_str(&chars_of(k.as_str()), "tool_call_update"),
        None => false,
    };
    if is_chunk {
        match extract_text_chunk(update) {
            Some(t) => Some(ProviderRuntimeEvent::Text { content: t, is_partial: true }),
            None => None,
        }
    } else if is_tool {
        let name = match str_member(update, "title") {
            Some(t) => t,
            None => match str_member(update, "kind") {
                Some(k) => k,
                None => match str_member(update, "toolCallId") {
                    Some(i) => i,
                    None => "tool_call".to_owned(),
                },
            },
        };
        proof {
            reveal_strlit("tool_call");
        }
        let input = json_clone(update);
        Some(ProviderRuntimeEvent::ToolUse { tool_name: name, input })
    } else {
        None
    }
}

/// How a `session/prompt` response finishes its turn when it carries no
/// error: successful unless its `stopReason` is `cancelled`, summarised by
/// the stop reason (`completed` by default). A response with an `error`
/// fails the turn with the error's text, which the caller renders.
pub open spec fn prompt_finish(msg: JsonValue) -> Option<(bool, Seq<char>)> {
    if get_key(msg, "error"@) is Some {
        None
    } else {
        let stop = match get_key(msg, "result"@) {
            Some(r) => match as_str(get_key(r, "stopReason"@)) {
                Some(s) => s,
                None => "completed"@,
            },
            None => "completed"@,
        };
        Some((stop != "cancelled"@, stop))
    }
}

/// Decide how a `session/prompt` response finishes its turn (see
/// [`prompt_finish`]).
pub fn prompt_response_finish(msg: &JsonValue) -> (r: Option<(bool, String)>)
    ensures
        match r {
            Some((ok, summary)) => prompt_finish(*msg) == Some((ok, summary@)),
            None => prompt_finish(*msg) is None,
        },
{
    if get_member(msg, &chars_of("error")).is_some() {
        return None;
    }
    let stop = match get_member(msg, &chars_of("result")) {
        Some(r) => match str_member(r, "stopReason") {
            Some(s) => s,
            None => "completed".to_owned(),
        },
        None => "completed".to_owned(),
    };
    proof {
        reveal_strlit("completed");
    }
    let ok = !eq_str(&chars_of(stop.as_str()), "cancelled");
    Some((ok, stop))
}

} // verus!
