//! A JSON document model for the decisions the runtime makes on provider
//! output, with JSON-pointer and jq-style path lookup.
//!
//! Text is parsed into `JsonValue` by the caller (with serde_json); every
//! lookup, comparison and rendering on the parsed value happens here.

use vstd::prelude::*;

use crate::text::{
    chars_of, decimal, eq_chars, extend_chars, extend_str, push_decimal, replace, replace_str,
    slice_chars, string_of, trim, trim_chars,
};

verus! {

/// A JSON number as serde_json keeps it.
#[derive(Debug, Clone)]
pub enum JsonNumber {
    /// A non-negative integer.
    PosInt(u64),
    /// A negative integer.
    NegInt(i64),
    /// Any other number, as serde_json displays it.
    Float(String),
}

/// A parsed JSON document. Object members keep the order serde_json
/// iterates them in, and no key occurs twice.
#[derive(Debug)]
pub enum JsonValue {
    Null,
    Bool(bool),
    Number(JsonNumber),
    String(String),
    Array(Vec<JsonValue>),
    Object(Vec<(String, JsonValue)>),
}

// ───────────────────────── lookup ─────────────────────────

/// The value of the first member named `key`.
pub open spec fn member(fields: Seq<(String, JsonValue)>, key: Seq<char>) -> Option<JsonValue>
    decreases fields.len(),
{
    if fields.len() == 0 {
        None
    } else if fields[0].0@ == key {
        Some(fields[0].1)
    } else {
        member(fields.skip(1), key)
    }
}

/// `Value::get` with a string key: the member of an object.
pub open spec fn get_key(v: JsonValue, key: Seq<char>) -> Option<JsonValue> {
    match v {
        JsonValue::Object(fields) => member(fields@, key),
        _ => None,
    }
}

/// `Value::get` with an index: the element of an array.
pub open spec fn get_index(v: JsonValue, i: int) -> Option<JsonValue> {
    match v {
        JsonValue::Array(items) => if 0 <= i < items@.len() { Some(items@[i]) } else { None },
        _ => None,
    }
}

/// Whether every character is an ASCII digit.
pub open spec fn all_digits(s: Seq<char>) -> bool {
    forall|i: int| 0 <= i < s.len() ==> '0' <= #[trigger] s[i] <= '9'
}

/// The number a string of ASCII digits denotes.
pub open spec fn digits_value(s: Seq<char>) -> nat
    decreases s.len(),
{
    if s.len() == 0 {
        0
    } else {
        digits_value(s.drop_last()) * 10 + ((s.last() as u32) - ('0' as u32)) as nat
    }
}

/// `str::parse::<usize>`: an optional `+`, then one or more ASCII digits,
/// denoting at most `usize::MAX`.
pub open spec fn parse_usize(s: Seq<char>) -> Option<nat> {
    let d = if s.len() > 0 && s[0] == '+' { s.skip(1) } else { s };
    if d.len() > 0 && all_digits(d) && digits_value(d) <= usize::MAX {
        Some(digits_value(d))
    } else {
        None
    }
}

/// How a JSON pointer token indexes an array: digits without a sign or a
/// leading zero (a lone `0` is allowed).
pub open spec fn pointer_index(token: Seq<char>) -> Option<nat> {
    if token.len() > 0 && (token[0] == '+' || (token[0] == '0' && token.len() != 1)) {
        None
    } else {
        parse_usize(token)
    }
}

/// A pointer token with `~1` and `~0` unescaped.
pub open spec fn unescape_token(t: Seq<char>) -> Seq<char> {
    replace(replace(t, "~1"@, "/"@), "~0"@, "~"@)
}

/// Step into `v` along one (escaped) pointer token.
pub open spec fn pointer_step(v: JsonValue, token: Seq<char>) -> Option<JsonValue> {
    let t = unescape_token(token);
    match v {
        JsonValue::Object(_) => get_key(v, t),
        JsonValue::Array(_) => match pointer_index(t) {
            Some(i) => get_index(v, i as int),
            None => None,
        },
        _ => None,
    }
}

/// Index of the first `/` in `s`.
pub open spec fn first_slash(s: Seq<char>) -> Option<int>
    decreases s.len(),
{
    if s.len() == 0 {
        None
    } else if s[0] == '/' {
        Some(0)
    } else {
        match first_slash(s.skip(1)) {
            Some(i) => Some(i + 1),
            None => None,
        }
    }
}

pub proof fn lemma_first_slash(s: Seq<char>)
    ensures
        first_slash(s) matches Some(i) ==> 0 <= i < s.len() && s[i] == '/',
    decreases s.len(),
{
    if s.len() > 0 && s[0] != '/' {
        lemma_first_slash(s.skip(1));
    }
}

/// Follow the `/`-separated tokens of `rest` from `v`.
pub open spec fn pointer_walk(v: JsonValue, rest: Seq<char>) -> Option<JsonValue>
    decreases rest.len(),
{
    proof {
        lemma_first_slash(rest);
    }
    match first_slash(rest) {
        None => pointer_step(v, rest),
        Some(i) => match pointer_step(v, rest.take(i)) {
            Some(next) => pointer_walk(next, rest.skip(i + 1)),
            None => None,
        },
    }
}

/// `Value::pointer` (RFC 6901): the empty pointer is the whole document;
/// otherwise the pointer starts with `/` and each token selects an object
/// member or an array element.
pub open spec fn pointer(v: JsonValue, path: Seq<char>) -> Option<JsonValue> {
    if path.len() == 0 {
        Some(v)
    } else if path[0] != '/' {
        None
    } else {
        pointer_walk(v, path.skip(1))
    }
}

/// `Value::as_str`.
pub open spec fn as_str(v: Option<JsonValue>) -> Option<Seq<char>> {
    match v {
        Some(JsonValue::String(s)) => Some(s@),
        _ => None,
    }
}

/// `as_i64` then `as_u64` of a value, rendered in decimal: integers only.
pub open spec fn integer_text(v: Option<JsonValue>) -> Option<Seq<char>> {
    match v {
        Some(JsonValue::Number(JsonNumber::PosInt(u))) => Some(decimal(u as nat)),
        Some(JsonValue::Number(JsonNumber::NegInt(i))) =>
            if i < 0 { Some(seq!['-'] + decimal((-i) as nat)) } else { Some(decimal(i as nat)) },
        _ => None,
    }
}

/// The string at the first of `paths` that holds one.
pub open spec fn string_at(v: JsonValue, paths: Seq<Seq<char>>) -> Option<Seq<char>>
    decreases paths.len(),
{
    if paths.len() == 0 {
        None
    } else {
        match as_str(pointer(v, paths[0])) {
            Some(s) => Some(s),
            None => string_at(v, paths.skip(1)),
        }
    }
}

/// The string, or integer in decimal, at the first of `paths` that holds one.
pub open spec fn string_or_int_at(v: JsonValue, paths: Seq<Seq<char>>) -> Option<Seq<char>>
    decreases paths.len(),
{
    if paths.len() == 0 {
        None
    } else {
        let here = pointer(v, paths[0]);
        match as_str(here) {
            Some(s) => Some(s),
            None => match integer_text(here) {
                Some(t) => Some(t),
                None => string_or_int_at(v, paths.skip(1)),
            },
        }
    }
}

/// The views of a list of `&str`.
pub open spec fn strs(v: Seq<&str>) -> Seq<Seq<char>> {
    v.map_values(|s: &str| s@)
}

/// The member named `key` of an object value.
pub fn get_member<'a>(v: &'a JsonValue, key: &[char]) -> (r: Option<&'a JsonValue>)
    ensures
        match r {
            Some(x) => get_key(*v, key@) == Some(*x),
            None => get_key(*v, key@) is None,
        },
{
    match v {
        JsonValue::Object(fields) => {
            let mut i: usize = 0;
            assert(fields@.skip(0) =~= fields@);
            while i < fields.len()
                invariant
                    i <= fields.len(),
                    get_key(*v, key@) == member(fields@, key@),
                    member(fields@, key@) == member(fields@.skip(i as int), key@),
                decreases fields.len() - i,
            {
                let k = chars_of(fields[i].0.as_str());
                if eq_chars(&k, key) {
                    assert(fields@.skip(i as int)[0] == fields@[i as int]);
                    return Some(&fields[i].1);
                }
                assert(fields@.skip(i as int).skip(1) =~= fields@.skip(i + 1));
                i += 1;
            }
            None
        },
        _ => None,
    }
}

/// The element at `i` of an array value.
pub fn get_element<'a>(v: &'a JsonValue, i: usize) -> (r: Option<&'a JsonValue>)
    ensures
        match r {
            Some(x) => get_index(*v, i as int) == Some(*x),
            None => get_index(*v, i as int) is None,
        },
{
    match v {
        JsonValue::Array(items) => if i < items.len() { Some(&items[i]) } else { None },
        _ => None,
    }
}

/// `str::parse::<usize>`.
pub fn parse_usize_chars(s: &[char]) -> (r: Option<usize>)
    ensures
        match r {
            Some(n) => parse_usize(s@) == Some(n as nat),
            None => parse_usize(s@) is None,
        },
{
    let start: usize = if s.len() > 0 && s[0] == '+' { 1 } else { 0 };
    let ghost d = if s@.len() > 0 && s@[0] == '+' { s@.skip(1) } else { s@ };
    assert(d =~= s@.skip(start as int));
    if start >= s.len() {
        return None;
    }
    let mut acc: usize = 0;
    let mut i: usize = start;
    while i < s.len()
        invariant
            start <= i <= s.len(),
            start < s.len(),
            d == s@.skip(start as int),
            d == (if s@.len() > 0 && s@[0] == '+' { s@.skip(1) } else { s@ }),
            all_digits(s@.subrange(start as int, i as int)),
            acc as nat == digits_value(s@.subrange(start as int, i as int)),
        decreases s.len() - i,
    {
        let c = s[i];
        if !('0' <= c && c <= '9') {
            proof {
                assert(d[i - start] == c);
                assert(!all_digits(d));
            }
            return None;
        }
        let digit: usize = ((c as u32) - ('0' as u32)) as usize;
        proof {
            let sub = s@.subrange(start as int, i + 1);
            assert(sub.drop_last() =~= s@.subrange(start as int, i as int));
            assert(sub.last() == c);
        }
        if acc > (usize::MAX - digit) / 10 {
            proof {
                assert(s@.subrange(start as int, i + 1) =~= d.take((i + 1 - start) as int));
                if all_digits(d) {
                    lemma_digits_monotone(d, (i + 1 - start) as int);
                }
                assert(digits_value(s@.subrange(start as int, i + 1)) == acc * 10 + digit) by (nonlinear_arith)
                    requires
                        digits_value(s@.subrange(start as int, i + 1)) == digits_value(s@.subrange(start as int, i as int)) * 10 + digit,
                        acc as nat == digits_value(s@.subrange(start as int, i as int));
                assert(acc * 10 + digit > usize::MAX) by (nonlinear_arith)
                    requires
                        acc > (usize::MAX - digit) / 10,
                        digit < 10;
            }
            return None;
        }
        proof {
            assert(acc * 10 + digit <= usize::MAX) by (nonlinear_arith)
                requires
                    acc <= (usize::MAX - digit) / 10,
                    digit < 10;
        }
        acc = acc * 10 + digit;
        i += 1;
    }
    assert(s@.subrange(start as int, s.len() as int) =~= d);
    Some(acc)
}

/// A prefix of a digit string never denotes more than the whole string.
proof fn lemma_digits_monotone(d: Seq<char>, k: int)
    requires
        0 <= k <= d.len(),
        all_digits(d),
    ensures
        digits_value(d.take(k)) <= digits_value(d),
    decreases d.len(),
{
    if k < d.len() {
        assert(d.drop_last().take(k) =~= d.take(k));
        assert forall|i: int| 0 <= i < d.drop_last().len() implies '0' <= #[trigger] d.drop_last()[i] <= '9' by {
            assert(d.drop_last()[i] == d[i]);
        }
        lemma_digits_monotone(d.drop_last(), k);
        assert(digits_value(d.drop_last()) <= digits_value(d)) by (nonlinear_arith)
            requires
                digits_value(d) == digits_value(d.drop_last()) * 10 + ((d.last() as u32) - ('0' as u32)) as nat;
    } else {
        assert(d.take(k) =~= d);
    }
}

/// The array index a pointer token denotes.
fn pointer_index_chars(t: &[char]) -> (r: Option<usize>)
    ensures
        match r {
            Some(n) => pointer_index(t@) == Some(n as nat),
            None => pointer_index(t@) is None,
        },
{
    if t.len() > 0 && (t[0] == '+' || (t[0] == '0' && t.len() != 1)) {
        None
    } else {
        parse_usize_chars(t)
    }
}

/// Step into `v` along one escaped pointer token.
fn pointer_step_exec<'a>(v: &'a JsonValue, token: &[char]) -> (r: Option<&'a JsonValue>)
    ensures
        match r {
            Some(x) => pointer_step(*v, token@) == Some(*x),
            None => pointer_step(*v, token@) is None,
        },
{
    let a = replace_str(token, "~1", "/");
    let t = replace_str(&a, "~0", "~");
    match v {
        JsonValue::Object(_) => get_member(v, &t),
        JsonValue::Array(_) => match pointer_index_chars(&t) {
            Some(i) => get_element(v, i),
            None => None,
        },
        _ => None,
    }
}

/// `Value::pointer`.
pub fn pointer_get<'a>(v: &'a JsonValue, path: &str) -> (r: Option<&'a JsonValue>)
    ensures
        match r {
            Some(x) => pointer(*v, path@) == Some(*x),
            None => pointer(*v, path@) is None,
        },
{
    let p = chars_of(path);
    if p.len() == 0 {
        return Some(v);
    }
    if p[0] != '/' {
        return None;
    }
    let mut cur: &'a JsonValue = v;
    let mut i: usize = 1;
    assert(p@.skip(1) == path@.skip(1));
    loop
        invariant
            1 <= i <= p.len(),
            p@ == path@,
            pointer(*v, path@) == pointer_walk(*cur, p@.skip(i as int)),
        decreases p.len() - i,
    {
        let rest = slice_chars(&p, i, p.len());
        assert(rest@ =~= p@.skip(i as int));
        proof {
            lemma_first_slash(rest@);
        }
        let mut k: usize = 0;
        assert(rest@.skip(0) =~= rest@);
        while k < rest.len() && rest[k] != '/'
            invariant
                k <= rest.len(),
                first_slash(rest@) == (match first_slash(rest@.skip(k as int)) { Some(j) => Some(j + k), None => None }),
            decreases rest.len() - k,
        {
            assert(rest@.skip(k as int).skip(1) =~= rest@.skip(k + 1));
            k += 1;
        }
        if k == rest.len() {
            assert(rest@.skip(k as int).len() == 0);
            return pointer_step_exec(cur, &rest);
        }
        let token = slice_chars(&rest, 0, k);
        assert(token@ =~= rest@.take(k as int));
        match pointer_step_exec(cur, &token) {
            None => return None,
            Some(next) => {
                assert(rest@.skip(k + 1) =~= p@.skip(i + k + 1));
                cur = next;
                i = i + k + 1;
            },
        }
    }
}

/// The string at a path, or `None`.
fn str_value(v: Option<&JsonValue>) -> (r: Option<String>)
    ensures
        match v {
            Some(x) => (match r { Some(s) => as_str(Some(*x)) == Some(s@), None => as_str(Some(*x)) is None }),
            None => r is None,
        },
{
    match v {
        Some(JsonValue::String(s)) => Some(s.clone()),
        _ => None,
    }
}

/// The string at the first of `paths` that holds one.
pub fn string_at_paths(v: &JsonValue, paths: &[&str]) -> (r: Option<String>)
    ensures
        match r {
            Some(s) => string_at(*v, strs(paths@)) == Some(s@),
            None => string_at(*v, strs(paths@)) is None,
        },
{
    let mut i: usize = 0;
    assert(strs(paths@).skip(0) =~= strs(paths@));
    while i < paths.len()
        invariant
            i <= paths.len(),
            string_at(*v, strs(paths@)) == string_at(*v, strs(paths@).skip(i as int)),
        decreases paths.len() - i,
    {
        let here = pointer_get(v, paths[i]);
        assert(strs(paths@).skip(i as int)[0] == paths@[i as int]@);
        if let Some(s) = str_value(here) {
            return Some(s);
        }
        assert(strs(paths@).skip(i as int).skip(1) =~= strs(paths@).skip(i + 1));
        i += 1;
    }
    None
}

/// The decimal text of an integer value.
fn integer_value(v: Option<&JsonValue>) -> (r: Option<String>)
    ensures
        match v {
            Some(x) => (match r { Some(s) => integer_text(Some(*x)) == Some(s@), None => integer_text(Some(*x)) is None }),
            None => r is None,
        },
{
    match v {
        Some(JsonValue::Number(JsonNumber::PosInt(u))) => {
            let mut out: Vec<char> = Vec::new();
            push_decimal(&mut out, *u);
            Some(string_of(&out))
        },
        Some(JsonValue::Number(JsonNumber::NegInt(i))) => {
            let mut out: Vec<char> = Vec::new();
            let m: u64 = if *i < 0 {
                out.push('-');
                ((-((*i) + 1)) as u64) + 1
            } else {
                *i as u64
            };
            push_decimal(&mut out, m);
            Some(string_of(&out))
        },
        _ => None,
    }
}

/// The string, or integer in decimal, at the first of `paths` that holds one.
pub fn string_or_number_at_paths(v: &JsonValue, paths: &[&str]) -> (r: Option<String>)
    ensures
        match r {
            Some(s) => string_or_int_at(*v, strs(paths@)) == Some(s@),
            None => string_or_int_at(*v, strs(paths@)) is None,
        },
{
    let mut i: usize = 0;
    assert(strs(paths@).skip(0) =~= strs(paths@));
    while i < paths.len()
        invariant
            i <= paths.len(),
            string_or_int_at(*v, strs(paths@)) == string_or_int_at(*v, strs(paths@).skip(i as int)),
        decreases paths.len() - i,
    {
        let here = pointer_get(v, paths[i]);
        assert(strs(paths@).skip(i as int)[0] == paths@[i as int]@);
        if let Some(s) = str_value(here) {
            return Some(s);
        }
        if let Some(t) = integer_value(here) {
            return Some(t);
        }
        assert(strs(paths@).skip(i as int).skip(1) =~= strs(paths@).skip(i + 1));
        i += 1;
    }
    None
}

// ───────────────────────── jq-style paths ─────────────────────────

/// One bracketed index of a path segment.
#[derive(Debug, Clone, Copy, PartialEq, Eq)]
pub enum PathIndex {
    Index(usize),
    Wildcard,
}

/// Index of the first `c` in `s`.
pub open spec fn first_of(s: Seq<char>, c: char) -> Option<int>
    decreases s.len(),
{
    if s.len() == 0 {
        None
    } else if s[0] == c {
        Some(0)
    } else {
        match first_of(s.skip(1), c) {
            Some(i) => Some(i + 1),
            None => None,
        }
    }
}

pub proof fn lemma_first_of(s: Seq<char>, c: char)
    ensures
        first_of(s, c) matches Some(i) ==> 0 <= i < s.len() && s[i] == c
            && forall|j: int| 0 <= j < i ==> s[j] != c,
        first_of(s, c) is None ==> forall|j: int| 0 <= j < s.len() ==> s[j] != c,
    decreases s.len(),
{
    if s.len() > 0 && s[0] != c {
        lemma_first_of(s.skip(1), c);
        assert forall|j: int| 1 <= j < s.len() implies s[j] == s.skip(1)[j - 1] by {}
    }
}

/// The bracketed indices after a segment's key, as `[3]` and `[*]`; an
/// index that is neither is dropped, and scanning stops at a `]` missing
/// after its `[`.
pub open spec fn segment_indices(rest: Seq<char>) -> Seq<PathIndex>
    decreases rest.len(),
{
    proof {
        lemma_first_of(rest, '[');
        lemma_first_of(rest, ']');
    }
    match first_of(rest, '[') {
        None => seq![],
        Some(open) => match first_of(rest, ']') {
            Some(close) => if close > open {
                let index = rest.subrange(open + 1, close);
                let tail = segment_indices(rest.skip(close + 1));
                if index == "*"@ {
                    seq![PathIndex::Wildcard] + tail
                } else {
                    match parse_usize(index) {
                        Some(n) => seq![PathIndex::Index(n as usize)] + tail,
                        None => tail,
                    }
                }
            } else {
                seq![]
            },
            None => seq![],
        },
    }
}

/// A path segment split into its key (before the first `[`) and indices.
pub open spec fn segment_parts(seg: Seq<char>) -> (Seq<char>, Seq<PathIndex>) {
    let key_end = match first_of(seg, '[') { Some(i) => i, None => seg.len() as int };
    (seg.take(key_end), segment_indices(seg.skip(key_end)))
}

/// The values reached from `v` through the indices `idx`, in order.
pub open spec fn indexed_values(v: JsonValue, idx: Seq<PathIndex>) -> Seq<JsonValue>
    decreases idx.len(), 0int, 0int,
{
    if idx.len() == 0 {
        seq![v]
    } else {
        match idx[0] {
            PathIndex::Index(i) => match get_index(v, i as int) {
                Some(x) => indexed_values(x, idx.skip(1)),
                None => seq![],
            },
            PathIndex::Wildcard => match v {
                JsonValue::Array(items) => indexed_all(items@, idx.skip(1)),
                _ => seq![],
            },
        }
    }
}

/// `indexed_values` of each item, concatenated.
pub open spec fn indexed_all(items: Seq<JsonValue>, idx: Seq<PathIndex>) -> Seq<JsonValue>
    decreases idx.len(), 1int, items.len(),
{
    if items.len() == 0 {
        seq![]
    } else {
        indexed_all(items.drop_last(), idx) + indexed_values(items.last(), idx)
    }
}

/// One path step over a list of current values: select the key (unless it
/// is empty), then the indices.
pub open spec fn step_values(current: Seq<JsonValue>, key: Seq<char>, idx: Seq<PathIndex>) -> Seq<JsonValue>
    decreases current.len(),
{
    if current.len() == 0 {
        seq![]
    } else {
        let last = current.last();
        let here = if key.len() == 0 {
            indexed_values(last, idx)
        } else {
            match get_key(last, key) {
                Some(x) => indexed_values(x, idx),
                None => seq![],
            }
        };
        step_values(current.drop_last(), key, idx) + here
    }
}

/// The segments of a path: split at `.`.
pub open spec fn path_segments(p: Seq<char>) -> Seq<Seq<char>>
    decreases p.len(),
{
    proof {
        lemma_first_of(p, '.');
    }
    match first_of(p, '.') {
        None => seq![p],
        Some(i) => seq![p.take(i)] + path_segments(p.skip(i + 1)),
    }
}

/// Apply the non-empty segments in order.
pub open spec fn walk_segments(current: Seq<JsonValue>, segs: Seq<Seq<char>>) -> Seq<JsonValue>
    decreases segs.len(),
{
    if segs.len() == 0 {
        current
    } else if segs[0].len() == 0 {
        walk_segments(current, segs.skip(1))
    } else {
        let (key, idx) = segment_parts(segs[0]);
        walk_segments(step_values(current, key, idx), segs.skip(1))
    }
}

/// A path without its leading `$.` or `.`.
pub open spec fn strip_path_root(p: Seq<char>) -> Seq<char> {
    if p.len() >= 2 && p[0] == '$' && p[1] == '.' {
        p.skip(2)
    } else if p.len() >= 1 && p[0] == '.' {
        p.skip(1)
    } else {
        p
    }
}

/// All values a jq-style path (`.a.b`, `.items[3].id`, `.items[*].id`)
/// selects in `root`, in document order.
pub open spec fn path_values(root: JsonValue, path: Seq<char>) -> Seq<JsonValue> {
    walk_segments(seq![root], path_segments(strip_path_root(path)))
}

/// Split a path segment into its key and bracketed indices.
pub fn parse_segment(seg: &[char]) -> (r: (Vec<char>, Vec<PathIndex>))
    ensures
        r.0@ == segment_parts(seg@).0,
        r.1@ == segment_parts(seg@).1,
{
    proof {
        lemma_first_of(seg@, '[');
    }
    let key_end = match find_char(seg, '[') { Some(i) => i, None => seg.len() };
    let key = slice_chars(seg, 0, key_end);
    let mut rest = slice_chars(seg, key_end, seg.len());
    assert(rest@ =~= seg@.skip(key_end as int));
    let mut indices: Vec<PathIndex> = Vec::new();
    let ghost all = segment_indices(rest@);
    loop
        invariant
            indices@ + segment_indices(rest@) == all,
            all == segment_parts(seg@).1,
        ensures
            indices@ == all,
        decreases rest.len(),
    {
        proof {
            lemma_first_of(rest@, '[');
            lemma_first_of(rest@, ']');
        }
        let open = match find_char(&rest, '[') {
            Some(o) => o,
            None => {
                assert(indices@ =~= all);
                break;
            },
        };
        let close = match find_char(&rest, ']') {
            Some(c) => c,
            None => {
                assert(indices@ =~= all);
                break;
            },
        };
        if close <= open {
            assert(indices@ =~= all);
            break;
        }
        let index = slice_chars(&rest, open + 1, close);
        let ghost tail = rest@.skip(close + 1);
        let ghost before = indices@;
        if eq_str_star(&index) {
            indices.push(PathIndex::Wildcard);
            assert(indices@ + segment_indices(tail) =~= before + segment_indices(rest@));
        } else {
            match parse_usize_chars(&index) {
                Some(n) => {
                    indices.push(PathIndex::Index(n));
                    assert(indices@ + segment_indices(tail) =~= before + segment_indices(rest@));
                },
                None => {},
            }
        }
        rest = slice_chars(&rest, close + 1, rest.len());
        assert(rest@ =~= tail);
    }
    (key, indices)
}

/// Whether `s` is exactly `*`.
fn eq_str_star(s: &[char]) -> (b: bool)
    ensures
        b == (s@ == "*"@),
{
    proof {
        reveal_strlit("*");
    }
    let r = s.len() == 1 && s[0] == '*';
    proof {
        if s@ == "*"@ {
            assert(s@[0] == '*');
        }
        if r {
            assert(s@ =~= "*"@);
        }
    }
    r
}

/// Index of the first `c` in `s`.
pub fn find_char(s: &[char], c: char) -> (r: Option<usize>)
    ensures
        match r {
            Some(i) => first_of(s@, c) == Some(i as int),
            None => first_of(s@, c) is None,
        },
{
    let mut i: usize = 0;
    assert(s@.skip(0) =~= s@);
    while i < s.len()
        invariant
            i <= s.len(),
            first_of(s@, c) == (match first_of(s@.skip(i as int), c) { Some(k) => Some(k + i), None => None }),
        decreases s.len() - i,
    {
        if s[i] == c {
            return Some(i);
        }
        assert(s@.skip(i as int).skip(1) =~= s@.skip(i + 1));
        i += 1;
    }
    None
}

/// The values behind a list of references.
pub open spec fn derefs(s: Seq<&JsonValue>) -> Seq<JsonValue> {
    s.map_values(|r: &JsonValue| *r)
}

/// Append the values reached from `v` through the indices `idx[from..]`.
pub fn push_indexed_values<'a>(v: &'a JsonValue, idx: &[PathIndex], from: usize, out: &mut Vec<&'a JsonValue>)
    requires
        from <= idx@.len(),
    ensures
        derefs(final(out)@) == derefs(old(out)@) + indexed_values(*v, idx@.skip(from as int)),
    decreases idx@.len() - from, 0int, 0int,
{
    let ghost rest = idx@.skip(from as int);
    if from == idx.len() {
        let ghost before = out@;
        out.push(v);
        assert(derefs(out@) =~= derefs(before) + seq![*v]);
        return;
    }
    assert(rest.skip(1) =~= idx@.skip(from + 1));
    assert(rest[0] == idx@[from as int]);
    match idx[from] {
        PathIndex::Index(i) => {
            if let Some(x) = get_element(v, i) {
                push_indexed_values(x, idx, from + 1, out);
            } else {
                assert(derefs(out@) =~= derefs(old(out)@) + Seq::<JsonValue>::empty());
            }
        },
        PathIndex::Wildcard => {
            match v {
                JsonValue::Array(items) => {
                    push_indexed_all(items, idx, from + 1, out);
                },
                _ => {
                    assert(derefs(out@) =~= derefs(old(out)@) + Seq::<JsonValue>::empty());
                },
            }
        },
    }
}

/// Append `indexed_values` of each item through the indices `idx[from..]`.
pub fn push_indexed_all<'a>(items: &'a Vec<JsonValue>, idx: &[PathIndex], from: usize, out: &mut Vec<&'a JsonValue>)
    requires
        from <= idx@.len(),
    ensures
        derefs(final(out)@) == derefs(old(out)@) + indexed_all(items@, idx@.skip(from as int)),
    decreases idx@.len() - from, 1int, items@.len(),
{
    let ghost rest = idx@.skip(from as int);
    let mut k: usize = 0;
    assert(items@.take(0) =~= Seq::<JsonValue>::empty());
    assert(derefs(out@) =~= derefs(old(out)@) + indexed_all(items@.take(0), rest));
    while k < items.len()
        invariant
            k <= items.len(),
            from <= idx@.len(),
            rest == idx@.skip(from as int),
            derefs(out@) == derefs(old(out)@) + indexed_all(items@.take(k as int), rest),
        decreases items.len() - k,
    {
        proof {
            assert(items@.take(k + 1).drop_last() =~= items@.take(k as int));
        }
        push_indexed_values(&items[k], idx, from, out);
        k += 1;
        assert(derefs(out@) =~= derefs(old(out)@) + indexed_all(items@.take(k as int), rest));
    }
    assert(items@.take(items.len() as int) =~= items@);
}
/// `json_value_to_string`: a string as is, a number as serde_json
/// displays it; anything else has no text.
pub open spec fn value_text(v: JsonValue) -> Option<Seq<char>> {
    match v {
        JsonValue::String(s) => Some(s@),
        JsonValue::Number(JsonNumber::Float(t)) => Some(t@),
        JsonValue::Number(_) => integer_text(Some(v)),
        _ => None,
    }
}

/// The texts of the values that have one, in order.
pub open spec fn texts(vs: Seq<JsonValue>) -> Seq<Seq<char>>
    decreases vs.len(),
{
    if vs.len() == 0 {
        seq![]
    } else {
        match value_text(vs.last()) {
            Some(t) => texts(vs.drop_last()).push(t),
            None => texts(vs.drop_last()),
        }
    }
}

/// One path step in code: `step_values` over the current list.
fn step_exec<'a>(current: &Vec<&'a JsonValue>, key: &[char], idx: &[PathIndex]) -> (next: Vec<&'a JsonValue>)
    ensures
        derefs(next@) == step_values(derefs(current@), key@, idx@),
{
    let mut next: Vec<&'a JsonValue> = Vec::new();
    let mut j: usize = 0;
    assert(idx@.skip(0) =~= idx@);
    while j < current.len()
        invariant
            j <= current.len(),
            idx@.skip(0) == idx@,
            derefs(next@) == step_values(derefs(current@).take(j as int), key@, idx@),
        decreases current.len() - j,
    {
        let v: &'a JsonValue = current[j];
        proof {
            let t = derefs(current@).take(j + 1);
            assert(t.drop_last() =~= derefs(current@).take(j as int));
            assert(t.last() == *v);
        }
        if key.len() == 0 {
            push_indexed_values(v, idx, 0, &mut next);
        } else {
            match get_member(v, key) {
                Some(x) => push_indexed_values(x, idx, 0, &mut next),
                None => {
                    assert(derefs(next@) =~= derefs(next@) + Seq::<JsonValue>::empty());
                },
            }
        }
        j += 1;
    }
    assert(derefs(current@).take(current.len() as int) =~= derefs(current@));
    next
}

/// All values a jq-style path selects in `root`, in document order.
pub fn json_path_lookup_values<'a>(root: &'a JsonValue, path: &str) -> (out: Vec<&'a JsonValue>)
    ensures
        derefs(out@) == path_values(*root, path@),
{
    let p = chars_of(path);
    let start: usize = if p.len() >= 2 && p[0] == '$' && p[1] == '.' {
        2
    } else if p.len() >= 1 && p[0] == '.' {
        1
    } else {
        0
    };
    let stripped = slice_chars(&p, start, p.len());
    assert(stripped@ =~= strip_path_root(path@));
    let mut current: Vec<&'a JsonValue> = Vec::new();
    current.push(root);
    assert(derefs(current@) =~= seq![*root]);
    let mut i: usize = 0;
    let mut more = true;
    assert(stripped@.skip(0) =~= stripped@);
    while more
        invariant
            i <= stripped.len(),
            more ==> path_values(*root, path@) == walk_segments(derefs(current@), path_segments(stripped@.skip(i as int))),
            !more ==> path_values(*root, path@) == derefs(current@),
        decreases stripped.len() - i + (if more { 1int } else { 0int }),
    {
        let rest = slice_chars(&stripped, i, stripped.len());
        assert(rest@ =~= stripped@.skip(i as int));
        proof {
            lemma_first_of(rest@, '.');
        }
        let (seg, last) = match find_char(&rest, '.') {
            None => (rest, true),
            Some(k) => (slice_chars(&rest, 0, k), false),
        };
        let ghost segs = path_segments(rest@);
        proof {
            if last {
                assert(segs == seq![rest@]);
            } else {
                let k = first_of(rest@, '.')->0;
                assert(segs == seq![rest@.take(k)] + path_segments(rest@.skip(k + 1)));
            }
            assert(segs[0] == seg@);
        }
        let ghost before = derefs(current@);
        if seg.len() > 0 {
            let (key, idx) = parse_segment(&seg);
            current = step_exec(&current, &key, &idx);
        }
        assert(walk_segments(before, segs) == walk_segments(derefs(current@), segs.skip(1)));
        if last {
            assert(segs.skip(1) =~= Seq::<Seq<char>>::empty());
            more = false;
        } else {
            let k = seg.len();
            proof {
                assert(segs.skip(1) =~= path_segments(rest@.skip(k + 1)));
                assert(rest@.skip(k + 1) =~= stripped@.skip(i + k + 1));
            }
            i = i + k + 1;
        }
    }
    current
}

/// The text of a value.
pub fn json_value_to_string(v: &JsonValue) -> (r: Option<String>)
    ensures
        match r {
            Some(s) => value_text(*v) == Some(s@),
            None => value_text(*v) is None,
        },
{
    match v {
        JsonValue::String(s) => Some(s.clone()),
        JsonValue::Number(JsonNumber::Float(t)) => Some(t.clone()),
        JsonValue::Number(_) => integer_value(Some(v)),
        _ => None,
    }
}

/// The texts of all values a path selects, in order.
pub fn json_path_lookup_strings(root: &JsonValue, path: &str) -> (out: Vec<String>)
    ensures
        crate::text::views(out@) == texts(path_values(*root, path@)),
{
    let vals = json_path_lookup_values(root, path);
    let mut out: Vec<String> = Vec::new();
    let mut j: usize = 0;
    while j < vals.len()
        invariant
            j <= vals.len(),
            derefs(vals@) == path_values(*root, path@),
            crate::text::views(out@) == texts(derefs(vals@).take(j as int)),
        decreases vals.len() - j,
    {
        proof {
            let t = derefs(vals@).take(j + 1);
            assert(t.drop_last() =~= derefs(vals@).take(j as int));
            assert(t.last() == *vals@[j as int]);
        }
        let ghost before = out@;
        if let Some(s) = json_value_to_string(vals[j]) {
            out.push(s);
            assert(crate::text::views(out@) =~= crate::text::views(before).push(s@));
        }
        j += 1;
    }
    assert(derefs(vals@).take(vals.len() as int) =~= derefs(vals@));
    out
}

/// The text of the first value a path selects that has one.
pub fn json_path_lookup(root: &JsonValue, path: &str) -> (r: Option<String>)
    ensures
        match r {
            Some(s) => texts(path_values(*root, path@)).len() > 0 && s@ == texts(path_values(*root, path@))[0],
            None => texts(path_values(*root, path@)).len() == 0,
        },
{
    let mut all = json_path_lookup_strings(root, path);
    if all.len() == 0 {
        None
    } else {
        let s = all.remove(0);
        Some(s)
    }
}

/// The first value a path selects.
pub fn json_path_lookup_value<'a>(root: &'a JsonValue, path: &str) -> (r: Option<&'a JsonValue>)
    ensures
        match r {
            Some(x) => path_values(*root, path@).len() > 0 && *x == path_values(*root, path@)[0],
            None => path_values(*root, path@).len() == 0,
        },
{
    let vals = json_path_lookup_values(root, path);
    if vals.len() == 0 {
        None
    } else {
        Some(vals[0])
    }
}

// ───────────────────────── equality and conditions ─────────────────────────

/// Equality of numbers as serde_json compares them (floats by their text).
pub open spec fn number_same(a: JsonNumber, b: JsonNumber) -> bool {
    match (a, b) {
        (JsonNumber::PosInt(x), JsonNumber::PosInt(y)) => x == y,
        (JsonNumber::NegInt(x), JsonNumber::NegInt(y)) => x == y,
        (JsonNumber::Float(x), JsonNumber::Float(y)) => x@ == y@,
        _ => false,
    }
}

/// Equality of JSON values: same kind, same scalars, element-wise equal
/// arrays, member-wise equal objects (same keys in the same order).
pub open spec fn json_same(a: JsonValue, b: JsonValue) -> bool
    decreases a,
{
    match (a, b) {
        (JsonValue::Null, JsonValue::Null) => true,
        (JsonValue::Bool(x), JsonValue::Bool(y)) => x == y,
        (JsonValue::Number(x), JsonValue::Number(y)) => number_same(x, y),
        (JsonValue::String(x), JsonValue::String(y)) => x@ == y@,
        (JsonValue::Array(xs), JsonValue::Array(ys)) => items_same(xs@, ys@),
        (JsonValue::Object(xs), JsonValue::Object(ys)) => fields_same(xs@, ys@),
        _ => false,
    }
}

/// Element-wise equality of arrays.
pub open spec fn items_same(xs: Seq<JsonValue>, ys: Seq<JsonValue>) -> bool
    decreases xs,
{
    if xs.len() != ys.len() {
        false
    } else if xs.len() == 0 {
        true
    } else {
        items_same(xs.drop_last(), ys.drop_last()) && json_same(xs.last(), ys.last())
    }
}

/// Member-wise equality of objects.
pub open spec fn fields_same(xs: Seq<(String, JsonValue)>, ys: Seq<(String, JsonValue)>) -> bool
    decreases xs,
{
    if xs.len() != ys.len() {
        false
    } else if xs.len() == 0 {
        true
    } else {
        fields_same(xs.drop_last(), ys.drop_last()) && xs.last().0@ == ys.last().0@
            && json_same(xs.last().1, ys.last().1)
    }
}

fn number_clone(n: &JsonNumber) -> (r: JsonNumber)
    ensures
        number_same(r, *n),
{
    match n {
        JsonNumber::PosInt(u) => JsonNumber::PosInt(*u),
        JsonNumber::NegInt(i) => JsonNumber::NegInt(*i),
        JsonNumber::Float(t) => JsonNumber::Float(t.clone()),
    }
}

/// A copy of a value, equal to it as JSON.
pub fn json_clone(v: &JsonValue) -> (r: JsonValue)
    ensures
        json_same(r, *v),
    decreases *v,
{
    match v {
        JsonValue::Null => JsonValue::Null,
        JsonValue::Bool(b) => JsonValue::Bool(*b),
        JsonValue::Number(n) => JsonValue::Number(number_clone(n)),
        JsonValue::String(s) => JsonValue::String(s.clone()),
        JsonValue::Array(xs) => {
            let mut out: Vec<JsonValue> = Vec::new();
            let mut i: usize = 0;
            while i < xs.len()
                invariant
                    i <= xs.len(),
                    *v == JsonValue::Array(*xs),
                    out@.len() == i,
                    items_same(out@, xs@.take(i as int)),
                decreases xs.len() - i,
            {
                proof {
                    assert(decreases_to!(*v => (*v)->Array_0));
                    assert(decreases_to!(*xs => xs@));
                    assert(decreases_to!(xs@ => xs@[i as int]));
                }
                let c = json_clone(&xs[i]);
                let ghost before = out@;
                out.push(c);
                proof {
                    assert(out@.drop_last() =~= before);
                    assert(xs@.take(i + 1).drop_last() =~= xs@.take(i as int));
                }
                i += 1;
            }
            assert(xs@.take(xs.len() as int) =~= xs@);
            JsonValue::Array(out)
        },
        JsonValue::Object(fs) => {
            let mut out: Vec<(String, JsonValue)> = Vec::new();
            let mut i: usize = 0;
            while i < fs.len()
                invariant
                    i <= fs.len(),
                    *v == JsonValue::Object(*fs),
                    out@.len() == i,
                    fields_same(out@, fs@.take(i as int)),
                decreases fs.len() - i,
            {
                proof {
                    assert(decreases_to!(*v => (*v)->Object_0));
                    assert(decreases_to!(*fs => fs@));
                    assert(decreases_to!(fs@ => fs@[i as int]));
                    assert(decreases_to!(fs@[i as int] => fs@[i as int].1));
                }
                let c = json_clone(&fs[i].1);
                let k = fs[i].0.clone();
                let ghost before = out@;
                out.push((k, c));
                proof {
                    assert(out@.drop_last() =~= before);
                    assert(fs@.take(i + 1).drop_last() =~= fs@.take(i as int));
                }
                i += 1;
            }
            assert(fs@.take(fs.len() as int) =~= fs@);
            JsonValue::Object(out)
        },
    }
}

/// Whether a value counts as present and non-empty: not null, a string
/// that is not blank, a non-empty array or object, or any number or bool.
pub open spec fn not_empty_value(v: JsonValue) -> bool {
    match v {
        JsonValue::Null => false,
        JsonValue::String(s) => trim(s@).len() != 0,
        JsonValue::Array(xs) => xs@.len() != 0,
        JsonValue::Object(xs) => xs@.len() != 0,
        _ => true,
    }
}

fn number_eq(a: &JsonNumber, b: &JsonNumber) -> (r: bool)
    ensures
        r == number_same(*a, *b),
{
    match (a, b) {
        (JsonNumber::PosInt(x), JsonNumber::PosInt(y)) => *x == *y,
        (JsonNumber::NegInt(x), JsonNumber::NegInt(y)) => *x == *y,
        (JsonNumber::Float(x), JsonNumber::Float(y)) => {
            let xc = chars_of(x.as_str());
            let yc = chars_of(y.as_str());
            eq_chars(&xc, &yc)
        },
        _ => false,
    }
}

/// JSON equality.
pub fn json_eq(a: &JsonValue, b: &JsonValue) -> (r: bool)
    ensures
        r == json_same(*a, *b),
    decreases *a,
{
    match (a, b) {
        (JsonValue::Null, JsonValue::Null) => true,
        (JsonValue::Bool(x), JsonValue::Bool(y)) => *x == *y,
        (JsonValue::Number(x), JsonValue::Number(y)) => number_eq(x, y),
        (JsonValue::String(x), JsonValue::String(y)) => {
            let xc = chars_of(x.as_str());
            let yc = chars_of(y.as_str());
            eq_chars(&xc, &yc)
        },
        (JsonValue::Array(xs), JsonValue::Array(ys)) => {
            if xs.len() != ys.len() {
                return false;
            }
            let mut i: usize = 0;
            while i < xs.len()
                invariant
                    i <= xs.len(),
                    xs.len() == ys.len(),
                    *a == JsonValue::Array(*xs),
                    *b == JsonValue::Array(*ys),
                    items_same(xs@.take(i as int), ys@.take(i as int)),
                decreases xs.len() - i,
            {
                proof {
                    assert(decreases_to!(*a => (*a)->Array_0));
                    assert(decreases_to!(*xs => xs@));
                    assert(decreases_to!(xs@ => xs@[i as int]));
                }
                let e = json_eq(&xs[i], &ys[i]);
                proof {
                    assert(xs@.take(i + 1).drop_last() =~= xs@.take(i as int));
                    assert(ys@.take(i + 1).drop_last() =~= ys@.take(i as int));
                }
                if !e {
                    proof {
                        lemma_items_prefix(xs@, ys@, i + 1);
                    }
                    return false;
                }
                i += 1;
            }
            assert(xs@.take(xs.len() as int) =~= xs@);
            assert(ys@.take(ys.len() as int) =~= ys@);
            true
        },
        (JsonValue::Object(xs), JsonValue::Object(ys)) => {
            if xs.len() != ys.len() {
                return false;
            }
            let mut i: usize = 0;
            while i < xs.len()
                invariant
                    i <= xs.len(),
                    xs.len() == ys.len(),
                    *a == JsonValue::Object(*xs),
                    *b == JsonValue::Object(*ys),
                    fields_same(xs@.take(i as int), ys@.take(i as int)),
                decreases xs.len() - i,
            {
                let kx = chars_of(xs[i].0.as_str());
                let ky = chars_of(ys[i].0.as_str());
                let ke = eq_chars(&kx, &ky);
                proof {
                    assert(decreases_to!(*a => (*a)->Object_0));
                    assert(decreases_to!(*xs => xs@));
                    assert(decreases_to!(xs@ => xs@[i as int]));
                    assert(decreases_to!(xs@[i as int] => xs@[i as int].1));
                }
                let ve = ke && json_eq(&xs[i].1, &ys[i].1);
                proof {
                    assert(xs@.take(i + 1).drop_last() =~= xs@.take(i as int));
                    assert(ys@.take(i + 1).drop_last() =~= ys@.take(i as int));
                }
                if !ve {
                    proof {
                        lemma_fields_prefix(xs@, ys@, i + 1);
                    }
                    return false;
                }
                i += 1;
            }
            assert(xs@.take(xs.len() as int) =~= xs@);
            assert(ys@.take(ys.len() as int) =~= ys@);
            true
        },
        _ => false,
    }
}

/// Arrays that differ on a prefix differ.
proof fn lemma_items_prefix(xs: Seq<JsonValue>, ys: Seq<JsonValue>, k: int)
    requires
        0 <= k <= xs.len(),
        xs.len() == ys.len(),
        !items_same(xs.take(k), ys.take(k)),
    ensures
        !items_same(xs, ys),
    decreases xs.len(),
{
    if k < xs.len() {
        assert(xs.drop_last().take(k) =~= xs.take(k));
        assert(ys.drop_last().take(k) =~= ys.take(k));
        lemma_items_prefix(xs.drop_last(), ys.drop_last(), k);
    } else {
        assert(xs.take(k) =~= xs);
        assert(ys.take(k) =~= ys);
    }
}

/// Objects that differ on a prefix differ.
proof fn lemma_fields_prefix(xs: Seq<(String, JsonValue)>, ys: Seq<(String, JsonValue)>, k: int)
    requires
        0 <= k <= xs.len(),
        xs.len() == ys.len(),
        !fields_same(xs.take(k), ys.take(k)),
    ensures
        !fields_same(xs, ys),
    decreases xs.len(),
{
    if k < xs.len() {
        assert(xs.drop_last().take(k) =~= xs.take(k));
        assert(ys.drop_last().take(k) =~= ys.take(k));
        lemma_fields_prefix(xs.drop_last(), ys.drop_last(), k);
    } else {
        assert(xs.take(k) =~= xs);
        assert(ys.take(k) =~= ys);
    }
}

/// Whether a value is present and non-empty.
pub fn value_not_empty(v: &JsonValue) -> (r: bool)
    ensures
        r == not_empty_value(*v),
{
    match v {
        JsonValue::Null => false,
        JsonValue::String(s) => {
            let c = chars_of(s.as_str());
            !crate::text::is_blank(&c)
        },
        JsonValue::Array(xs) => xs.len() != 0,
        JsonValue::Object(xs) => xs.len() != 0,
        _ => true,
    }
}

/// A condition on a JSON document: all of `all`, one of `any` (when
/// given), not `not`, and the tests on the value at `path`.
#[derive(Debug)]
pub struct JsonCondition {
    pub all: Vec<JsonCondition>,
    pub any: Vec<JsonCondition>,
    pub not: Option<Box<JsonCondition>>,
    pub path: Option<String>,
    pub exists: Option<bool>,
    pub absent_or_null: Option<bool>,
    pub not_empty: Option<bool>,
    pub equals: Option<JsonValue>,
    pub not_equals: Option<JsonValue>,
    pub in_values: Option<Vec<JsonValue>>,
    pub not_in: Option<Vec<JsonValue>>,
}

/// The first value `path` selects, if a path is given.
pub open spec fn condition_subject(root: JsonValue, path: Option<String>) -> Option<JsonValue> {
    match path {
        Some(p) => if path_values(root, p@).len() > 0 { Some(path_values(root, p@)[0]) } else { None },
        None => None,
    }
}

/// Whether some value of `vs` equals `x`.
pub open spec fn one_of(vs: Seq<JsonValue>, x: JsonValue) -> bool {
    exists|i: int| 0 <= i < vs.len() && json_same(#[trigger] vs[i], x)
}

/// The tests on the value at the condition's path.
pub open spec fn leaf_holds(root: JsonValue, c: JsonCondition) -> bool {
    let actual = condition_subject(root, c.path);
    &&& c.exists matches Some(e) ==> (actual is Some) == e
    &&& c.absent_or_null matches Some(e) ==> (actual is None || actual == Some(JsonValue::Null)) == e
    &&& c.not_empty matches Some(e) ==> (actual matches Some(x) && not_empty_value(x)) == e
    &&& c.equals matches Some(x) ==> (actual matches Some(y) && json_same(y, x))
    &&& c.not_equals matches Some(x) ==> !(actual matches Some(y) && json_same(y, x))
    &&& c.in_values matches Some(vs) ==> (actual matches Some(y) && one_of(vs@, y))
    &&& c.not_in matches Some(vs) ==> !(actual matches Some(y) && one_of(vs@, y))
}

/// Whether a condition holds of a document.
pub open spec fn condition_holds(root: JsonValue, c: JsonCondition) -> bool
    decreases c,
{
    &&& all_hold(root, c.all@)
    &&& c.any@.len() == 0 || any_holds(root, c.any@)
    &&& match c.not {
        Some(n) => !condition_holds(root, *n),
        None => true,
    }
    &&& leaf_holds(root, c)
}

/// Every condition of `cs` holds.
pub open spec fn all_hold(root: JsonValue, cs: Seq<JsonCondition>) -> bool
    decreases cs,
{
    if cs.len() == 0 {
        true
    } else {
        all_hold(root, cs.drop_last()) && condition_holds(root, cs.last())
    }
}

/// Some condition of `cs` holds.
pub open spec fn any_holds(root: JsonValue, cs: Seq<JsonCondition>) -> bool
    decreases cs,
{
    if cs.len() == 0 {
        false
    } else {
        any_holds(root, cs.drop_last()) || condition_holds(root, cs.last())
    }
}

/// Whether some value of `vs` equals `x`.
fn contains_value(vs: &Vec<JsonValue>, x: &JsonValue) -> (r: bool)
    ensures
        r == one_of(vs@, *x),
{
    let mut i: usize = 0;
    while i < vs.len()
        invariant
            i <= vs.len(),
            forall|j: int| 0 <= j < i ==> !json_same(#[trigger] vs@[j], *x),
        decreases vs.len() - i,
    {
        if json_eq(&vs[i], x) {
            return true;
        }
        i += 1;
    }
    false
}

fn leaf_matches(root: &JsonValue, c: &JsonCondition) -> (r: bool)
    ensures
        r == leaf_holds(*root, *c),
{
    let actual: Option<&JsonValue> = match &c.path {
        Some(p) => json_path_lookup_value(root, p.as_str()),
        None => None,
    };
    let ghost av = match actual { Some(x) => Some(*x), None => None };
    assert(av == condition_subject(*root, c.path));
    if let Some(e) = c.exists {
        if actual.is_some() != e {
            return false;
        }
    }
    if let Some(e) = c.absent_or_null {
        let an = match actual {
            None => true,
            Some(JsonValue::Null) => true,
            Some(_) => false,
        };
        if an != e {
            return false;
        }
    }
    if let Some(e) = c.not_empty {
        let ne = match actual {
            Some(x) => value_not_empty(x),
            None => false,
        };
        if ne != e {
            return false;
        }
    }
    if let Some(x) = &c.equals {
        let same = match actual {
            Some(y) => json_eq(y, x),
            None => false,
        };
        if !same {
            return false;
        }
    }
    if let Some(x) = &c.not_equals {
        let same = match actual {
            Some(y) => json_eq(y, x),
            None => false,
        };
        if same {
            return false;
        }
    }
    if let Some(vs) = &c.in_values {
        let found = match actual {
            Some(y) => contains_value(vs, y),
            None => false,
        };
        if !found {
            return false;
        }
    }
    if let Some(vs) = &c.not_in {
        let found = match actual {
            Some(y) => contains_value(vs, y),
            None => false,
        };
        if found {
            return false;
        }
    }
    true
}

/// Whether a condition holds of a document.
pub fn json_condition_matches(root: &JsonValue, c: &JsonCondition) -> (r: bool)
    ensures
        r == condition_holds(*root, *c),
    decreases *c,
{
    let mut i: usize = 0;
    while i < c.all.len()
        invariant
            i <= c.all.len(),
            all_hold(*root, c.all@.take(i as int)),
        decreases c.all.len() - i,
    {
        proof {
            assert(decreases_to!(*c => c.all));
            assert(decreases_to!(c.all => c.all@));
            assert(decreases_to!(c.all@ => c.all@[i as int]));
            assert(c.all@.take(i + 1).drop_last() =~= c.all@.take(i as int));
        }
        if !json_condition_matches(root, &c.all[i]) {
            proof {
                lemma_all_prefix(*root, c.all@, i + 1);
            }
            return false;
        }
        i += 1;
    }
    assert(c.all@.take(c.all.len() as int) =~= c.all@);
    if c.any.len() > 0 {
        let mut found = false;
        let mut j: usize = 0;
        while j < c.any.len()
            invariant
                j <= c.any.len(),
                found == any_holds(*root, c.any@.take(j as int)),
            decreases c.any.len() - j,
        {
            proof {
                assert(decreases_to!(*c => c.any));
                assert(decreases_to!(c.any => c.any@));
                assert(decreases_to!(c.any@ => c.any@[j as int]));
                assert(c.any@.take(j + 1).drop_last() =~= c.any@.take(j as int));
            }
            let m = json_condition_matches(root, &c.any[j]);
            found = found || m;
            j += 1;
        }
        assert(c.any@.take(c.any.len() as int) =~= c.any@);
        if !found {
            return false;
        }
    }
    match &c.not {
        Some(n) => {
            proof {
                assert(decreases_to!(*c => c.not));
            }
            if json_condition_matches(root, n) {
                return false;
            }
        },
        None => {},
    }
    leaf_matches(root, c)
}

/// A failing prefix makes `all_hold` fail.
proof fn lemma_all_prefix(root: JsonValue, cs: Seq<JsonCondition>, k: int)
    requires
        0 <= k <= cs.len(),
        !all_hold(root, cs.take(k)),
    ensures
        !all_hold(root, cs),
    decreases cs.len(),
{
    if k < cs.len() {
        assert(cs.drop_last().take(k) =~= cs.take(k));
        lemma_all_prefix(root, cs.drop_last(), k);
    } else {
        assert(cs.take(k) =~= cs);
    }
}

} // verus!
