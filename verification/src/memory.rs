//! Per-actor memory: records, the month- or day-sharded JSONL store's
//! naming rules, the newest-first ordering of loaded records, and the
//! filters of recall queries.
//!
//! Reading and appending shard files is the caller's business; every
//! decision about which file a record belongs to, in what order records
//! come back and which of them a query returns is made here.

use chrono::Datelike;
use vstd::prelude::*;

use crate::paths::{is_relative_text, is_verbatim, join_path, joined};
use crate::text::{
    alphanumeric, ascii_lowercase, char_is_alphanumeric, chars_of, contains, contains_chars,
    decimal, eq_chars, extend_chars, extend_str, join, join_chars, lemma_utf8_len_bound, lowercase, push_decimal,
    slice_chars, string_of, to_ascii_lowercase_chars, to_lowercase, utf8_len, views,
};

verus! {

// ───────────────────────── records ─────────────────────────

/// Where a memory came from.
#[derive(Debug, Clone, PartialEq, Eq, Default)]
pub struct MemorySource {
    pub channel_id: String,
    pub thread_id: String,
    pub message_ids: Vec<String>,
}

/// One remembered fact, as stored on one line of a shard.
#[derive(Debug, Clone, PartialEq, Eq, Default)]
pub struct MemoryRecord {
    pub schema_version: u32,
    pub id: String,
    pub actor_id: String,
    /// RFC 3339 timestamp.
    pub ts: String,
    pub record_type: String,
    pub status: String,
    pub summary: String,
    pub detail: String,
    pub confidence: String,
    pub source: MemorySource,
    pub tags: Vec<String>,
}

/// A recall request.
#[derive(Debug, Clone, PartialEq, Eq)]
pub struct MemoryQuery {
    pub text: Option<String>,
    pub tags: Vec<String>,
    pub types: Vec<String>,
    pub channel_scope: Option<String>,
    pub include_non_accepted: bool,
    /// At most this many results; `0` means no limit.
    pub limit: usize,
}

impl Default for MemoryQuery {
    fn default() -> (q: Self)
        ensures
            q.text is None,
            q.tags@.len() == 0,
            q.types@.len() == 0,
            q.channel_scope is None,
            !q.include_non_accepted,
            q.limit == 0,
    {
        MemoryQuery {
            text: None,
            tags: Vec::new(),
            types: Vec::new(),
            channel_scope: None,
            include_non_accepted: false,
            limit: 0,
        }
    }
}

/// A record counts as memory once it is accepted.
pub open spec fn accepted(r: MemoryRecord) -> bool {
    r.status@ == "accepted"@
}

impl MemoryRecord {
    /// Whether the record's status is `accepted`.
    pub fn is_accepted(&self) -> (b: bool)
        ensures
            b == accepted(*self),
    {
        let s = chars_of(self.status.as_str());
        crate::text::eq_str(&s, "accepted")
    }
}

// ───────────────────────── shard naming ─────────────────────────

/// How records are grouped into files.
#[derive(Debug, Clone, Copy, PartialEq, Eq)]
pub enum ShardBy {
    Month,
    Day,
}

/// `day`, in any ASCII case, selects daily shards; anything else monthly.
pub open spec fn parse_shard_by(s: Seq<char>) -> ShardBy {
    if ascii_lowercase(s) == "day"@ { ShardBy::Day } else { ShardBy::Month }
}

/// `n` left-padded with zeros to `width` characters, the sign counted in
/// the width, as `format!("{:0width$}", n)` prints it.
pub open spec fn zero_padded(n: int, width: nat) -> Seq<char> {
    let digits = decimal(if n < 0 { (-n) as nat } else { n as nat });
    let w: nat = if n < 0 { if width > 0 { (width - 1) as nat } else { 0 } } else { width };
    let padded = if digits.len() >= w { digits } else { Seq::new((w - digits.len()) as nat, |_i: int| '0') + digits };
    if n < 0 { seq!['-'] + padded } else { padded }
}

/// The file a record dated `(year, month, day)` (UTC) lands in.
pub open spec fn shard_file_name(by: ShardBy, year: i32, month: u32, day: u32) -> Seq<char> {
    match by {
        ShardBy::Month => zero_padded(year as int, 4) + "-"@ + zero_padded(month as int, 2) + ".jsonl"@,
        ShardBy::Day => zero_padded(year as int, 4) + "-"@ + zero_padded(month as int, 2) + "-"@
            + zero_padded(day as int, 2) + ".jsonl"@,
    }
}

/// The UTC calendar date of an RFC 3339 timestamp, as chrono parses it;
/// `None` when chrono rejects the text.
pub uninterp spec fn utc_date_of(ts: Seq<char>) -> Option<(i32, u32, u32)>;

/// Calls `chrono::DateTime::parse_from_rfc3339`, converts to UTC and reads
/// year, month and day; the contract only names what comes back.
#[verifier::external_body]
fn parse_utc_date(ts: &str) -> (r: Option<(i32, u32, u32)>)
    ensures
        r == utc_date_of(ts@),
{
    match chrono::DateTime::parse_from_rfc3339(ts) {
        Ok(dt) => {
            let u = dt.with_timezone(&chrono::Utc);
            Some((u.year(), u.month(), u.day()))
        },
        Err(_) => None,
    }
}

/// Calls `chrono::Utc::now` and reads year, month and day. The date depends
/// on the clock, so nothing is said of it.
#[verifier::external_body]
fn utc_today() -> (r: (i32, u32, u32))
{
    let u = chrono::Utc::now();
    (u.year(), u.month(), u.day())
}

impl ShardBy {
    /// Read a configured shard granularity.
    pub fn parse(s: &str) -> (r: ShardBy)
        ensures
            r == parse_shard_by(s@),
    {
        let c = chars_of(s);
        let l = to_ascii_lowercase_chars(&c);
        if crate::text::eq_str(&l, "day") { ShardBy::Day } else { ShardBy::Month }
    }

    /// The shard file name for a UTC date.
    pub fn shard_name(self, year: i32, month: u32, day: u32) -> (out: String)
        ensures
            out@ == shard_file_name(self, year, month, day),
    {
        let mut out: Vec<char> = Vec::new();
        push_padded(&mut out, year as i64, 4);
        extend_str(&mut out, "-");
        push_padded(&mut out, month as i64, 2);
        match self {
            ShardBy::Month => {},
            ShardBy::Day => {
                extend_str(&mut out, "-");
                push_padded(&mut out, day as i64, 2);
            },
        }
        extend_str(&mut out, ".jsonl");
        string_of(&out)
    }
}

/// Append `zero_padded(n, width)` to `out`.
fn push_padded(out: &mut Vec<char>, n: i64, width: usize)
    requires
        n > i64::MIN,
    ensures
        final(out)@ == old(out)@ + zero_padded(n as int, width as nat),
{
    let mag: u64 = if n < 0 { (-n) as u64 } else { n as u64 };
    let mut digits: Vec<char> = Vec::new();
    push_decimal(&mut digits, mag);
    assert(digits@ == decimal(if n < 0 { (-n) as nat } else { n as nat }));
    let w: usize = if n < 0 { if width > 0 { width - 1 } else { 0 } } else { width };
    if n < 0 {
        out.push('-');
    }
    let ghost before = out@;
    let mut k: usize = digits.len();
    while k < w
        invariant
            digits.len() <= k <= w || (digits.len() > w && k == digits.len()),
            out@ == before + Seq::new((k - digits.len()) as nat, |_i: int| '0'),
        decreases w - k,
    {
        out.push('0');
        k += 1;
        assert(out@ =~= before + Seq::new((k - digits.len()) as nat, |_i: int| '0'));
    }
    extend_chars(out, &digits);
    proof {
        let ghost n_int = n as int;
        let ghost d = decimal(if n_int < 0 { (-n_int) as nat } else { n_int as nat });
        if digits.len() >= w {
            assert(Seq::new((k - digits.len()) as nat, |_i: int| '0') =~= Seq::<char>::empty());
        }
        if n < 0 {
            assert(out@ =~= old(out)@ + zero_padded(n as int, width as nat));
        } else {
            assert(out@ =~= old(out)@ + zero_padded(n as int, width as nat));
        }
    }
}

/// The month- or day-sharded JSONL memory store of one actor.
#[derive(Debug, Clone)]
pub struct JsonlMemoryStore {
    pub root: String,
    pub shard_by: ShardBy,
}

impl JsonlMemoryStore {
    /// A store under `root` with monthly shards.
    pub fn new(root: String) -> (s: Self)
        ensures
            s.root == root,
            s.shard_by == ShardBy::Month,
    {
        JsonlMemoryStore { root, shard_by: ShardBy::Month }
    }

    /// A store under `root` with the configured shard granularity.
    pub fn with_shard_by(root: String, shard_by: &str) -> (s: Self)
        ensures
            s.root == root,
            s.shard_by == parse_shard_by(shard_by@),
    {
        JsonlMemoryStore { root, shard_by: ShardBy::parse(shard_by) }
    }

    /// The shard file name a record stamped `ts` goes to: the shard of its
    /// UTC date, or of today's date when `ts` does not parse (records are
    /// never refused on save).
    pub fn shard_name_for_ts(&self, ts: &str) -> (out: String)
        ensures
            utc_date_of(ts@) matches Some((y, m, d)) ==> out@ == shard_file_name(self.shard_by, y, m, d),
            utc_date_of(ts@) is None ==> exists|y: i32, m: u32, d: u32| out@ == shard_file_name(self.shard_by, y, m, d),
    {
        let (y, m, d) = match parse_utc_date(ts) {
            Some(date) => date,
            None => utc_today(),
        };
        self.shard_by.shard_name(y, m, d)
    }

    /// The path of the shard a record stamped `ts` goes to.
    pub fn shard_path_for_ts(&self, ts: &str) -> (out: String)
        ensures
            !is_verbatim(self.root@) ==> exists|name: Seq<char>| joined(self.root@, name, out@)
                && (utc_date_of(ts@) matches Some((y, m, d)) ==> name == shard_file_name(self.shard_by, y, m, d)),
    {
        let name = self.shard_name_for_ts(ts);
        proof {
            lemma_shard_name_plain(self.shard_by, name@);
        }
        join_path(self.root.as_str(), name.as_str())
    }
}

/// Shard names contain no separator or colon.
proof fn lemma_shard_name_plain(by: ShardBy, name: Seq<char>)
    requires
        exists|y: i32, m: u32, d: u32| name == shard_file_name(by, y, m, d),
    ensures
        is_relative_text(name),
{
    let (y, m, d) = choose|y: i32, m: u32, d: u32| name == shard_file_name(by, y, m, d);
    lemma_padded_chars(y as int, 4);
    lemma_padded_chars(m as int, 2);
    lemma_padded_chars(d as int, 2);
    reveal_strlit("-");
    reveal_strlit(".jsonl");
    assert(is_name_char(name[0]));
    if name.contains(':') {
        let i = choose|i: int| 0 <= i < name.len() && name[i] == ':';
        assert(is_name_char(name[i]));
    }
}

/// Characters that occur in shard names.
spec fn is_name_char(c: char) -> bool {
    ('0' <= c && c <= '9') || c == '-' || c == '.' || ('a' <= c && c <= 'z')
}

proof fn lemma_decimal_chars(n: nat)
    ensures
        forall|i: int| 0 <= i < decimal(n).len() ==> '0' <= #[trigger] decimal(n)[i] <= '9',
    decreases n,
{
    assert(forall|d: nat| '0' <= #[trigger] crate::text::digit_char(d) <= '9');
    if n >= 10 {
        lemma_decimal_chars(n / 10);
        let s = decimal(n);
        assert forall|i: int| 0 <= i < s.len() implies '0' <= #[trigger] s[i] <= '9' by {
            if i < s.len() - 1 {
                assert(s[i] == decimal(n / 10)[i]);
            }
        }
    }
}

proof fn lemma_padded_chars(n: int, w: nat)
    ensures
        forall|i: int| 0 <= i < zero_padded(n, w).len() ==> is_name_char(#[trigger] zero_padded(n, w)[i]),
{
    let digits = decimal(if n < 0 { (-n) as nat } else { n as nat });
    lemma_decimal_chars(if n < 0 { (-n) as nat } else { n as nat });
}

// ───────────────────────── ordering ─────────────────────────

/// Lexicographic `<` on strings, as `String::cmp` orders them (byte order
/// of UTF-8 is code point order).
pub open spec fn str_lt(a: Seq<char>, b: Seq<char>) -> bool
    decreases a.len(),
{
    if b.len() == 0 {
        false
    } else if a.len() == 0 {
        true
    } else if a[0] != b[0] {
        a[0] < b[0]
    } else {
        str_lt(a.skip(1), b.skip(1))
    }
}

/// Index at which a stable newest-first sort inserts a record stamped `ts`
/// into the already sorted `sorted`: after every record not older than it.
pub open spec fn insert_pos(sorted: Seq<MemoryRecord>, ts: Seq<char>) -> nat
    decreases sorted.len(),
{
    if sorted.len() == 0 {
        0
    } else if str_lt(sorted[0].ts@, ts) {
        0
    } else {
        1 + insert_pos(sorted.skip(1), ts)
    }
}

/// `items` stably sorted by timestamp, newest first, as
/// `sort_by(|a, b| b.ts.cmp(&a.ts))` leaves them.
pub open spec fn newest_first(items: Seq<MemoryRecord>) -> Seq<MemoryRecord>
    decreases items.len(),
{
    if items.len() == 0 {
        seq![]
    } else {
        let sorted = newest_first(items.drop_last());
        let r = items.last();
        let p = insert_pos(sorted, r.ts@) as int;
        sorted.take(p).push(r) + sorted.skip(p)
    }
}

proof fn lemma_insert_pos_bound(sorted: Seq<MemoryRecord>, ts: Seq<char>)
    ensures
        insert_pos(sorted, ts) <= sorted.len(),
    decreases sorted.len(),
{
    if sorted.len() > 0 && !str_lt(sorted[0].ts@, ts) {
        lemma_insert_pos_bound(sorted.skip(1), ts);
    }
}

proof fn lemma_newest_first_len(items: Seq<MemoryRecord>)
    ensures
        newest_first(items).len() == items.len(),
    decreases items.len(),
{
    if items.len() > 0 {
        lemma_newest_first_len(items.drop_last());
        lemma_insert_pos_bound(newest_first(items.drop_last()), items.last().ts@);
    }
}

proof fn lemma_str_lt_asym(a: Seq<char>, b: Seq<char>)
    ensures
        str_lt(a, b) ==> !str_lt(b, a),
    decreases a.len(),
{
    if a.len() > 0 && b.len() > 0 && a[0] == b[0] {
        lemma_str_lt_asym(a.skip(1), b.skip(1));
    }
}

proof fn lemma_str_lt_trans(a: Seq<char>, b: Seq<char>, c: Seq<char>)
    requires
        str_lt(a, b),
        str_lt(b, c),
    ensures
        str_lt(a, c),
    decreases a.len(),
{
    if a.len() > 0 && a[0] == b[0] && b[0] == c[0] {
        lemma_str_lt_trans(a.skip(1), b.skip(1), c.skip(1));
    }
}

proof fn lemma_insert_pos_props(sorted: Seq<MemoryRecord>, ts: Seq<char>)
    ensures
        insert_pos(sorted, ts) <= sorted.len(),
        forall|k: int| 0 <= k < insert_pos(sorted, ts) ==> !str_lt(#[trigger] sorted[k].ts@, ts),
        insert_pos(sorted, ts) < sorted.len() ==> str_lt(sorted[insert_pos(sorted, ts) as int].ts@, ts),
    decreases sorted.len(),
{
    if sorted.len() > 0 && !str_lt(sorted[0].ts@, ts) {
        lemma_insert_pos_props(sorted.skip(1), ts);
        assert forall|k: int| 0 <= k < insert_pos(sorted, ts) implies !str_lt(#[trigger] sorted[k].ts@, ts) by {
            if k > 0 {
                assert(sorted[k] == sorted.skip(1)[k - 1]);
            }
        }
    }
}

/// No record is older than a record after it.
pub open spec fn sorted_newest_first(s: Seq<MemoryRecord>) -> bool {
    forall|i: int, j: int| 0 <= i < j < s.len() ==> !str_lt(#[trigger] s[i].ts@, #[trigger] s[j].ts@)
}

/// Loaded records come back newest first: the order that `list_recent`,
/// `recall` and `find_record` scan holds exactly the loaded records, and
/// no record in it is older than a record after it.
pub proof fn law_newest_first_sorts(items: Seq<MemoryRecord>)
    ensures
        newest_first(items).to_multiset() == items.to_multiset(),
        sorted_newest_first(newest_first(items)),
    decreases items.len(),
{
    broadcast use vstd::seq_lib::group_to_multiset_ensures;
    if items.len() > 0 {
        let rest = items.drop_last();
        let r = items.last();
        law_newest_first_sorts(rest);
        let sorted = newest_first(rest);
        let p = insert_pos(sorted, r.ts@) as int;
        lemma_insert_pos_props(sorted, r.ts@);
        let out = newest_first(items);
        assert(out =~= sorted.insert(p, r));
        assert(items =~= rest.push(r));
        assert forall|i: int, j: int| 0 <= i < j < out.len() implies !str_lt(#[trigger] out[i].ts@, #[trigger] out[j].ts@) by {
            if j < p {
                assert(out[i] == sorted[i] && out[j] == sorted[j]);
            } else if j == p {
                assert(out[i] == sorted[i]);
            } else if i < p {
                assert(out[i] == sorted[i] && out[j] == sorted[j - 1]);
            } else if i == p {
                assert(out[j] == sorted[j - 1]);
                lemma_str_lt_asym(sorted[p].ts@, r.ts@);
                if str_lt(r.ts@, sorted[j - 1].ts@) && j - 1 > p {
                    lemma_str_lt_trans(sorted[p].ts@, r.ts@, sorted[j - 1].ts@);
                    assert(!str_lt(sorted[p].ts@, sorted[j - 1].ts@));
                }
            } else {
                assert(out[i] == sorted[i - 1] && out[j] == sorted[j - 1]);
            }
        }
    }
}

/// `a.ts < b.ts`, lexicographically.
fn ts_lt(a: &str, b: &str) -> (r: bool)
    ensures
        r == str_lt(a@, b@),
{
    let x = chars_of(a);
    let y = chars_of(b);
    let mut i: usize = 0;
    assert(x@.skip(0) =~= x@);
    assert(y@.skip(0) =~= y@);
    while i < x.len() && i < y.len() && x[i] == y[i]
        invariant
            i <= x.len(),
            i <= y.len(),
            str_lt(a@, b@) == str_lt(x@.skip(i as int), y@.skip(i as int)),
            x@ == a@,
            y@ == b@,
        decreases x.len() - i,
    {
        assert(x@.skip(i as int).skip(1) =~= x@.skip(i + 1));
        assert(y@.skip(i as int).skip(1) =~= y@.skip(i + 1));
        i += 1;
    }
    if i == y.len() {
        false
    } else if i == x.len() {
        true
    } else {
        x[i] < y[i]
    }
}

/// Position at which a stable newest-first sort inserts `ts`.
fn find_insert_pos(sorted: &Vec<MemoryRecord>, ts: &str) -> (p: usize)
    ensures
        p == insert_pos(sorted@, ts@),
{
    let mut i: usize = 0;
    assert(sorted@.skip(0) =~= sorted@);
    while i < sorted.len() && !ts_lt(sorted[i].ts.as_str(), ts)
        invariant
            i <= sorted.len(),
            insert_pos(sorted@, ts@) == i + insert_pos(sorted@.skip(i as int), ts@),
        decreases sorted.len() - i,
    {
        assert(sorted@.skip(i as int).skip(1) =~= sorted@.skip(i + 1));
        i += 1;
    }
    i
}

/// Sort loaded records newest first, keeping the load order of records
/// with equal timestamps.
pub fn sort_newest_first(items: Vec<MemoryRecord>) -> (out: Vec<MemoryRecord>)
    ensures
        out@ == newest_first(items@),
{
    let ghost orig = items@;
    let n = items.len();
    assert(orig.len() == n);
    let mut rest = items;
    let mut out: Vec<MemoryRecord> = Vec::new();
    let mut k: usize = 0;
    assert(orig.skip(0) =~= orig);
    assert(orig.take(0) =~= Seq::<MemoryRecord>::empty());
    while rest.len() > 0
        invariant
            k <= orig.len(),
            orig.len() == k + rest.len(),
            orig.len() <= usize::MAX,
            rest@ == orig.skip(k as int),
            out@ == newest_first(orig.take(k as int)),
        decreases rest.len(),
    {
        let r = rest.remove(0);
        let p = find_insert_pos(&out, r.ts.as_str());
        proof {
            lemma_insert_pos_bound(out@, r.ts@);
            assert(orig.take(k + 1).drop_last() =~= orig.take(k as int));
            assert(orig.take(k + 1).last() == r);
        }
        let ghost before = out@;
        out.insert(p, r);
        proof {
            assert(out@ =~= before.take(p as int).push(r) + before.skip(p as int));
            assert(rest@ =~= orig.skip(k + 1));
        }
        k += 1;
    }
    assert(orig.take(k as int) =~= orig);
    out
}
// ───────────────────────── tokenising ─────────────────────────

/// Characters at which query text is split into terms.
pub open spec fn is_token_sep(c: char) -> bool {
    !alphanumeric(c) && c != '_'
}

/// Index of the first separator in `s`.
pub open spec fn first_sep(s: Seq<char>) -> Option<int>
    decreases s.len(),
{
    if s.len() == 0 {
        None
    } else if is_token_sep(s[0]) {
        Some(0)
    } else {
        match first_sep(s.skip(1)) {
            Some(i) => Some(i + 1),
            None => None,
        }
    }
}

pub proof fn lemma_first_sep(s: Seq<char>)
    ensures
        first_sep(s) matches Some(i) ==> 0 <= i < s.len() && is_token_sep(s[i])
            && forall|j: int| 0 <= j < i ==> !is_token_sep(#[trigger] s[j]),
        first_sep(s) is None ==> forall|j: int| 0 <= j < s.len() ==> !is_token_sep(#[trigger] s[j]),
    decreases s.len(),
{
    if s.len() > 0 && !is_token_sep(s[0]) {
        lemma_first_sep(s.skip(1));
        assert forall|j: int| 1 <= j < s.len() implies s[j] == s.skip(1)[j - 1] by {}
    }
}

/// The pieces `str::split` yields for the separator predicate, empty
/// pieces included.
pub open spec fn split_pieces(s: Seq<char>) -> Seq<Seq<char>>
    decreases s.len(),
{
    proof {
        lemma_first_sep(s);
    }
    match first_sep(s) {
        None => seq![s],
        Some(i) => seq![s.take(i)] + split_pieces(s.skip(i + 1)),
    }
}

/// The most terms a query keeps.
pub const MAX_TERMS: usize = 16;

/// Whether a lowercased piece is too short to be a term (under two bytes).
pub open spec fn too_short(t: Seq<char>) -> bool {
    utf8_len(t) < 2
}

/// One step of term collection: lowercase the piece and keep it unless the
/// list is full, the term is too short, or it is already there.
pub open spec fn term_step(out: Seq<Seq<char>>, piece: Seq<char>) -> Seq<Seq<char>> {
    let t = lowercase(piece);
    if out.len() >= MAX_TERMS || too_short(t) || out.contains(t) {
        out
    } else {
        out.push(t)
    }
}

/// Term collection over a list of pieces.
pub open spec fn term_fold(out: Seq<Seq<char>>, pieces: Seq<Seq<char>>) -> Seq<Seq<char>>
    decreases pieces.len(),
{
    if pieces.len() == 0 {
        out
    } else {
        term_fold(term_step(out, pieces[0]), pieces.skip(1))
    }
}

/// The search terms of free text: the pieces between non-alphanumeric
/// characters (`_` counts as alphanumeric), lowercased, at least two bytes
/// long, without repeats, at most `MAX_TERMS` of them, in order of first
/// occurrence.
pub open spec fn terms_of(text: Seq<char>) -> Seq<Seq<char>> {
    term_fold(seq![], split_pieces(text))
}

proof fn lemma_term_fold_full(out: Seq<Seq<char>>, pieces: Seq<Seq<char>>)
    requires
        out.len() >= MAX_TERMS,
    ensures
        term_fold(out, pieces) == out,
    decreases pieces.len(),
{
    if pieces.len() > 0 {
        lemma_term_fold_full(out, pieces.skip(1));
    }
}

/// Index of the first separator in `s`, as `first_sep`.
fn find_sep(s: &[char]) -> (r: Option<usize>)
    ensures
        match r {
            Some(i) => first_sep(s@) == Some(i as int),
            None => first_sep(s@) is None,
        },
{
    let mut i: usize = 0;
    assert(s@.skip(0) =~= s@);
    while i < s.len()
        invariant
            i <= s.len(),
            first_sep(s@) == (match first_sep(s@.skip(i as int)) { Some(k) => Some(k + i), None => None }),
        decreases s.len() - i,
    {
        let c = s[i];
        if !char_is_alphanumeric(c) && c != '_' {
            return Some(i);
        }
        assert(s@.skip(i as int).skip(1) =~= s@.skip(i + 1));
        i += 1;
    }
    None
}

/// Whether `v` holds a string equal to `t`.
fn holds_string(v: &Vec<String>, t: &[char]) -> (b: bool)
    ensures
        b == views(v@).contains(t@),
{
    let mut j: usize = 0;
    while j < v.len()
        invariant
            j <= v.len(),
            forall|k: int| 0 <= k < j ==> v@[k]@ != t@,
        decreases v.len() - j,
    {
        let c = chars_of(v[j].as_str());
        if eq_chars(&c, t) {
            assert(views(v@)[j as int] == t@);
            return true;
        }
        j += 1;
    }
    proof {
        if views(v@).contains(t@) {
            let k = choose|k: int| 0 <= k < views(v@).len() && views(v@)[k] == t@;
            assert(v@[k]@ == t@);
        }
    }
    false
}

/// Whether a string of `t.len()` characters is under two bytes long.
fn is_too_short(t: &[char]) -> (b: bool)
    ensures
        b == too_short(t@),
{
    proof {
        lemma_utf8_len_bound(t@);
    }
    if t.len() == 0 {
        true
    } else if t.len() == 1 {
        (t[0] as u32) < 0x80
    } else {
        false
    }
}

fn push_term(out: &mut Vec<String>, piece: &[char])
    ensures
        views(final(out)@) == term_step(views(old(out)@), piece@),
{
    if out.len() >= MAX_TERMS {
        return;
    }
    let p = string_of(piece);
    let t = to_lowercase(p.as_str());
    let tc = chars_of(t.as_str());
    if is_too_short(&tc) {
        return;
    }
    if holds_string(out, &tc) {
        return;
    }
    let ghost before = out@;
    out.push(t);
    assert(views(out@) =~= views(before).push(tc@));
}

/// The search terms of free text (see `terms_of`).
pub fn tokenize(text: &str) -> (out: Vec<String>)
    ensures
        views(out@) == terms_of(text@),
{
    let s = chars_of(text);
    let mut out: Vec<String> = Vec::new();
    let mut i: usize = 0;
    let mut more = true;
    assert(s@.skip(0) =~= s@);
    assert(views(out@) =~= Seq::<Seq<char>>::empty());
    while more
        invariant
            i <= s.len(),
            s@ == text@,
            more ==> terms_of(text@) == term_fold(views(out@), split_pieces(s@.skip(i as int))),
            !more ==> terms_of(text@) == views(out@),
        decreases s.len() - i + (if more { 1int } else { 0int }),
    {
        let rest = slice_chars(&s, i, s.len());
        assert(rest@ =~= s@.skip(i as int));
        proof {
            lemma_first_sep(rest@);
        }
        match find_sep(&rest) {
            None => {
                assert(split_pieces(rest@) == seq![rest@]);
                let ghost before = views(out@);
                push_term(&mut out, &rest);
                assert(seq![rest@].skip(1) =~= Seq::<Seq<char>>::empty());
                assert(term_fold(before, seq![rest@]) == term_fold(term_step(before, rest@), seq![rest@].skip(1)));
                more = false;
            },
            Some(k) => {
                let piece = slice_chars(&rest, 0, k);
                let ghost tail = rest@.skip(k + 1);
                assert(split_pieces(rest@) == seq![rest@.take(k as int)] + split_pieces(tail));
                assert((seq![rest@.take(k as int)] + split_pieces(tail)).skip(1) =~= split_pieces(tail));
                assert(piece@ =~= rest@.take(k as int));
                push_term(&mut out, &piece);
                assert(tail =~= s@.skip(i + k + 1));
                i = i + k + 1;
                if out.len() >= MAX_TERMS {
                    proof {
                        lemma_term_fold_full(views(out@), split_pieces(s@.skip(i as int)));
                    }
                    more = false;
                }
            },
        }
    }
    out
}

// ───────────────────────── recall ─────────────────────────

/// The text a query searches: lowercased summary, detail and space-joined
/// tags, one per line.
pub open spec fn haystack(r: MemoryRecord) -> Seq<char> {
    lowercase(r.summary@) + seq!['\n'] + lowercase(r.detail@) + seq!['\n']
        + lowercase(join(views(r.tags@), seq![' ']))
}

/// Lowercase every string.
pub open spec fn lowercased(v: Seq<String>) -> Seq<Seq<char>> {
    v.map_values(|s: String| lowercase(s@))
}

/// ASCII-lowercase every string.
pub open spec fn ascii_lowercased(v: Seq<String>) -> Seq<Seq<char>> {
    v.map_values(|s: String| ascii_lowercase(s@))
}

/// The terms of the query text (none without text).
pub open spec fn query_terms(q: MemoryQuery) -> Seq<Seq<char>> {
    match q.text {
        Some(t) => terms_of(t@),
        None => seq![],
    }
}

/// The lowercased query text (empty without text).
pub open spec fn query_raw(q: MemoryQuery) -> Seq<char> {
    match q.text {
        Some(t) => lowercase(t@),
        None => seq![],
    }
}

/// Whether the text part of a query selects `r`: there is no text, a term
/// occurs in the haystack, or the whole lowercased text does.
pub open spec fn text_matches(r: MemoryRecord, terms: Seq<Seq<char>>, raw: Seq<char>) -> bool {
    (terms.len() == 0 && raw.len() == 0)
        || (exists|i: int| 0 <= i < terms.len() && contains(haystack(r), #[trigger] terms[i]))
        || (raw.len() > 0 && contains(haystack(r), raw))
}

/// Whether a query selects record `r`.
pub open spec fn record_matches(r: MemoryRecord, q: MemoryQuery) -> bool {
    &&& q.include_non_accepted || accepted(r)
    &&& q.channel_scope matches Some(ch) ==> r.source.channel_id@ == ch@
    &&& lowercased(q.types@).len() == 0 || lowercased(q.types@).contains(ascii_lowercase(r.record_type@))
    &&& lowercased(q.tags@).len() == 0 || (exists|i: int| 0 <= i < q.tags@.len()
            && ascii_lowercased(r.tags@).contains(#[trigger] lowercased(q.tags@)[i]))
    &&& text_matches(r, query_terms(q), query_raw(q))
}

/// The records of `items` a query selects, in order.
pub open spec fn matching(items: Seq<MemoryRecord>, q: MemoryQuery) -> Seq<MemoryRecord>
    decreases items.len(),
{
    if items.len() == 0 {
        seq![]
    } else if record_matches(items.last(), q) {
        matching(items.drop_last(), q).push(items.last())
    } else {
        matching(items.drop_last(), q)
    }
}

proof fn lemma_matching_members(items: Seq<MemoryRecord>, q: MemoryQuery)
    ensures
        forall|k: int| 0 <= k < matching(items, q).len() ==> record_matches(#[trigger] matching(items, q)[k], q)
            && items.contains(matching(items, q)[k]),
    decreases items.len(),
{
    if items.len() > 0 {
        lemma_matching_members(items.drop_last(), q);
        let m = matching(items, q);
        let prev = matching(items.drop_last(), q);
        assert forall|k: int| 0 <= k < m.len() implies record_matches(#[trigger] m[k], q) && items.contains(m[k]) by {
            if k < prev.len() {
                assert(m[k] == prev[k]);
                let j = choose|j: int| 0 <= j < items.drop_last().len() && items.drop_last()[j] == prev[k];
                assert(items[j] == prev[k]);
            } else {
                assert(m[k] == items[items.len() - 1]);
            }
        }
    }
}

proof fn lemma_matching_sorted(items: Seq<MemoryRecord>, q: MemoryQuery)
    requires
        sorted_newest_first(items),
    ensures
        sorted_newest_first(matching(items, q)),
    decreases items.len(),
{
    if items.len() > 0 {
        let rest = items.drop_last();
        assert(sorted_newest_first(rest)) by {
            assert forall|i: int, j: int| 0 <= i < j < rest.len() implies
                !str_lt(#[trigger] rest[i].ts@, #[trigger] rest[j].ts@) by {
                assert(rest[i] == items[i] && rest[j] == items[j]);
            }
        }
        lemma_matching_sorted(rest, q);
        lemma_matching_members(rest, q);
        if record_matches(items.last(), q) {
            let m = matching(items, q);
            let prev = matching(rest, q);
            assert forall|i: int, j: int| 0 <= i < j < m.len() implies
                !str_lt(#[trigger] m[i].ts@, #[trigger] m[j].ts@) by {
                if j < prev.len() {
                    assert(m[i] == prev[i] && m[j] == prev[j]);
                } else {
                    assert(m[i] == prev[i]);
                    assert(rest.contains(prev[i]));
                    let k = choose|k: int| 0 <= k < rest.len() && rest[k] == prev[i];
                    assert(items[k] == prev[i]);
                    assert(m[j] == items[items.len() - 1]);
                }
            }
        }
    }
}

proof fn lemma_matching_complete(items: Seq<MemoryRecord>, q: MemoryQuery, r: MemoryRecord)
    requires
        items.contains(r),
        record_matches(r, q),
    ensures
        matching(items, q).contains(r),
    decreases items.len(),
{
    let n = items.len() - 1;
    if items[n] == r {
        assert(matching(items, q).last() == r);
    } else {
        let k = choose|k: int| 0 <= k < items.len() && items[k] == r;
        assert(items.drop_last()[k] == r);
        lemma_matching_complete(items.drop_last(), q, r);
        let prev = matching(items.drop_last(), q);
        let j = choose|j: int| 0 <= j < prev.len() && prev[j] == r;
        if record_matches(items.last(), q) {
            assert(matching(items, q)[j] == r);
        }
    }
}

/// Law: recall comes back newest first and holds at most `limit` records
/// (when a limit is set); without a limit every loaded record that passes
/// the query's filters comes back.
pub proof fn law_recall_order_and_limit(items: Seq<MemoryRecord>, q: MemoryQuery, r: MemoryRecord)
    ensures
        sorted_newest_first(limited(matching(newest_first(items), q), q.limit as nat)),
        q.limit > 0 ==> limited(matching(newest_first(items), q), q.limit as nat).len() <= q.limit,
        q.limit == 0 && items.contains(r) && record_matches(r, q)
            ==> limited(matching(newest_first(items), q), q.limit as nat).contains(r),
{
    law_newest_first_sorts(items);
    lemma_matching_sorted(newest_first(items), q);
    let m = matching(newest_first(items), q);
    let out = limited(m, q.limit as nat);
    assert forall|i: int, j: int| 0 <= i < j < out.len() implies
        !str_lt(#[trigger] out[i].ts@, #[trigger] out[j].ts@) by {
        assert(out[i] == m[i] && out[j] == m[j]);
    }
    if q.limit == 0 && items.contains(r) && record_matches(r, q) {
        broadcast use vstd::seq_lib::group_to_multiset_ensures;
        assert(items.to_multiset().count(r) > 0);
        assert(newest_first(items).to_multiset().count(r) > 0);
        assert(newest_first(items).contains(r));
        lemma_matching_complete(newest_first(items), q, r);
    }
}

/// Law: every recalled record is one of the loaded records and passes every
/// filter of the query: it is accepted unless non-accepted records were
/// asked for; it comes from the query's channel when one is given; its type,
/// ASCII-lowercased, is one of the query's lowercased types when types are
/// given; one of its tags, ASCII-lowercased, is one of the query's
/// lowercased tags when tags are given.
pub proof fn law_recall_filters(items: Seq<MemoryRecord>, q: MemoryQuery, r: MemoryRecord)
    requires
        limited(matching(items, q), q.limit as nat).contains(r),
    ensures
        items.contains(r),
        !q.include_non_accepted ==> r.status@ == "accepted"@,
        q.channel_scope matches Some(ch) ==> r.source.channel_id@ == ch@,
        q.types@.len() != 0 ==> exists|i: int| 0 <= i < q.types@.len()
            && lowercase(#[trigger] q.types@[i]@) == ascii_lowercase(r.record_type@),
        q.tags@.len() != 0 ==> exists|i: int, j: int| 0 <= i < q.tags@.len() && 0 <= j < r.tags@.len()
            && lowercase(#[trigger] q.tags@[i]@) == ascii_lowercase(#[trigger] r.tags@[j]@),
{
    lemma_matching_members(items, q);
    let m = matching(items, q);
    let k = choose|k: int| 0 <= k < limited(m, q.limit as nat).len() && limited(m, q.limit as nat)[k] == r;
    assert(m[k] == r);
    assert(record_matches(m[k], q));
    if q.types@.len() != 0 {
        let lt = lowercased(q.types@);
        assert(lt.len() == q.types@.len());
        let i = choose|i: int| 0 <= i < lt.len() && lt[i] == ascii_lowercase(r.record_type@);
        assert(lowercase(q.types@[i]@) == ascii_lowercase(r.record_type@));
    }
    if q.tags@.len() != 0 {
        let i = choose|i: int| 0 <= i < q.tags@.len()
            && ascii_lowercased(r.tags@).contains(#[trigger] lowercased(q.tags@)[i]);
        let at = ascii_lowercased(r.tags@);
        let j = choose|j: int| 0 <= j < at.len() && at[j] == lowercased(q.tags@)[i];
        assert(lowercase(q.tags@[i]@) == ascii_lowercase(r.tags@[j]@));
    }
}

/// At most `limit` items of `s`, `0` meaning all.
pub open spec fn limited(s: Seq<MemoryRecord>, limit: nat) -> Seq<MemoryRecord> {
    if limit > 0 && s.len() > limit { s.take(limit as int) } else { s }
}

/// The accepted records of `items`, in order.
pub open spec fn accepted_only(items: Seq<MemoryRecord>) -> Seq<MemoryRecord>
    decreases items.len(),
{
    if items.len() == 0 {
        seq![]
    } else if accepted(items.last()) {
        accepted_only(items.drop_last()).push(items.last())
    } else {
        accepted_only(items.drop_last())
    }
}

/// The first record of `items` with id `id`.
pub open spec fn first_with_id(items: Seq<MemoryRecord>, id: Seq<char>) -> Option<MemoryRecord>
    decreases items.len(),
{
    if items.len() == 0 {
        None
    } else if items[0].id@ == id {
        Some(items[0])
    } else {
        first_with_id(items.skip(1), id)
    }
}

/// Lowercase each string of `v`.
fn lowercase_all(v: &Vec<String>) -> (out: Vec<Vec<char>>)
    ensures
        out@.map_values(|l: Vec<char>| l@) == lowercased(v@),
{
    let mut out: Vec<Vec<char>> = Vec::new();
    let mut i: usize = 0;
    while i < v.len()
        invariant
            i <= v.len(),
            out@.map_values(|l: Vec<char>| l@) == lowercased(v@.take(i as int)),
        decreases v.len() - i,
    {
        let l = to_lowercase(v[i].as_str());
        let ghost before = out@;
        out.push(chars_of(l.as_str()));
        proof {
            assert(out@.map_values(|l: Vec<char>| l@) =~= before.map_values(|l: Vec<char>| l@).push(lowercase(v@[i as int]@)));
            assert(lowercased(v@.take(i + 1)) =~= lowercased(v@.take(i as int)).push(lowercase(v@[i as int]@)));
        }
        i += 1;
    }
    assert(v@.take(v.len() as int) =~= v@);
    out
}

/// Whether `needles` holds `t`.
fn holds_chars(needles: &Vec<Vec<char>>, t: &[char]) -> (b: bool)
    ensures
        b == needles@.map_values(|l: Vec<char>| l@).contains(t@),
{
    let ghost nv = needles@.map_values(|l: Vec<char>| l@);
    let mut j: usize = 0;
    while j < needles.len()
        invariant
            j <= needles.len(),
            nv == needles@.map_values(|l: Vec<char>| l@),
            forall|k: int| 0 <= k < j ==> nv[k] != t@,
        decreases needles.len() - j,
    {
        if eq_chars(&needles[j], t) {
            assert(nv[j as int] == t@);
            return true;
        }
        j += 1;
    }
    false
}

/// Whether some tag of `r` (ASCII-lowercased) is one of `tags`.
fn tags_overlap(r: &MemoryRecord, tags: &Vec<Vec<char>>) -> (b: bool)
    ensures
        b == (exists|i: int| 0 <= i < tags@.len()
            && ascii_lowercased(r.tags@).contains(#[trigger] tags@[i]@)),
{
    let mut rt: Vec<Vec<char>> = Vec::new();
    let mut k: usize = 0;
    while k < r.tags.len()
        invariant
            k <= r.tags.len(),
            rt@.map_values(|l: Vec<char>| l@) == ascii_lowercased(r.tags@.take(k as int)),
        decreases r.tags.len() - k,
    {
        let c = chars_of(r.tags[k].as_str());
        let ghost before = rt@;
        rt.push(to_ascii_lowercase_chars(&c));
        proof {
            assert(rt@.map_values(|l: Vec<char>| l@) =~= before.map_values(|l: Vec<char>| l@).push(ascii_lowercase(r.tags@[k as int]@)));
            assert(ascii_lowercased(r.tags@.take(k + 1)) =~= ascii_lowercased(r.tags@.take(k as int)).push(ascii_lowercase(r.tags@[k as int]@)));
        }
        k += 1;
    }
    assert(r.tags@.take(r.tags.len() as int) =~= r.tags@);
    let mut i: usize = 0;
    while i < tags.len()
        invariant
            i <= tags.len(),
            rt@.map_values(|l: Vec<char>| l@) == ascii_lowercased(r.tags@),
            forall|j: int| 0 <= j < i ==> !ascii_lowercased(r.tags@).contains(#[trigger] tags@[j]@),
        decreases tags.len() - i,
    {
        if holds_chars(&rt, &tags[i]) {
            return true;
        }
        i += 1;
    }
    false
}

/// The haystack of a record.
fn haystack_of(r: &MemoryRecord) -> (out: Vec<char>)
    ensures
        out@ == haystack(*r),
{
    let mut out: Vec<char> = Vec::new();
    let s = to_lowercase(r.summary.as_str());
    extend_str(&mut out, s.as_str());
    out.push('\n');
    let d = to_lowercase(r.detail.as_str());
    extend_str(&mut out, d.as_str());
    out.push('\n');
    let mut parts: Vec<Vec<char>> = Vec::new();
    let mut k: usize = 0;
    while k < r.tags.len()
        invariant
            k <= r.tags.len(),
            parts@.map_values(|l: Vec<char>| l@) == views(r.tags@.take(k as int)),
        decreases r.tags.len() - k,
    {
        let ghost before = parts@;
        parts.push(chars_of(r.tags[k].as_str()));
        proof {
            assert(parts@.map_values(|l: Vec<char>| l@) =~= before.map_values(|l: Vec<char>| l@).push(r.tags@[k as int]@));
            assert(views(r.tags@.take(k + 1)) =~= views(r.tags@.take(k as int)).push(r.tags@[k as int]@));
        }
        k += 1;
    }
    assert(r.tags@.take(r.tags.len() as int) =~= r.tags@);
    let sep = vec![' '];
    let joined = join_chars(&parts, &sep);
    let js = string_of(&joined);
    let jl = to_lowercase(js.as_str());
    extend_str(&mut out, jl.as_str());
    assert(sep@ =~= seq![' ']);
    assert(out@ =~= haystack(*r));
    out
}

/// Whether the text part of a query selects `r`.
fn text_selects(r: &MemoryRecord, terms: &Vec<String>, raw: &[char]) -> (b: bool)
    ensures
        b == text_matches(*r, views(terms@), raw@),
{
    if terms.len() == 0 && raw.len() == 0 {
        return true;
    }
    let hay = haystack_of(r);
    let mut i: usize = 0;
    while i < terms.len()
        invariant
            i <= terms.len(),
            hay@ == haystack(*r),
            forall|j: int| 0 <= j < i ==> !contains(haystack(*r), #[trigger] views(terms@)[j]),
        decreases terms.len() - i,
    {
        let t = chars_of(terms[i].as_str());
        if contains_chars(&hay, &t) {
            assert(views(terms@)[i as int] == t@);
            return true;
        }
        i += 1;
    }
    raw.len() > 0 && contains_chars(&hay, raw)
}

/// The parts of a query computed once per query.
struct PreparedQuery {
    terms: Vec<String>,
    raw: Vec<char>,
    tags: Vec<Vec<char>>,
    types: Vec<Vec<char>>,
}

fn prepare_query(q: &MemoryQuery) -> (p: PreparedQuery)
    ensures
        views(p.terms@) == query_terms(*q),
        p.raw@ == query_raw(*q),
        p.tags@.map_values(|l: Vec<char>| l@) == lowercased(q.tags@),
        p.types@.map_values(|l: Vec<char>| l@) == lowercased(q.types@),
{
    let (terms, raw) = match &q.text {
        Some(t) => {
            let l = to_lowercase(t.as_str());
            (tokenize(t.as_str()), chars_of(l.as_str()))
        },
        None => {
            let e: Vec<String> = Vec::new();
            assert(views(e@) =~= Seq::<Seq<char>>::empty());
            (e, Vec::new())
        },
    };
    PreparedQuery { terms, raw, tags: lowercase_all(&q.tags), types: lowercase_all(&q.types) }
}

/// Whether a prepared query selects `r`.
fn selects(r: &MemoryRecord, q: &MemoryQuery, p: &PreparedQuery) -> (b: bool)
    requires
        views(p.terms@) == query_terms(*q),
        p.raw@ == query_raw(*q),
        p.tags@.map_values(|l: Vec<char>| l@) == lowercased(q.tags@),
        p.types@.map_values(|l: Vec<char>| l@) == lowercased(q.types@),
    ensures
        b == record_matches(*r, *q),
{
    if !q.include_non_accepted && !r.is_accepted() {
        return false;
    }
    if let Some(ch) = &q.channel_scope {
        let a = chars_of(r.source.channel_id.as_str());
        let b = chars_of(ch.as_str());
        if !eq_chars(&a, &b) {
            return false;
        }
    }
    assert(p.types@.len() == lowercased(q.types@).len());
    assert(p.tags@.map_values(|l: Vec<char>| l@).len() == p.tags@.len());
    assert(lowercased(q.tags@).len() == q.tags@.len());
    assert(p.tags@.len() == q.tags@.len());
    if p.types.len() > 0 {
        let rt = chars_of(r.record_type.as_str());
        let rl = to_ascii_lowercase_chars(&rt);
        if !holds_chars(&p.types, &rl) {
            return false;
        }
    }
    if p.tags.len() > 0 {
        let ov = tags_overlap(r, &p.tags);
        proof {
            let lt = lowercased(q.tags@);
            assert forall|i: int| 0 <= i < p.tags@.len() implies p.tags@[i]@ == #[trigger] lt[i] by {
                assert(p.tags@.map_values(|l: Vec<char>| l@)[i] == p.tags@[i]@);
            }
        }
        if !ov {
            proof {
                let lt = lowercased(q.tags@);
                assert forall|i: int| 0 <= i < q.tags@.len() implies !ascii_lowercased(r.tags@).contains(#[trigger] lt[i]) by {
                    assert(p.tags@[i]@ == lt[i]);
                }
            }
            return false;
        }
        proof {
            let lt = lowercased(q.tags@);
            let i = choose|i: int| 0 <= i < p.tags@.len() && ascii_lowercased(r.tags@).contains(#[trigger] p.tags@[i]@);
            assert(p.tags@[i]@ == lt[i]);
        }
    }
    let t = text_selects(r, &p.terms, &p.raw);
    t
}

/// The records of a store's loaded contents a query returns: sorted newest
/// first, filtered by status, channel, type, tags and text, and cut to the
/// limit.
pub fn recall(loaded: Vec<MemoryRecord>, q: &MemoryQuery) -> (out: Vec<MemoryRecord>)
    ensures
        out@ == limited(matching(newest_first(loaded@), *q), q.limit as nat),
{
    let sorted = sort_newest_first(loaded);
    let p = prepare_query(q);
    let ghost orig = sorted@;
    let n = sorted.len();
    let mut rest = sorted;
    let mut out: Vec<MemoryRecord> = Vec::new();
    let mut k: usize = 0;
    assert(orig.skip(0) =~= orig);
    while rest.len() > 0
        invariant
            k <= orig.len(),
            orig.len() == k + rest.len(),
            orig.len() == n,
            rest@ == orig.skip(k as int),
            out@ == matching(orig.take(k as int), *q),
            views(p.terms@) == query_terms(*q),
            p.raw@ == query_raw(*q),
            p.tags@.map_values(|l: Vec<char>| l@) == lowercased(q.tags@),
            p.types@.map_values(|l: Vec<char>| l@) == lowercased(q.types@),
        decreases rest.len(),
    {
        let r = rest.remove(0);
        proof {
            assert(orig.take(k + 1).drop_last() =~= orig.take(k as int));
            assert(orig.take(k + 1).last() == r);
            assert(rest@ =~= orig.skip(k + 1));
        }
        if selects(&r, q, &p) {
            out.push(r);
        }
        k += 1;
    }
    assert(orig.take(k as int) =~= orig);
    if q.limit > 0 && out.len() > q.limit {
        out.truncate(q.limit);
    }
    out
}

/// The most recent accepted records of a store's loaded contents, newest
/// first, at most `limit` of them.
pub fn list_recent(loaded: Vec<MemoryRecord>, limit: usize) -> (out: Vec<MemoryRecord>)
    ensures
        limit == 0 ==> out@.len() == 0,
        limit > 0 ==> out@ == limited(accepted_only(newest_first(loaded@)), limit as nat),
{
    if limit == 0 {
        return Vec::new();
    }
    let sorted = sort_newest_first(loaded);
    let ghost orig = sorted@;
    let n = sorted.len();
    let mut rest = sorted;
    let mut out: Vec<MemoryRecord> = Vec::new();
    let mut k: usize = 0;
    assert(orig.skip(0) =~= orig);
    while rest.len() > 0
        invariant
            k <= orig.len(),
            orig.len() == k + rest.len(),
            orig.len() == n,
            rest@ == orig.skip(k as int),
            out@ == accepted_only(orig.take(k as int)),
        decreases rest.len(),
    {
        let r = rest.remove(0);
        proof {
            assert(orig.take(k + 1).drop_last() =~= orig.take(k as int));
            assert(orig.take(k + 1).last() == r);
            assert(rest@ =~= orig.skip(k + 1));
        }
        if r.is_accepted() {
            out.push(r);
        }
        k += 1;
    }
    assert(orig.take(k as int) =~= orig);
    if out.len() > limit {
        out.truncate(limit);
    }
    out
}

/// The first loaded record with id `id`.
pub fn find_record(loaded: Vec<MemoryRecord>, id: &str) -> (out: Option<MemoryRecord>)
    ensures
        out == first_with_id(newest_first(loaded@), id@),
{
    let sorted = sort_newest_first(loaded);
    let ghost orig = sorted@;
    let n = sorted.len();
    let idc = chars_of(id);
    let mut rest = sorted;
    let mut k: usize = 0;
    assert(orig.skip(0) =~= orig);
    while rest.len() > 0
        invariant
            k <= orig.len(),
            orig.len() == k + rest.len(),
            orig.len() == n,
            rest@ == orig.skip(k as int),
            idc@ == id@,
            orig == newest_first(loaded@),
            first_with_id(orig, id@) == first_with_id(orig.skip(k as int), id@),
        decreases rest.len(),
    {
        let ghost rk = rest@;
        let r = rest.remove(0);
        assert(r == rk[0]);
        let rc = chars_of(r.id.as_str());
        if eq_chars(&rc, &idc) {
            return Some(r);
        }
        proof {
            assert(orig.skip(k as int).skip(1) =~= orig.skip(k + 1));
            assert(rest@ =~= orig.skip(k + 1));
        }
        k += 1;
    }
    None
}

/// Pluggable persistence for memory records.
///
/// Implementations decide where records live; the JSONL store's
/// ordering and filtering decisions are [`list_recent`], [`find_record`]
/// and [`recall`] above, which an implementation applies to what it loaded.
pub trait MemoryStore: Send + Sync {
    /// Recent accepted records, newest first.
    fn list_recent(&self, limit: usize) -> Result<Vec<MemoryRecord>, String>;

    /// Lookup by id; `Ok(None)` if absent.
    fn get(&self, id: &str) -> Result<Option<MemoryRecord>, String>;

    /// Filtered scan.
    fn query(&self, query: &MemoryQuery) -> Result<Vec<MemoryRecord>, String>;

    /// Append a single record, flushed before return.
    fn append(&self, record: &MemoryRecord) -> Result<(), String>;
}

} // verus!
