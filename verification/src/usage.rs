//! Token usage arithmetic: estimation from text, accumulation across turn
//! segments, and normalisation of the total.

use vstd::prelude::*;

use crate::text::{char_is_ascii_ws, char_is_whitespace, chars_of, is_ascii_char, is_ascii_ws, white_space};

verus! {

/// Token counts reported (or estimated) for a turn. Every count is optional:
/// providers report different subsets.
#[derive(Debug, Clone, PartialEq, Eq)]
pub struct TokenUsage {
    pub input_tokens: Option<u64>,
    pub output_tokens: Option<u64>,
    pub total_tokens: Option<u64>,
    pub cache_creation_input_tokens: Option<u64>,
    pub cache_read_input_tokens: Option<u64>,
    pub reasoning_tokens: Option<u64>,
    pub estimated: bool,
}

impl Default for TokenUsage {
    fn default() -> (u: Self)
        ensures
            u == empty_usage(),
    {
        TokenUsage {
            input_tokens: None,
            output_tokens: None,
            total_tokens: None,
            cache_creation_input_tokens: None,
            cache_read_input_tokens: None,
            reasoning_tokens: None,
            estimated: false,
        }
    }
}

/// A usage with no counts.
pub open spec fn empty_usage() -> TokenUsage {
    TokenUsage {
        input_tokens: None,
        output_tokens: None,
        total_tokens: None,
        cache_creation_input_tokens: None,
        cache_read_input_tokens: None,
        reasoning_tokens: None,
        estimated: false,
    }
}

// ───────────────────────── estimation ─────────────────────────

/// `n` divided by four, rounded up.
pub open spec fn quarter_up(n: nat) -> nat {
    ((n + 3) / 4) as nat
}

/// Scan state of the estimator after `s`: tokens counted so far and the
/// length of the current run of visible ASCII characters.
pub open spec fn estimate_state(s: Seq<char>) -> (nat, nat)
    decreases s.len(),
{
    if s.len() == 0 {
        (0, 0)
    } else {
        let (total, run) = estimate_state(s.drop_last());
        let c = s.last();
        if is_ascii_char(c) && !is_ascii_ws(c) {
            (total, run + 1)
        } else {
            let flushed = total + quarter_up(run);
            (if white_space(c) { flushed } else { flushed + 1 }, 0)
        }
    }
}

/// Estimated token count: each run of visible ASCII characters counts one
/// token per four characters (rounded up), every other character that is
/// not white space counts one token.
pub open spec fn estimated_tokens(s: Seq<char>) -> nat {
    estimate_state(s).0 + quarter_up(estimate_state(s).1)
}

proof fn lemma_estimate_state_bound(s: Seq<char>)
    ensures
        estimate_state(s).0 + estimate_state(s).1 <= s.len(),
    decreases s.len(),
{
    if s.len() > 0 {
        lemma_estimate_state_bound(s.drop_last());
    }
}

/// One character of the estimator's scan.
pub open spec fn estimate_step(st: (nat, nat), c: char) -> (nat, nat) {
    if is_ascii_char(c) && !is_ascii_ws(c) {
        (st.0, st.1 + 1)
    } else {
        let flushed = st.0 + quarter_up(st.1);
        (if white_space(c) { flushed } else { flushed + 1 }, 0)
    }
}

/// The scan of `s` from state `st`.
pub open spec fn estimate_from(st: (nat, nat), s: Seq<char>) -> (nat, nat)
    decreases s.len(),
{
    if s.len() == 0 { st } else { estimate_step(estimate_from(st, s.drop_last()), s.last()) }
}

proof fn lemma_estimate_from_start(s: Seq<char>)
    ensures
        estimate_state(s) == estimate_from((0, 0), s),
    decreases s.len(),
{
    if s.len() > 0 {
        lemma_estimate_from_start(s.drop_last());
    }
}

proof fn lemma_estimate_from_concat(st: (nat, nat), a: Seq<char>, b: Seq<char>)
    ensures
        estimate_from(st, a + b) == estimate_from(estimate_from(st, a), b),
    decreases b.len(),
{
    if b.len() == 0 {
        assert(a + b =~= a);
    } else {
        assert((a + b).drop_last() =~= a + b.drop_last());
        lemma_estimate_from_concat(st, a, b.drop_last());
    }
}

proof fn lemma_estimate_from_shift(t: nat, r: nat, b: Seq<char>)
    ensures
        estimate_from((t, r), b).0 == t + estimate_from((0, r), b).0,
        estimate_from((t, r), b).1 == estimate_from((0, r), b).1,
    decreases b.len(),
{
    if b.len() > 0 {
        lemma_estimate_from_shift(t, r, b.drop_last());
    }
}

proof fn lemma_quarter_up_sub(x: nat, y: nat)
    ensures
        quarter_up(x + y) <= quarter_up(x) + quarter_up(y),
{
    assert(((x + y + 3) / 4) <= ((x + 3) / 4) + ((y + 3) / 4)) by (nonlinear_arith);
}

proof fn lemma_estimate_from_run(r: nat, b: Seq<char>)
    ensures
        ({
            let (t, rr) = estimate_from((0, r), b);
            let (t0, r0) = estimate_from((0, 0), b);
            (rr == r + r0 && t == t0) || (rr == r0 && t <= t0 + quarter_up(r))
        }),
    decreases b.len(),
{
    if b.len() > 0 {
        lemma_estimate_from_run(r, b.drop_last());
        let (t, rr) = estimate_from((0, r), b.drop_last());
        let (t0, r0) = estimate_from((0, 0), b.drop_last());
        if (rr == r + r0 && t == t0) {
            lemma_quarter_up_sub(r, r0);
        }
    }
}

/// Law: joining two texts with a space adds their estimates.
pub proof fn law_estimate_space_join(a: Seq<char>, b: Seq<char>)
    ensures
        estimated_tokens(a + seq![' '] + b) == estimated_tokens(a) + estimated_tokens(b),
{
    lemma_estimate_from_start(a + seq![' '] + b);
    lemma_estimate_from_start(a);
    lemma_estimate_from_start(b);
    lemma_estimate_from_concat((0, 0), a + seq![' '], b);
    lemma_estimate_from_concat((0, 0), a, seq![' ']);
    assert(seq![' '].drop_last() =~= Seq::<char>::empty());
    let sa = estimate_from((0, 0), a);
    assert(seq![' '].last() == ' ');
    assert(estimate_from(sa, seq![' ']) == estimate_step(estimate_from(sa, Seq::<char>::empty()), ' '));
    assert(is_ascii_ws(' ') && white_space(' '));
    assert(estimate_from(sa, seq![' ']) == (sa.0 + quarter_up(sa.1), 0nat));
    lemma_estimate_from_shift(sa.0 + quarter_up(sa.1), 0, b);
}

/// Law: the estimate of two texts run together is at most the sum of
/// their estimates (a run of visible ASCII across the join may merge).
pub proof fn law_estimate_subadditive(a: Seq<char>, b: Seq<char>)
    ensures
        estimated_tokens(a + b) <= estimated_tokens(a) + estimated_tokens(b),
{
    lemma_estimate_from_start(a + b);
    lemma_estimate_from_start(a);
    lemma_estimate_from_start(b);
    lemma_estimate_from_concat((0, 0), a, b);
    let sa = estimate_from((0, 0), a);
    lemma_estimate_from_shift(sa.0, sa.1, b);
    lemma_estimate_from_run(sa.1, b);
    let (t0, r0) = estimate_from((0, 0), b);
    lemma_quarter_up_sub(sa.1, r0);
}

/// Estimate the token count of `text` (see [`estimated_tokens`]).
pub fn estimate_tokens(text: &str) -> (n: u64)
    ensures
        n == estimated_tokens(text@),
        n <= text@.len(),
{
    let cs = chars_of(text);
    let mut total: u64 = 0;
    let mut ascii_run: u64 = 0;
    let mut i: usize = 0;
    while i < cs.len()
        invariant
            i <= cs.len(),
            cs@ == text@,
            (total as nat, ascii_run as nat) == estimate_state(cs@.take(i as int)),
            total + ascii_run <= i,
        decreases cs.len() - i,
    {
        let ch = cs[i];
        proof {
            assert(cs@.take(i + 1).drop_last() =~= cs@.take(i as int));
        }
        if (ch as u32) < 128 && !char_is_ascii_ws(ch) {
            ascii_run += 1;
        } else {
            if ascii_run > 0 {
                total += ascii_run / 4 + if ascii_run % 4 == 0 { 0 } else { 1 };
                ascii_run = 0;
            }
            if !char_is_whitespace(ch) {
                total += 1;
            }
        }
        i += 1;
    }
    if ascii_run > 0 {
        total += ascii_run / 4 + if ascii_run % 4 == 0 { 0 } else { 1 };
    }
    assert(cs@.take(cs.len() as int) =~= cs@);
    total
}

// ───────────────────────── accumulation ─────────────────────────

/// Sum of two optional counts; absent counts contribute nothing.
pub open spec fn opt_sum(left: Option<u64>, right: Option<u64>) -> Option<int> {
    match (left, right) {
        (Some(l), Some(r)) => Some(l + r),
        (Some(l), None) => Some(l as int),
        (None, Some(r)) => Some(r as int),
        (None, None) => None,
    }
}

/// The optional count as a mathematical integer.
pub open spec fn opt_int(v: Option<u64>) -> Option<int> {
    match v {
        Some(x) => Some(x as int),
        None => None,
    }
}

/// The sum fits in a `u64`.
pub open spec fn opt_sum_fits(left: Option<u64>, right: Option<u64>) -> bool {
    match opt_sum(left, right) {
        Some(v) => v <= u64::MAX,
        None => true,
    }
}

/// Add two optional counts: `None` only when both are `None`.
pub fn add_opt(left: Option<u64>, right: Option<u64>) -> (r: Option<u64>)
    requires
        opt_sum_fits(left, right),
    ensures
        opt_int(r) == opt_sum(left, right),
{
    match (left, right) {
        (Some(left), Some(right)) => Some(left + right),
        (Some(left), None) => Some(left),
        (None, Some(right)) => Some(right),
        (None, None) => None,
    }
}

/// The component counts whose sum stands in for a missing total.
pub open spec fn component_sum(u: TokenUsage) -> Option<int> {
    if u.input_tokens is None && u.output_tokens is None && u.cache_creation_input_tokens is None
        && u.cache_read_input_tokens is None && u.reasoning_tokens is None {
        None
    } else {
        Some(
            (match u.input_tokens { Some(v) => v as int, None => 0 })
            + (match u.output_tokens { Some(v) => v as int, None => 0 })
            + (match u.cache_creation_input_tokens { Some(v) => v as int, None => 0 })
            + (match u.cache_read_input_tokens { Some(v) => v as int, None => 0 })
            + (match u.reasoning_tokens { Some(v) => v as int, None => 0 }),
        )
    }
}

/// The reported total, or else the sum of the reported components
/// (`None` when nothing at all was reported).
pub open spec fn total_of(u: TokenUsage) -> Option<int> {
    match u.total_tokens {
        Some(t) => Some(t as int),
        None => component_sum(u),
    }
}

/// Law: a usage without a reported total is totalled over all five
/// components (input, output, cache-creation input, cache-read input and
/// reasoning tokens): changing any present component changes the total by
/// the same amount, and a component reported alone is the total.
pub proof fn law_total_counts_every_component(a: TokenUsage, b: TokenUsage)
    requires
        a.total_tokens is None,
        b.total_tokens is None,
        a.input_tokens is Some && a.output_tokens is Some && a.cache_creation_input_tokens is Some
            && a.cache_read_input_tokens is Some && a.reasoning_tokens is Some,
        b.input_tokens is Some && b.output_tokens is Some && b.cache_creation_input_tokens is Some
            && b.cache_read_input_tokens is Some && b.reasoning_tokens is Some,
    ensures
        total_of(b)->0 - total_of(a)->0 == (b.input_tokens->0 - a.input_tokens->0)
            + (b.output_tokens->0 - a.output_tokens->0)
            + (b.cache_creation_input_tokens->0 - a.cache_creation_input_tokens->0)
            + (b.cache_read_input_tokens->0 - a.cache_read_input_tokens->0)
            + (b.reasoning_tokens->0 - a.reasoning_tokens->0),
        total_of(a) is Some && total_of(b) is Some,
{
}

/// Law: a usage that reports no total and exactly one component has that
/// component as its total; one that reports nothing has no total.
pub proof fn law_single_component_total(u: TokenUsage)
    requires
        u.total_tokens is None,
    ensures
        (u.output_tokens is None && u.cache_creation_input_tokens is None && u.cache_read_input_tokens is None
            && u.reasoning_tokens is None && u.input_tokens is Some) ==> total_of(u) == Some(u.input_tokens->0 as int),
        (u.input_tokens is None && u.cache_creation_input_tokens is None && u.cache_read_input_tokens is None
            && u.reasoning_tokens is None && u.output_tokens is Some) ==> total_of(u) == Some(u.output_tokens->0 as int),
        (u.input_tokens is None && u.output_tokens is None && u.cache_read_input_tokens is None
            && u.reasoning_tokens is None && u.cache_creation_input_tokens is Some)
            ==> total_of(u) == Some(u.cache_creation_input_tokens->0 as int),
        (u.input_tokens is None && u.output_tokens is None && u.cache_creation_input_tokens is None
            && u.reasoning_tokens is None && u.cache_read_input_tokens is Some)
            ==> total_of(u) == Some(u.cache_read_input_tokens->0 as int),
        (u.input_tokens is None && u.output_tokens is None && u.cache_creation_input_tokens is None
            && u.cache_read_input_tokens is None && u.reasoning_tokens is Some)
            ==> total_of(u) == Some(u.reasoning_tokens->0 as int),
        (u.input_tokens is None && u.output_tokens is None && u.cache_creation_input_tokens is None
            && u.cache_read_input_tokens is None && u.reasoning_tokens is None) ==> total_of(u) is None,
{
}

/// Law: a reported total is kept as it is, whatever the components say.
pub proof fn law_reported_total_kept(u: TokenUsage)
    requires
        u.total_tokens is Some,
    ensures
        total_of(u) == Some(u.total_tokens->0 as int),
{
}

/// `total_of(u)` fits in a `u64`.
pub open spec fn total_fits(u: TokenUsage) -> bool {
    match total_of(u) {
        Some(t) => t <= u64::MAX,
        None => true,
    }
}

/// The total of `usage`: the reported one, or the sum of the components.
pub fn normalized_total(usage: &TokenUsage) -> (r: Option<u64>)
    requires
        total_fits(*usage),
    ensures
        opt_int(r) == total_of(*usage),
{
    if let Some(t) = usage.total_tokens {
        return Some(t);
    }
    let mut total: u64 = 0;
    let mut seen = false;
    if let Some(v) = usage.input_tokens {
        total = total + v;
        seen = true;
    }
    if let Some(v) = usage.output_tokens {
        total = total + v;
        seen = true;
    }
    if let Some(v) = usage.cache_creation_input_tokens {
        total = total + v;
        seen = true;
    }
    if let Some(v) = usage.cache_read_input_tokens {
        total = total + v;
        seen = true;
    }
    if let Some(v) = usage.reasoning_tokens {
        total = total + v;
        seen = true;
    }
    if seen {
        Some(total)
    } else {
        None
    }
}

/// `usage` with a missing total filled in from its components.
pub fn normalized_usage(usage: TokenUsage) -> (r: TokenUsage)
    requires
        total_fits(usage),
    ensures
        r == normalized(usage),
{
    let mut usage = usage;
    if usage.total_tokens.is_none() {
        usage.total_tokens = normalized_total(&usage);
    }
    usage
}

/// The optional integer as a `u64` count (`None` stays `None`).
pub open spec fn as_count(v: Option<int>) -> Option<u64> {
    match v {
        Some(x) => Some(x as u64),
        None => None,
    }
}

/// `u` with its total filled in.
pub open spec fn normalized(u: TokenUsage) -> TokenUsage {
    TokenUsage { total_tokens: as_count(total_of(u)), ..u }
}

/// All component additions of `add_usage` fit in a `u64`.
pub open spec fn can_add(total: TokenUsage, inc: TokenUsage) -> bool {
    &&& opt_sum_fits(total.input_tokens, inc.input_tokens)
    &&& opt_sum_fits(total.output_tokens, inc.output_tokens)
    &&& total_fits(inc)
    &&& opt_sum_fits(total.total_tokens, as_count(total_of(inc)))
    &&& opt_sum_fits(total.cache_creation_input_tokens, inc.cache_creation_input_tokens)
    &&& opt_sum_fits(total.cache_read_input_tokens, inc.cache_read_input_tokens)
    &&& opt_sum_fits(total.reasoning_tokens, inc.reasoning_tokens)
}

/// `total` after accumulating `inc`: every count summed, the total summed
/// with the increment's normalised total, `estimated` if either was.
pub open spec fn added(total: TokenUsage, inc: TokenUsage) -> TokenUsage {
    TokenUsage {
        input_tokens: as_count(opt_sum(total.input_tokens, inc.input_tokens)),
        output_tokens: as_count(opt_sum(total.output_tokens, inc.output_tokens)),
        total_tokens: as_count(opt_sum(total.total_tokens, as_count(total_of(inc)))),
        cache_creation_input_tokens: as_count(
            opt_sum(total.cache_creation_input_tokens, inc.cache_creation_input_tokens),
        ),
        cache_read_input_tokens: as_count(
            opt_sum(total.cache_read_input_tokens, inc.cache_read_input_tokens),
        ),
        reasoning_tokens: as_count(opt_sum(total.reasoning_tokens, inc.reasoning_tokens)),
        estimated: total.estimated || inc.estimated,
    }
}

/// Law: accumulating a usage into an empty one gives that usage with its
/// missing total filled in from its components.
pub proof fn law_add_to_empty(inc: TokenUsage)
    requires
        total_fits(inc),
    ensures
        added(empty_usage(), inc) == normalized(inc),
{
}

/// Law: accumulated counts are sums: each count of the result is the sum
/// of the two counts present, and the result's total is the running total
/// plus the increment's total (reported, or summed from its components).
pub proof fn law_added_sums(t: TokenUsage, inc: TokenUsage)
    requires
        can_add(t, inc),
        t.total_tokens is Some,
        t.input_tokens is Some && inc.input_tokens is Some,
        t.cache_creation_input_tokens is Some && inc.cache_creation_input_tokens is Some,
        total_of(inc) is Some,
    ensures
        added(t, inc).input_tokens->0 == t.input_tokens->0 + inc.input_tokens->0,
        added(t, inc).cache_creation_input_tokens->0 == t.cache_creation_input_tokens->0
            + inc.cache_creation_input_tokens->0,
        added(t, inc).total_tokens->0 == t.total_tokens->0 + total_of(inc)->0,
        added(t, inc).estimated == (t.estimated || inc.estimated),
{
}

proof fn lemma_as_count_opt_int(v: Option<u64>)
    ensures
        as_count(opt_int(v)) == v,
{
}

/// Accumulate `increment` into `total`.
pub fn add_usage(total: &mut TokenUsage, increment: &TokenUsage)
    requires
        can_add(*old(total), *increment),
    ensures
        *final(total) == added(*old(total), *increment),
{
    let inc_total = normalized_total(increment);
    total.input_tokens = add_opt(total.input_tokens, increment.input_tokens);
    total.output_tokens = add_opt(total.output_tokens, increment.output_tokens);
    proof {
        lemma_as_count_opt_int(inc_total);
    }
    total.total_tokens = add_opt(total.total_tokens, inc_total);
    total.cache_creation_input_tokens = add_opt(
        total.cache_creation_input_tokens,
        increment.cache_creation_input_tokens,
    );
    total.cache_read_input_tokens = add_opt(
        total.cache_read_input_tokens,
        increment.cache_read_input_tokens,
    );
    total.reasoning_tokens = add_opt(total.reasoning_tokens, increment.reasoning_tokens);
    total.estimated = total.estimated || increment.estimated;
}

/// Usage estimated from a known input size and the produced text.
pub fn estimated_usage(input_tokens: u64, output_text: &str) -> (u: TokenUsage)
    requires
        input_tokens + estimated_tokens(output_text@) <= u64::MAX,
    ensures
        u == (TokenUsage {
            input_tokens: Some(input_tokens),
            output_tokens: Some(estimated_tokens(output_text@) as u64),
            total_tokens: Some((input_tokens + estimated_tokens(output_text@)) as u64),
            estimated: true,
            ..empty_usage()
        }),
{
    let output_tokens = estimate_tokens(output_text);
    TokenUsage {
        input_tokens: Some(input_tokens),
        output_tokens: Some(output_tokens),
        total_tokens: Some(input_tokens + output_tokens),
        estimated: true,
        ..TokenUsage::default()
    }
}

// ───────────────────────── laws ─────────────────────────

proof fn lemma_opt_sum_swap(x: Option<u64>, a: Option<u64>, b: Option<u64>)
    requires
        opt_sum_fits(x, a),
        opt_sum_fits(as_count(opt_sum(x, a)), b),
        opt_sum_fits(x, b),
        opt_sum_fits(as_count(opt_sum(x, b)), a),
    ensures
        as_count(opt_sum(as_count(opt_sum(x, a)), b)) == as_count(opt_sum(as_count(opt_sum(x, b)), a)),
{
}

/// Accumulating two increments gives the same usage in either order.
pub proof fn law_add_usage_order_independent(t: TokenUsage, a: TokenUsage, b: TokenUsage)
    requires
        can_add(t, a),
        can_add(added(t, a), b),
        can_add(t, b),
        can_add(added(t, b), a),
    ensures
        added(added(t, a), b) == added(added(t, b), a),
{
    lemma_opt_sum_swap(t.input_tokens, a.input_tokens, b.input_tokens);
    lemma_opt_sum_swap(t.output_tokens, a.output_tokens, b.output_tokens);
    lemma_opt_sum_swap(t.total_tokens, as_count(total_of(a)), as_count(total_of(b)));
    lemma_opt_sum_swap(t.cache_creation_input_tokens, a.cache_creation_input_tokens, b.cache_creation_input_tokens);
    lemma_opt_sum_swap(t.cache_read_input_tokens, a.cache_read_input_tokens, b.cache_read_input_tokens);
    lemma_opt_sum_swap(t.reasoning_tokens, a.reasoning_tokens, b.reasoning_tokens);
}

/// Adding an empty increment changes nothing.
pub proof fn law_add_empty_is_identity(t: TokenUsage)
    ensures
        can_add(t, empty_usage()),
        added(t, empty_usage()) == t,
{
}

/// Normalising twice is the same as normalising once, and a normalised usage
/// reports a total exactly when it reports any count.
pub proof fn law_normalized_idempotent(u: TokenUsage)
    requires
        total_fits(u),
    ensures
        total_fits(normalized(u)),
        normalized(normalized(u)) == normalized(u),
        (normalized(u).total_tokens is Some) == (total_of(u) is Some),
{
}

} // verus!
