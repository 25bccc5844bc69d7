//! Health observation of a provider process: an idle timer and a sliding
//! window of output-line hashes for repetition detection. The observer
//! only decides which status to report and when; the caller reads the
//! clock, feeds it lines, and sends the statuses.

use vstd::prelude::*;

use crate::text::{chars_of, decimal, extend_str, push_decimal, string_of, trim, trim_chars, utf8_len};

verus! {

/// How often the same line may appear in the window before a warning.
pub const REPETITION_THRESHOLD: usize = 20;
/// The most recent lines kept.
pub const WINDOW_SIZE: usize = 100;
/// Seconds without output before the first idle report.
pub const IDLE_WARNING_SECS: u64 = 60;
/// Shorter (trimmed, in bytes) lines are not tracked.
pub const MIN_LINE_LEN: usize = 4;

/// The hash of a line, as `DefaultHasher::new()` computes it.
pub uninterp spec fn line_hash(s: Seq<char>) -> u64;

/// Hashes a line with `std::collections::hash_map::DefaultHasher::new()`
/// (fixed keys, the same in every process); the contract names the result.
#[verifier::external_body]
fn hash_line(line: &str) -> (h: u64)
    ensures
        h == line_hash(line@),
{
    let mut hasher = std::collections::hash_map::DefaultHasher::new();
    std::hash::Hash::hash(line, &mut hasher);
    std::hash::Hasher::finish(&hasher)
}

/// The observer's state. Times are milliseconds on the caller's monotonic
/// clock.
#[derive(Debug, Clone)]
pub struct HealthObserver {
    pub last_activity_ms: u64,
    pub last_health_report_ms: u64,
    /// Hashes of recent tracked lines, oldest first.
    pub recent_hashes: Vec<u64>,
    /// The dominant hash a repetition warning was last given for.
    pub repetition_fired_for: Option<u64>,
}

/// How often `h` occurs in `s`.
pub open spec fn occurrences(s: Seq<u64>, h: u64) -> nat
    decreases s.len(),
{
    if s.len() == 0 {
        0
    } else {
        occurrences(s.drop_last(), h) + if s.last() == h { 1nat } else { 0nat }
    }
}

/// Among the first `k` hashes, the earliest with the highest count, and
/// that count; `(0, 0)` when there are none.
pub open spec fn best(s: Seq<u64>, k: int) -> (u64, nat)
    decreases k,
{
    if k <= 0 {
        (0, 0)
    } else {
        let (d, c) = best(s, k - 1);
        let ck = occurrences(s, s[k - 1]);
        if ck > c { (s[k - 1], ck) } else { (d, c) }
    }
}

/// The most frequent hash of the window and its count.
pub open spec fn dominant(s: Seq<u64>) -> (u64, nat) {
    best(s, s.len() as int)
}

/// The warning text for a repetition.
pub open spec fn repetition_message(count: nat, len: nat) -> Seq<char> {
    "repeating output x"@ + decimal(count) + " in last "@ + decimal(len) + " lines"@
}

/// `a - b`, or 0.
pub open spec fn elapsed(now: u64, then: u64) -> nat {
    if now >= then { (now - then) as nat } else { 0 }
}

/// The window after a line is observed.
pub open spec fn observed_window(w: Seq<u64>, line: Seq<char>) -> Seq<u64> {
    if utf8_len(trim(line)) >= MIN_LINE_LEN {
        let base = if w.len() >= WINDOW_SIZE { w.skip(1) } else { w };
        base.push(line_hash(trim(line)))
    } else {
        w
    }
}

/// Whether a repetition check of window `w` warns, given the dominant hash
/// a warning was last given for: the window holds enough lines, its
/// dominant line repeats at least the threshold, and it was not already
/// reported.
pub open spec fn repetition_warning(w: Seq<u64>, fired: Option<u64>) -> bool {
    w.len() >= REPETITION_THRESHOLD && dominant(w).1 >= REPETITION_THRESHOLD && fired != Some(dominant(w).0)
}

/// The dominant hash remembered after a repetition check: set by a
/// warning, cleared once the repetition falls under the threshold.
pub open spec fn fired_after_check(w: Seq<u64>, fired: Option<u64>) -> Option<u64> {
    if w.len() < REPETITION_THRESHOLD {
        fired
    } else if dominant(w).1 >= REPETITION_THRESHOLD {
        if repetition_warning(w, fired) { Some(dominant(w).0) } else { fired }
    } else {
        None
    }
}

impl HealthObserver {
    /// An observer started at `now_ms`.
    pub fn new(now_ms: u64) -> (o: Self)
        ensures
            o.last_activity_ms == now_ms,
            o.last_health_report_ms == now_ms,
            o.recent_hashes@.len() == 0,
            o.repetition_fired_for is None,
    {
        HealthObserver {
            last_activity_ms: now_ms,
            last_health_report_ms: now_ms,
            recent_hashes: Vec::new(),
            repetition_fired_for: None,
        }
    }

    /// Record a stdout line; `had_output` (the line produced text or a
    /// finish) resets the idle timer.
    pub fn observe_stdout(&mut self, raw_line: &str, had_output: bool, now_ms: u64)
        requires
            old(self).recent_hashes@.len() <= WINDOW_SIZE,
        ensures
            final(self).last_activity_ms == (if had_output { now_ms } else { old(self).last_activity_ms }),
            final(self).last_health_report_ms == old(self).last_health_report_ms,
            final(self).repetition_fired_for == old(self).repetition_fired_for,
            final(self).recent_hashes@ == observed_window(old(self).recent_hashes@, raw_line@),
            final(self).recent_hashes@.len() <= WINDOW_SIZE,
    {
        if had_output {
            self.last_activity_ms = now_ms;
        }
        let t = trim_chars(&chars_of(raw_line));
        if crate::text::utf8_len_at_least(&t, MIN_LINE_LEN) {
            let ts = string_of(&t);
            let h = hash_line(ts.as_str());
            if self.recent_hashes.len() >= WINDOW_SIZE {
                self.recent_hashes.remove(0);
            }
            self.recent_hashes.push(h);
        }
    }

    /// Stderr lines are informational and change nothing.
    pub fn observe_stderr(&mut self, _raw_line: &str)
        ensures
            *final(self) == *old(self),
    {
    }

    /// Check the window for a repeated line. Reports once per dominant line
    /// until the repetition falls under the threshold.
    pub fn check_repetition(&mut self) -> (r: Option<String>)
        ensures
            final(self).last_activity_ms == old(self).last_activity_ms,
            final(self).last_health_report_ms == old(self).last_health_report_ms,
            final(self).recent_hashes@ == old(self).recent_hashes@,
            final(self).repetition_fired_for == fired_after_check(old(self).recent_hashes@, old(self).repetition_fired_for),
            repetition_warning(old(self).recent_hashes@, old(self).repetition_fired_for) ==> (r matches Some(m)
                && m@ == repetition_message(dominant(old(self).recent_hashes@).1, old(self).recent_hashes@.len())),
            !repetition_warning(old(self).recent_hashes@, old(self).repetition_fired_for) ==> r is None,
    {
        let n = self.recent_hashes.len();
        if n < REPETITION_THRESHOLD {
            return None;
        }
        let (d, c) = dominant_exec(&self.recent_hashes);
        if c >= REPETITION_THRESHOLD {
            let already = match self.repetition_fired_for {
                Some(x) => x == d,
                None => false,
            };
            if !already {
                self.repetition_fired_for = Some(d);
                let mut m: Vec<char> = Vec::new();
                extend_str(&mut m, "repeating output x");
                push_decimal(&mut m, c as u64);
                extend_str(&mut m, " in last ");
                push_decimal(&mut m, n as u64);
                extend_str(&mut m, " lines");
                return Some(string_of(&m));
            }
        } else {
            self.repetition_fired_for = None;
        }
        None
    }
}

/// The count of `h` in `s`.
fn count_of(s: &Vec<u64>, h: u64) -> (c: usize)
    ensures
        c == occurrences(s@, h),
{
    let mut c: usize = 0;
    let mut i: usize = 0;
    while i < s.len()
        invariant
            i <= s.len(),
            c == occurrences(s@.take(i as int), h),
            c <= i,
        decreases s.len() - i,
    {
        proof {
            assert(s@.take(i + 1).drop_last() =~= s@.take(i as int));
        }
        if s[i] == h {
            c += 1;
        }
        i += 1;
    }
    assert(s@.take(s.len() as int) =~= s@);
    c
}

/// The most frequent hash and its count.
fn dominant_exec(s: &Vec<u64>) -> (r: (u64, usize))
    ensures
        r.0 == dominant(s@).0,
        r.1 == dominant(s@).1,
{
    let mut d: u64 = 0;
    let mut c: usize = 0;
    let mut k: usize = 0;
    while k < s.len()
        invariant
            k <= s.len(),
            (d, c as nat) == best(s@, k as int),
        decreases s.len() - k,
    {
        let ck = count_of(s, s[k]);
        if ck > c {
            d = s[k];
            c = ck;
        }
        k += 1;
    }
    (d, c)
}

/// The idle report text.
pub open spec fn idle_message(secs: nat) -> Seq<char> {
    "health: idle ["@ + decimal(secs) + "s]"@
}

impl HealthObserver {
    /// One iteration of the read loop at time `now_ms`: the status to
    /// report, if any. A repetition warning comes first; then, idle for five
    /// minutes or more, an idle report at most every two minutes; idle for a
    /// minute or more, one at most every minute; and while output flows, an
    /// active report at most every thirty seconds.
    pub fn tick(&mut self, now_ms: u64) -> (r: Option<String>)
        ensures
            final(self).recent_hashes@ == old(self).recent_hashes@,
            final(self).last_activity_ms == old(self).last_activity_ms,
            final(self).repetition_fired_for == fired_after_check(old(self).recent_hashes@, old(self).repetition_fired_for),
            ({
                let w = old(self).recent_hashes@;
                let c = dominant(w).1;
                let idle = elapsed(now_ms, old(self).last_activity_ms) / 1000;
                let since = elapsed(now_ms, old(self).last_health_report_ms);
                if repetition_warning(w, old(self).repetition_fired_for) {
                    &&& r matches Some(m) && m@ == "health: warning ["@ + repetition_message(c, w.len()) + "]"@
                    &&& final(self).last_health_report_ms == now_ms
                } else if idle >= 300 {
                    if since >= 120000 {
                        (r matches Some(m) && m@ == idle_message(idle)) && final(self).last_health_report_ms == now_ms
                    } else {
                        r is None && final(self).last_health_report_ms == old(self).last_health_report_ms
                    }
                } else if idle >= IDLE_WARNING_SECS && since >= 60000 {
                    (r matches Some(m) && m@ == idle_message(idle)) && final(self).last_health_report_ms == now_ms
                } else if idle == 0 && since >= 30000 {
                    (r matches Some(m) && m@ == "health: active"@) && final(self).last_health_report_ms == now_ms
                } else {
                    r is None && final(self).last_health_report_ms == old(self).last_health_report_ms
                }
            }),
    {
        let idle: u64 = if now_ms >= self.last_activity_ms { (now_ms - self.last_activity_ms) / 1000 } else { 0 };
        let since: u64 = if now_ms >= self.last_health_report_ms { now_ms - self.last_health_report_ms } else { 0 };
        if let Some(m) = self.check_repetition() {
            let mut s: Vec<char> = Vec::new();
            extend_str(&mut s, "health: warning [");
            extend_str(&mut s, m.as_str());
            extend_str(&mut s, "]");
            self.last_health_report_ms = now_ms;
            return Some(string_of(&s));
        }
        if idle >= 300 {
            if since >= 120000 {
                self.last_health_report_ms = now_ms;
                return Some(idle_text(idle));
            }
            return None;
        }
        if idle >= IDLE_WARNING_SECS && since >= 60000 {
            self.last_health_report_ms = now_ms;
            return Some(idle_text(idle));
        }
        if idle == 0 && since >= 30000 {
            self.last_health_report_ms = now_ms;
            return Some("health: active".to_owned());
        }
        None
    }
}

fn idle_text(secs: u64) -> (s: String)
    ensures
        s@ == idle_message(secs as nat),
{
    let mut m: Vec<char> = Vec::new();
    extend_str(&mut m, "health: idle [");
    push_decimal(&mut m, secs);
    extend_str(&mut m, "s]");
    string_of(&m)
}

/// A repeated line is reported once: whatever a repetition check returned,
/// a second check of the same window gives no warning. A new warning needs
/// a new dominant line, or the repetition to fall under the threshold in
/// between.
pub proof fn law_repetition_reported_once(w: Seq<u64>, fired: Option<u64>)
    ensures
        !repetition_warning(w, fired_after_check(w, fired)),
{
}

/// A warning is given again for the same line only after the repetition
/// fell under the threshold: a check that finds the line under the
/// threshold forgets it.
pub proof fn law_repetition_rearms_below_threshold(w: Seq<u64>, fired: Option<u64>)
    requires
        w.len() >= REPETITION_THRESHOLD,
        dominant(w).1 < REPETITION_THRESHOLD,
    ensures
        fired_after_check(w, fired) is None,
{
}

} // verus!
