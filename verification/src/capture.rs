//! Capturing a provider's session id after a first run, by a configured
//! rule: a JSON path into stdout, or a file the provider wrote.

use vstd::prelude::*;

use crate::json::{json_path_lookup, path_values, texts, JsonValue};
use crate::text::{chars_of, ends_with, extend_chars, extend_str, slice_chars, starts_with, starts_with_chars, string_of, trim, trim_chars, views};

verus! {

/// The text a path selects in a document: the first selected value that
/// has one.
pub open spec fn path_text(root: JsonValue, path: Seq<char>) -> Option<Seq<char>> {
    let t = texts(path_values(root, path));
    if t.len() > 0 { Some(t[0]) } else { None }
}

/// The text of the first path, in order, that selects one.
pub open spec fn any_path_text(root: JsonValue, paths: Seq<Seq<char>>) -> Option<Seq<char>>
    decreases paths.len(),
{
    if paths.len() == 0 {
        None
    } else {
        match path_text(root, paths[0]) {
            Some(t) => Some(t),
            None => any_path_text(root, paths.skip(1)),
        }
    }
}

/// The text the last line that has one gives.
pub open spec fn last_line_text(lines: Seq<JsonValue>, paths: Seq<Seq<char>>) -> Option<Seq<char>>
    decreases lines.len(),
{
    if lines.len() == 0 {
        None
    } else {
        match any_path_text(lines.last(), paths) {
            Some(t) => Some(t),
            None => last_line_text(lines.drop_last(), paths),
        }
    }
}

/// The captured text: from stdout as one document when it is JSON and
/// gives one, else from its JSON lines (the last that gives one).
pub open spec fn captured_text(whole: Option<JsonValue>, lines: Seq<JsonValue>, paths: Seq<Seq<char>>) -> Option<Seq<char>> {
    match whole {
        Some(w) => match any_path_text(w, paths) {
            Some(t) => Some(t),
            None => last_line_text(lines, paths),
        },
        None => last_line_text(lines, paths),
    }
}

fn any_path(root: &JsonValue, paths: &Vec<String>) -> (r: Option<String>)
    ensures
        match r {
            Some(t) => any_path_text(*root, views(paths@)) == Some(t@),
            None => any_path_text(*root, views(paths@)) is None,
        },
{
    let ghost pv = views(paths@);
    assert(pv.skip(0) =~= pv);
    let mut i: usize = 0;
    while i < paths.len()
        invariant
            i <= paths.len(),
            pv == views(paths@),
            any_path_text(*root, pv.skip(i as int)) == any_path_text(*root, pv),
        decreases paths.len() - i,
    {
        assert(pv.skip(i as int)[0] == paths@[i as int]@);
        assert(pv.skip(i as int).skip(1) =~= pv.skip(i + 1));
        if let Some(t) = json_path_lookup(root, paths[i].as_str()) {
            return Some(t);
        }
        i += 1;
    }
    assert(pv.skip(i as int).len() == 0);
    None
}

/// The text the first of `paths` selects in stdout (see
/// [`captured_text`]); `whole` is stdout parsed as one document, `lines`
/// its lines that parse, in order.
pub fn extract_json_path_any(whole: Option<&JsonValue>, lines: &Vec<JsonValue>, paths: &Vec<String>) -> (r: Option<String>)
    ensures
        match r {
            Some(t) => captured_text(match whole { Some(w) => Some(*w), None => None }, lines@, views(paths@)) == Some(t@),
            None => captured_text(match whole { Some(w) => Some(*w), None => None }, lines@, views(paths@)) is None,
        },
{
    if let Some(w) = whole {
        if let Some(t) = any_path(w, paths) {
            return Some(t);
        }
    }
    let ghost wv = match whole { Some(w) => Some(*w), None => None };
    assert(captured_text(wv, lines@, views(paths@)) == last_line_text(lines@, views(paths@)));
    let mut k: usize = lines.len();
    assert(lines@.take(k as int) =~= lines@);
    while k > 0
        invariant
            k <= lines.len(),
            wv == match whole { Some(w) => Some(*w), None => None },
            captured_text(wv, lines@, views(paths@)) == last_line_text(lines@, views(paths@)),
            last_line_text(lines@.take(k as int), views(paths@)) == last_line_text(lines@, views(paths@)),
        decreases k,
    {
        let ghost t = lines@.take(k as int);
        assert(t.last() == lines@[k - 1]);
        assert(t.drop_last() =~= lines@.take(k - 1));
        if let Some(s) = any_path(&lines[k - 1], paths) {
            assert(last_line_text(t, views(paths@)) == Some(s@));
            return Some(s);
        }
        k -= 1;
    }
    assert(lines@.take(0).len() == 0);
    None
}

/// The text one path selects in stdout (see [`extract_json_path_any`]).
pub fn extract_json_path(whole: Option<&JsonValue>, lines: &Vec<JsonValue>, path: &str) -> (r: Option<String>)
    ensures
        match r {
            Some(t) => captured_text(match whole { Some(w) => Some(*w), None => None }, lines@, seq![path@]) == Some(t@),
            None => captured_text(match whole { Some(w) => Some(*w), None => None }, lines@, seq![path@]) is None,
        },
{
    let paths: Vec<String> = vec![path.to_owned()];
    assert(views(paths@) =~= seq![path@]);
    extract_json_path_any(whole, lines, &paths)
}

/// How a first run's session id is captured.
#[derive(Debug, Clone, PartialEq, Eq)]
pub enum CaptureRule {
    /// The first of these paths that selects a text in stdout.
    StdoutJson(Vec<String>),
    /// The trimmed content of this file (its path a template).
    File(String),
}

/// The `|`-separated pieces of a text.
pub open spec fn pipe_pieces(p: Seq<char>) -> Seq<Seq<char>>
    decreases p.len(),
{
    proof {
        crate::json::lemma_first_of(p, '|');
    }
    match crate::json::first_of(p, '|') {
        None => seq![p],
        Some(i) => seq![p.take(i)] + pipe_pieces(p.skip(i + 1)),
    }
}

/// The trimmed pieces that are not blank, in order.
pub open spec fn kept_pieces(pieces: Seq<Seq<char>>) -> Seq<Seq<char>>
    decreases pieces.len(),
{
    if pieces.len() == 0 {
        seq![]
    } else if trim(pieces[0]).len() == 0 {
        kept_pieces(pieces.skip(1))
    } else {
        seq![trim(pieces[0])] + kept_pieces(pieces.skip(1))
    }
}

/// What a capture rule says: `stdout_json:PATH`,
/// `stdout_jsonl:last(PATH)`, `stdout_json_any:P1|P2|…` (blank paths
/// dropped) or `file:PATH`; `stderr_regex:` rules are not supported and
/// any other rule is unknown.
pub open spec fn rule_of(rule: Seq<char>) -> Result<(bool, Seq<Seq<char>>), Seq<char>> {
    if starts_with(rule, "stdout_json:"@) {
        Ok((true, seq![rule.skip(12)]))
    } else if starts_with(rule, "stdout_jsonl:last("@) && ends_with(rule.skip(18), ")"@) {
        Ok((true, seq![rule.skip(18).drop_last()]))
    } else if starts_with(rule, "stdout_json_any:"@) {
        Ok((true, kept_pieces(pipe_pieces(rule.skip(16)))))
    } else if starts_with(rule, "stderr_regex:"@) {
        Err("stderr_regex first_run_capture not yet implemented"@)
    } else if starts_with(rule, "file:"@) {
        Ok((false, seq![rule.skip(5)]))
    } else {
        Err("unknown first_run_capture rule: "@ + rule)
    }
}

/// The view of a rule: whether it reads stdout, and its paths.
pub open spec fn rule_view(r: CaptureRule) -> (bool, Seq<Seq<char>>) {
    match r {
        CaptureRule::StdoutJson(paths) => (true, views(paths@)),
        CaptureRule::File(path) => (false, seq![path@]),
    }
}

fn split_paths(text: &[char]) -> (out: Vec<String>)
    ensures
        views(out@) == kept_pieces(pipe_pieces(text@)),
{
    let mut out: Vec<String> = Vec::new();
    let mut rest: Vec<char> = slice_chars(text, 0, text.len());
    assert(rest@ =~= text@);
    assert(views(out@) + kept_pieces(pipe_pieces(rest@)) =~= kept_pieces(pipe_pieces(text@)));
    loop
        invariant
            views(out@) + kept_pieces(pipe_pieces(rest@)) == kept_pieces(pipe_pieces(text@)),
        decreases rest.len(),
    {
        proof {
            crate::json::lemma_first_of(rest@, '|');
        }
        let ghost before = views(out@);
        match crate::json::find_char(&rest, '|') {
            None => {
                let t = trim_chars(&rest);
                if t.len() > 0 {
                    out.push(string_of(&t));
                    assert(views(out@) =~= before.push(t@));
                    assert(kept_pieces(seq![rest@]) =~= seq![t@] + kept_pieces(seq![rest@].skip(1)));
                    assert(kept_pieces(seq![rest@].skip(1)) =~= Seq::<Seq<char>>::empty());
                } else {
                    assert(kept_pieces(seq![rest@].skip(1)) =~= Seq::<Seq<char>>::empty());
                }
                assert(views(out@) =~= views(out@) + Seq::<Seq<char>>::empty());
                return out;
            },
            Some(i) => {
                let piece = slice_chars(&rest, 0, i);
                let next = slice_chars(&rest, i + 1, rest.len());
                let ghost ps = seq![piece@] + pipe_pieces(next@);
                assert(piece@ =~= rest@.take(i as int));
                assert(next@ =~= rest@.skip(i + 1));
                assert(ps.skip(1) =~= pipe_pieces(next@));
                let t = trim_chars(&piece);
                if t.len() > 0 {
                    out.push(string_of(&t));
                    assert(views(out@) =~= before.push(t@));
                }
                assert(views(out@) + kept_pieces(pipe_pieces(next@)) =~= before + kept_pieces(pipe_pieces(rest@)));
                rest = next;
            },
        }
    }
}

/// Read a capture rule (see [`rule_of`]).
pub fn parse_capture_rule(rule: &str) -> (r: Result<CaptureRule, String>)
    ensures
        match r {
            Ok(c) => rule_of(rule@) == Ok::<(bool, Seq<Seq<char>>), Seq<char>>(rule_view(c)),
            Err(e) => rule_of(rule@) == Err::<(bool, Seq<Seq<char>>), Seq<char>>(e@),
        },
{
    proof {
        reveal_strlit("stdout_json:");
        reveal_strlit("stdout_jsonl:last(");
        reveal_strlit("stdout_json_any:");
        reveal_strlit("file:");
        reveal_strlit(")");
    }
    let c = chars_of(rule);
    if starts_with_chars(&c, &chars_of("stdout_json:")) {
        let p = slice_chars(&c, 12, c.len());
        let paths: Vec<String> = vec![string_of(&p)];
        assert(views(paths@) =~= seq![rule@.skip(12)]);
        return Ok(CaptureRule::StdoutJson(paths));
    }
    if starts_with_chars(&c, &chars_of("stdout_jsonl:last(")) {
        let after = slice_chars(&c, 18, c.len());
        assert(after@ =~= rule@.skip(18));
        if after.len() > 0 && after[after.len() - 1] == ')' {
            let p = slice_chars(&after, 0, after.len() - 1);
            let paths: Vec<String> = vec![string_of(&p)];
            assert(p@ =~= rule@.skip(18).drop_last());
            assert(views(paths@) =~= seq![rule@.skip(18).drop_last()]);
            assert(ends_with(rule@.skip(18), ")"@)) by {
                assert(rule@.skip(18).subrange(rule@.skip(18).len() - 1, rule@.skip(18).len() as int) =~= ")"@);
            }
            return Ok(CaptureRule::StdoutJson(paths));
        }
        assert(!ends_with(rule@.skip(18), ")"@)) by {
            if after@.len() > 0 {
                assert(rule@.skip(18).subrange(rule@.skip(18).len() - 1, rule@.skip(18).len() as int)[0]
                    == after@[after@.len() - 1]);
            }
        }
    }
    if starts_with_chars(&c, &chars_of("stdout_json_any:")) {
        let rest = slice_chars(&c, 16, c.len());
        assert(rest@ =~= rule@.skip(16));
        return Ok(CaptureRule::StdoutJson(split_paths(&rest)));
    }
    if starts_with_chars(&c, &chars_of("stderr_regex:")) {
        return Err("stderr_regex first_run_capture not yet implemented".to_owned());
    }
    if starts_with_chars(&c, &chars_of("file:")) {
        let p = slice_chars(&c, 5, c.len());
        assert(p@ =~= rule@.skip(5));
        return Ok(CaptureRule::File(string_of(&p)));
    }
    let mut m: Vec<char> = Vec::new();
    extend_str(&mut m, "unknown first_run_capture rule: ");
    extend_chars(&mut m, &c);
    Err(string_of(&m))
}

} // verus!
