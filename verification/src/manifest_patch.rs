//! Provider manifests that extend another: a patch object merged into the
//! base manifest's JSON before the result is parsed and checked.

use vstd::prelude::*;

use crate::json::{member, strs, JsonValue};
use crate::text::{chars_of, eq_str, extend_str, string_of};

verus! {

// ───────────────────────── object members ─────────────────────────

/// The first member named `k` is at `j`.
pub proof fn lemma_member_at(fs: Seq<(String, JsonValue)>, k: Seq<char>, j: int)
    requires
        0 <= j < fs.len(),
        fs[j].0@ == k,
        forall|i: int| 0 <= i < j ==> (#[trigger] fs[i]).0@ != k,
    ensures
        member(fs, k) == Some(fs[j].1),
    decreases j,
{
    if j > 0 {
        assert forall|i: int| 0 <= i < j - 1 implies (#[trigger] fs.skip(1)[i]).0@ != k by {
            assert(fs.skip(1)[i] == fs[i + 1]);
        }
        lemma_member_at(fs.skip(1), k, j - 1);
    }
}

/// No member is named `k`.
pub proof fn lemma_member_absent(fs: Seq<(String, JsonValue)>, k: Seq<char>)
    requires
        forall|i: int| 0 <= i < fs.len() ==> (#[trigger] fs[i]).0@ != k,
    ensures
        member(fs, k) is None,
    decreases fs.len(),
{
    if fs.len() > 0 {
        assert forall|i: int| 0 <= i < fs.len() - 1 implies (#[trigger] fs.skip(1)[i]).0@ != k by {
            assert(fs.skip(1)[i] == fs[i + 1]);
        }
        lemma_member_absent(fs.skip(1), k);
    }
}

/// Replacing a member that is not named `k` by another that is not named
/// `k` keeps the member named `k`.
pub proof fn lemma_member_update(fs: Seq<(String, JsonValue)>, i: int, x: (String, JsonValue), k: Seq<char>)
    requires
        0 <= i < fs.len(),
        fs[i].0@ != k,
        x.0@ != k,
    ensures
        member(fs.update(i, x), k) == member(fs, k),
    decreases fs.len(),
{
    let u = fs.update(i, x);
    if i == 0 {
        assert(u.skip(1) =~= fs.skip(1));
    } else {
        assert(u[0] == fs[0]);
        assert(u.skip(1) =~= fs.skip(1).update(i - 1, x));
        lemma_member_update(fs.skip(1), i - 1, x, k);
    }
}

/// Removing a member that is not named `k` keeps the member named `k`.
pub proof fn lemma_member_remove(fs: Seq<(String, JsonValue)>, i: int, k: Seq<char>)
    requires
        0 <= i < fs.len(),
        fs[i].0@ != k,
    ensures
        member(fs.remove(i), k) == member(fs, k),
    decreases fs.len(),
{
    let r = fs.remove(i);
    if i == 0 {
        assert(r =~= fs.skip(1));
    } else {
        assert(r[0] == fs[0]);
        assert(r.skip(1) =~= fs.skip(1).remove(i - 1));
        lemma_member_remove(fs.skip(1), i - 1, k);
    }
}

/// Appending a member not named `k` keeps the member named `k`; an
/// appended member is found when none before it has its name.
pub proof fn lemma_member_push(fs: Seq<(String, JsonValue)>, x: (String, JsonValue), k: Seq<char>)
    ensures
        x.0@ != k ==> member(fs.push(x), k) == member(fs, k),
        x.0@ == k && member(fs, k) is None ==> member(fs.push(x), k) == Some(x.1),
    decreases fs.len(),
{
    let p = fs.push(x);
    if fs.len() > 0 {
        assert(p[0] == fs[0]);
        assert(p.skip(1) =~= fs.skip(1).push(x));
        lemma_member_push(fs.skip(1), x, k);
    } else {
        assert(p.skip(1) =~= Seq::<(String, JsonValue)>::empty());
        assert(member(p.skip(1), k) is None);
    }
}

/// Where the first member named `key` is, if there is one.
pub fn find_key(fs: &Vec<(String, JsonValue)>, key: &str) -> (r: Option<usize>)
    ensures
        match r {
            Some(i) => i < fs@.len() && fs@[i as int].0@ == key@
                && (forall|j: int| 0 <= j < i ==> (#[trigger] fs@[j]).0@ != key@)
                && member(fs@, key@) == Some(fs@[i as int].1),
            None => (forall|j: int| 0 <= j < fs@.len() ==> (#[trigger] fs@[j]).0@ != key@)
                && member(fs@, key@) is None,
        },
{
    let k = chars_of(key);
    let mut i: usize = 0;
    while i < fs.len()
        invariant
            i <= fs.len(),
            k@ == key@,
            forall|j: int| 0 <= j < i ==> (#[trigger] fs@[j]).0@ != key@,
        decreases fs.len() - i,
    {
        if crate::text::eq_chars(chars_of(fs[i].0.as_str()).as_slice(), k.as_slice()) {
            proof {
                lemma_member_at(fs@, key@, i as int);
            }
            return Some(i);
        }
        i += 1;
    }
    proof {
        lemma_member_absent(fs@, key@);
    }
    None
}

/// Set the member named `key` to `v`: the first member of that name is
/// replaced, or a member is added.
pub fn put_member(fs: &mut Vec<(String, JsonValue)>, key: String, v: JsonValue)
    ensures
        member(final(fs)@, key@) == Some(v),
        forall|k: Seq<char>| k != key@ ==> member(final(fs)@, k) == #[trigger] member(old(fs)@, k),
{
    let ghost old_fs = fs@;
    let ghost kv = key@;
    let ghost x = (key, v);
    match find_key(fs, key.as_str()) {
        Some(i) => {
            fs.set(i, (key, v));
            proof {
                assert(fs@ == old_fs.update(i as int, x));
                assert forall|j: int| 0 <= j < i implies (#[trigger] fs@[j]).0@ != kv by {
                    assert(fs@[j] == old_fs[j]);
                }
                lemma_member_at(fs@, kv, i as int);
                assert forall|k: Seq<char>| k != kv implies member(fs@, k) == #[trigger] member(old_fs, k) by {
                    lemma_member_update(old_fs, i as int, x, k);
                }
            }
        },
        None => {
            fs.push((key, v));
            proof {
                lemma_member_push(old_fs, x, kv);
                assert forall|k: Seq<char>| k != kv implies member(fs@, k) == #[trigger] member(old_fs, k) by {
                    lemma_member_push(old_fs, x, k);
                }
            }
        },
    }
}

/// Take the member named `key` out of an object, if it has one.
pub fn take_member(fs: &mut Vec<(String, JsonValue)>, key: &str) -> (r: Option<JsonValue>)
    ensures
        r == member(old(fs)@, key@),
        forall|k: Seq<char>| k != key@ ==> member(final(fs)@, k) == #[trigger] member(old(fs)@, k),
{
    let ghost old_fs = fs@;
    match find_key(fs, key) {
        Some(i) => {
            let (_, v) = fs.remove(i);
            proof {
                assert forall|k: Seq<char>| k != key@ implies member(fs@, k) == #[trigger] member(old_fs, k) by {
                    lemma_member_remove(old_fs, i as int, k);
                }
            }
            Some(v)
        },
        None => None,
    }
}

// ───────────────────────── patch shapes ─────────────────────────

/// The first member whose name is not among `allowed`.
pub open spec fn unknown_field(fs: Seq<(String, JsonValue)>, allowed: Seq<Seq<char>>) -> Option<Seq<char>>
    decreases fs.len(),
{
    if fs.len() == 0 {
        None
    } else if allowed.contains(fs[0].0@) {
        unknown_field(fs.skip(1), allowed)
    } else {
        Some(fs[0].0@)
    }
}

/// The refusal of an object with a member not among `allowed`.
pub open spec fn unknown_field_error(at: Seq<char>, fs: Seq<(String, JsonValue)>, allowed: Seq<Seq<char>>) -> Option<Seq<char>> {
    match unknown_field(fs, allowed) {
        Some(k) => Some(at + " contains unknown field `"@ + k + "`"@),
        None => None,
    }
}

/// Refuse an object with a member not among `allowed`.
pub fn reject_unknown_keys(fs: &Vec<(String, JsonValue)>, allowed: &[&str], at: &str) -> (r: Result<(), String>)
    ensures
        match r {
            Ok(()) => unknown_field(fs@, strs(allowed@)) is None,
            Err(e) => unknown_field_error(at@, fs@, strs(allowed@)) == Some(e@),
        },
{
    let ghost a = strs(allowed@);
    assert(fs@.skip(0) =~= fs@);
    let mut i: usize = 0;
    while i < fs.len()
        invariant
            i <= fs.len(),
            a == strs(allowed@),
            unknown_field(fs@.skip(i as int), a) == unknown_field(fs@, a),
        decreases fs.len() - i,
    {
        assert(fs@.skip(i as int)[0] == fs@[i as int]);
        assert(fs@.skip(i as int).skip(1) =~= fs@.skip(i + 1));
        let k = chars_of(fs[i].0.as_str());
        if !crate::provider::one_of_names(&k, allowed) {
            let mut m: Vec<char> = Vec::new();
            extend_str(&mut m, at);
            extend_str(&mut m, " contains unknown field `");
            extend_str(&mut m, fs[i].0.as_str());
            extend_str(&mut m, "`");
            return Err(string_of(&m));
        }
        i += 1;
    }
    assert(fs@.skip(i as int).len() == 0);
    Ok(())
}

/// The members of a value that is an object; none otherwise.
pub open spec fn fields_of(v: Option<JsonValue>) -> Seq<(String, JsonValue)> {
    match v {
        Some(JsonValue::Object(f)) => f@,
        _ => seq![],
    }
}

/// The items of a value that is an array; none otherwise.
pub open spec fn items_of(v: Option<JsonValue>) -> Seq<JsonValue> {
    match v {
        Some(JsonValue::Array(a)) => a@,
        _ => seq![],
    }
}

/// Whether a present value is not an array.
pub open spec fn present_non_array(v: Option<JsonValue>) -> bool {
    v is Some && !(v matches Some(JsonValue::Array(_)))
}

/// Whether a present value is not an object.
pub open spec fn present_non_object(v: Option<JsonValue>) -> bool {
    v is Some && !(v matches Some(JsonValue::Object(_)))
}

/// The refusal of a value that must be an array.
pub fn ensure_array_field(value: &JsonValue, name: &str) -> (r: Result<(), String>)
    ensures
        match r {
            Ok(()) => value is Array,
            Err(e) => !(value is Array) && e@ == name@ + " must be an array"@,
        },
{
    match value {
        JsonValue::Array(_) => Ok(()),
        _ => {
            let mut m: Vec<char> = Vec::new();
            extend_str(&mut m, name);
            extend_str(&mut m, " must be an array");
            Err(string_of(&m))
        },
    }
}

fn err(text: &str) -> (r: Result<(), String>)
    ensures
        r matches Err(e) && e@ == text@,
{
    Err(text.to_owned())
}

// ───────────────────────── args ─────────────────────────

/// The members an args patch may have.
pub open spec fn args_keys() -> Seq<Seq<char>> {
    seq!["replace"@, "prepend"@, "append"@]
}

/// Why an args patch is refused, if it is: it must be an object (an array
/// would replace the args, which must be asked for with `replace`) with
/// only `replace`, `prepend` and `append`, each an array.
pub open spec fn args_patch_error(patch: JsonValue) -> Option<Seq<char>> {
    match patch {
        JsonValue::Array(_) => Some("args patch must be an object; use args.replace to replace args"@),
        JsonValue::Object(p) => if unknown_field(p@, args_keys()) is Some {
            unknown_field_error("args patch"@, p@, args_keys())
        } else if member(p@, "replace"@) is Some {
            if present_non_array(member(p@, "replace"@)) { Some("args.replace must be an array"@) } else { None }
        } else if present_non_array(member(p@, "prepend"@)) {
            Some("args.prepend must be an array"@)
        } else if present_non_array(member(p@, "append"@)) {
            Some("args.append must be an array"@)
        } else {
            None
        },
        _ => Some("args patch must be an array or object"@),
    }
}

/// Whether `args` is what an accepted args patch `p` makes of the mode
/// members `base`: the replacement, or the prepended items, the current
/// args (none when they are not an array) and the appended items.
pub open spec fn args_patched(base: Seq<(String, JsonValue)>, p: Seq<(String, JsonValue)>, args: JsonValue) -> bool {
    match member(p, "replace"@) {
        Some(r) => args == r,
        None => args matches JsonValue::Array(a) && a@ == items_of(member(p, "prepend"@))
            + items_of(member(base, "args"@)) + items_of(member(p, "append"@)),
    }
}

/// Apply an args patch to the members of a mode; only `args` changes.
pub fn apply_args_patch(base: &mut Vec<(String, JsonValue)>, patch: JsonValue) -> (r: Result<(), String>)
    ensures
        match r {
            Ok(()) => args_patch_error(patch) is None && (patch matches JsonValue::Object(p)
                && member(final(base)@, "args"@) matches Some(a) && args_patched(old(base)@, p@, a))
                && forall|k: Seq<char>| k != "args"@ ==> member(final(base)@, k) == #[trigger] member(old(base)@, k),
            Err(e) => args_patch_error(patch) == Some(e@),
        },
{
    let ghost pv = patch;
    let mut p = match patch {
        JsonValue::Array(_) => return err("args patch must be an object; use args.replace to replace args"),
        JsonValue::Object(p) => p,
        _ => return err("args patch must be an array or object"),
    };
    let ghost p0 = p@;
    proof {
        reveal_strlit("replace");
        reveal_strlit("prepend");
        reveal_strlit("append");
        reveal_strlit("args");
        assert("prepend"@[0] != "replace"@[0]);
    }
    let keys: [&str; 3] = ["replace", "prepend", "append"];
    assert(strs(keys@) =~= args_keys());
    reject_unknown_keys(&p, &keys, "args patch")?;
    if let Some(r) = take_member(&mut p, "replace") {
        if let Err(e) = ensure_array_field(&r, "args.replace") {
            proof {
                reveal_strlit("args.replace");
                reveal_strlit(" must be an array");
                reveal_strlit("args.replace must be an array");
                assert(e@ =~= "args.replace must be an array"@);
            }
            return Err(e);
        }
        put_member(base, "args".to_owned(), r);
        return Ok(());
    }
    let prepend = take_member(&mut p, "prepend");
    assert(prepend == member(p0, "prepend"@));
    let append = take_member(&mut p, "append");
    assert(append == member(p0, "append"@));
    let ghost b0 = base@;
    let current = match take_member(base, "args") {
        Some(JsonValue::Array(a)) => a,
        _ => Vec::new(),
    };
    assert(current@ == items_of(member(b0, "args"@)));
    let mut args = match prepend {
        Some(JsonValue::Array(mut pre)) => {
            let mut cur = current;
            pre.append(&mut cur);
            pre
        },
        Some(_) => return err("args.prepend must be an array"),
        None => current,
    };
    match append {
        Some(JsonValue::Array(mut app)) => args.append(&mut app),
        Some(_) => return err("args.append must be an array"),
        None => {},
    }
    let ghost items = args@;
    put_member(base, "args".to_owned(), JsonValue::Array(args));
    assert(items =~= items_of(member(p0, "prepend"@)) + items_of(member(b0, "args"@)) + items_of(member(p0, "append"@)));
    Ok(())
}

/// Set every member of `patch` in `fs`; a name `patch` does not have keeps
/// its member.
pub fn merge_members(fs: &mut Vec<(String, JsonValue)>, patch: Vec<(String, JsonValue)>)
    ensures
        forall|k: Seq<char>| #[trigger] member(final(fs)@, k) == if member(patch@, k) is Some {
            member(patch@, k)
        } else {
            member(old(fs)@, k)
        },
{
    let ghost m0 = patch@;
    let ghost e1 = fs@;
    let mut mf = patch;
    assert(m0.skip(mf.len() as int).len() == 0);
    assert(mf@ =~= m0.take(m0.len() as int));
    while mf.len() > 0
        invariant
            mf@ == m0.take(mf@.len() as int),
            mf@.len() <= m0.len(),
            e1 == old(fs)@,
            forall|k: Seq<char>| #[trigger] member(fs@, k) == if member(m0.skip(mf@.len() as int), k) is Some {
                member(m0.skip(mf@.len() as int), k)
            } else {
                member(e1, k)
            },
        decreases mf.len(),
    {
        let ghost n = mf@.len() as int;
        let ghost before = fs@;
        let (k, v) = mf.pop().unwrap();
        proof {
            assert(m0.skip(n - 1)[0] == m0[n - 1]);
            assert(m0.skip(n - 1).skip(1) =~= m0.skip(n));
            assert(mf@ =~= m0.take(n - 1));
        }
        let ghost kv = k@;
        put_member(fs, k, v);
        proof {
            assert(m0[n - 1] == (k, v));
            assert forall|k2: Seq<char>| #[trigger] member(fs@, k2) == if member(m0.skip(n - 1), k2) is Some {
                member(m0.skip(n - 1), k2)
            } else {
                member(e1, k2)
            } by {
                if k2 != kv {
                    assert(member(fs@, k2) == member(before, k2));
                }
            }
        }
    }
    assert(m0.skip(0) =~= m0);
}

// ───────────────────────── env ─────────────────────────

/// Remove every member named `key`.
pub fn remove_all(fs: &mut Vec<(String, JsonValue)>, key: &str)
    ensures
        member(final(fs)@, key@) is None,
        forall|k: Seq<char>| k != key@ ==> member(final(fs)@, k) == #[trigger] member(old(fs)@, k),
{
    let ghost f0 = fs@;
    loop
        invariant
            f0 == old(fs)@,
            forall|k: Seq<char>| k != key@ ==> member(fs@, k) == #[trigger] member(f0, k),
        decreases fs.len(),
    {
        match find_key(fs, key) {
            Some(i) => {
                let ghost before = fs@;
                fs.remove(i);
                proof {
                    assert forall|k: Seq<char>| k != key@ implies member(fs@, k) == #[trigger] member(f0, k) by {
                        lemma_member_remove(before, i as int, k);
                    }
                }
            },
            None => return,
        }
    }
}

/// The members an env patch may have.
pub open spec fn env_keys() -> Seq<Seq<char>> {
    seq!["merge"@, "unset"@]
}

/// Whether an env patch object patches: it has `merge` or `unset`.
pub open spec fn env_is_patch(p: Seq<(String, JsonValue)>) -> bool {
    member(p, "merge"@) is Some || member(p, "unset"@) is Some
}

/// Whether the names to unset include `key`.
pub open spec fn unsets(items: Seq<JsonValue>, key: Seq<char>) -> bool {
    exists|i: int| 0 <= i < items.len() && (#[trigger] items[i] matches JsonValue::String(s) && s@ == key)
}

/// Whether every item is a string.
pub open spec fn all_strings(items: Seq<JsonValue>) -> bool {
    forall|i: int| 0 <= i < items.len() ==> (#[trigger] items[i]) is String
}

/// Why an env patch is refused, if it is: it must be an object; one with
/// members must use `merge` and/or `unset` and nothing else; `unset` is an
/// array of strings and `merge` an object.
pub open spec fn env_patch_error(patch: JsonValue) -> Option<Seq<char>> {
    match patch {
        JsonValue::Object(p) => if !env_is_patch(p@) {
            if p@.len() == 0 { None } else { Some("env patch must use merge and/or unset"@) }
        } else if unknown_field(p@, env_keys()) is Some {
            unknown_field_error("env patch"@, p@, env_keys())
        } else if present_non_array(member(p@, "unset"@)) {
            Some("env.unset must be an array"@)
        } else if !all_strings(items_of(member(p@, "unset"@))) {
            Some("env.unset entries must be strings"@)
        } else if present_non_object(member(p@, "merge"@)) {
            Some("env.merge must be an object"@)
        } else {
            None
        },
        _ => Some("env patch must be an object"@),
    }
}

/// Whether `env` is what an accepted env patch `p` makes of the mode
/// members `base`: a merged name takes its merged value; otherwise an
/// unset name is gone; any other keeps its current value (there is none
/// when the current env is not an object).
pub open spec fn env_patched(base: Seq<(String, JsonValue)>, p: Seq<(String, JsonValue)>, env: Seq<(String, JsonValue)>) -> bool {
    forall|k: Seq<char>| #[trigger] member(env, k) == if member(fields_of(member(p, "merge"@)), k) is Some {
        member(fields_of(member(p, "merge"@)), k)
    } else if unsets(items_of(member(p, "unset"@)), k) {
        None
    } else {
        member(fields_of(member(base, "env"@)), k)
    }
}

/// Apply an env patch to the members of a mode; only `env` changes, and
/// an empty patch changes nothing.
pub fn apply_env_patch(base: &mut Vec<(String, JsonValue)>, patch: JsonValue) -> (r: Result<(), String>)
    ensures
        match r {
            Ok(()) => env_patch_error(patch) is None && (patch matches JsonValue::Object(p) && if env_is_patch(p@) {
                    member(final(base)@, "env"@) matches Some(JsonValue::Object(e)) && env_patched(old(base)@, p@, e@)
                        && forall|k: Seq<char>| k != "env"@ ==> member(final(base)@, k) == #[trigger] member(old(base)@, k)
                } else {
                    final(base)@ == old(base)@
                }),
            Err(e) => env_patch_error(patch) == Some(e@),
        },
{
    proof {
        reveal_strlit("merge");
        reveal_strlit("unset");
        reveal_strlit("env");
        assert("merge"@[0] != "unset"@[0]);
    }
    let ghost pv = patch;
    let mut p = match patch {
        JsonValue::Object(p) => p,
        _ => return err("env patch must be an object"),
    };
    let ghost p0 = p@;
    let is_patch = find_key(&p, "merge").is_some() || find_key(&p, "unset").is_some();
    if !is_patch {
        if p.len() == 0 {
            return Ok(());
        }
        return err("env patch must use merge and/or unset");
    }
    let keys: [&str; 2] = ["merge", "unset"];
    assert(strs(keys@) =~= env_keys());
    reject_unknown_keys(&p, &keys, "env patch")?;
    let ghost b0 = base@;
    let mut env: Vec<(String, JsonValue)> = match take_member(base, "env") {
        Some(JsonValue::Object(f)) => f,
        _ => Vec::new(),
    };
    let ghost e0 = env@;
    assert(e0 == fields_of(member(b0, "env"@)));
    let unset = take_member(&mut p, "unset");
    let merge = take_member(&mut p, "merge");
    assert(merge == member(p0, "merge"@));
    let ghost items0: Seq<JsonValue> = items_of(unset);
    assert(unset == member(p0, "unset"@));
    assert(env_patch_error(pv) == if present_non_array(unset) {
        Some("env.unset must be an array"@)
    } else if !all_strings(items0) {
        Some("env.unset entries must be strings"@)
    } else if present_non_object(merge) {
        Some("env.merge must be an object"@)
    } else {
        None
    });
    if let Some(u) = unset {
        let items = match u {
            JsonValue::Array(a) => a,
            _ => return err("env.unset must be an array"),
        };
        let mut i: usize = 0;
        while i < items.len()
            invariant
                i <= items.len(),
                items@ == items0,
                forall|k: Seq<char>| #[trigger] member(env@, k) == if unsets(items0.take(i as int), k) { None } else { member(e0, k) },
                all_strings(items0.take(i as int)),
                pv == patch,
                env_patch_error(pv) == if !all_strings(items0) {
                    Some("env.unset entries must be strings"@)
                } else if present_non_object(merge) {
                    Some("env.merge must be an object"@)
                } else {
                    None
                },
            decreases items.len() - i,
        {
            let ghost before = env@;
            match &items[i] {
                JsonValue::String(s) => {
                    remove_all(&mut env, s.as_str());
                    proof {
                        let t = items0.take(i + 1);
                        assert(t[i as int] == items0[i as int]);
                        assert forall|k: Seq<char>| #[trigger] member(env@, k) == if unsets(t, k) { None } else { member(e0, k) } by {
                            if k == s@ {
                                assert(t[i as int] matches JsonValue::String(x) && x@ == k);
                            } else {
                                assert(member(env@, k) == member(before, k));
                                if unsets(t, k) {
                                    let j = choose|j: int| 0 <= j < t.len() && (#[trigger] t[j] matches JsonValue::String(x) && x@ == k);
                                    assert(j != i);
                                    assert(items0.take(i as int)[j] == t[j]);
                                } else {
                                    assert forall|j: int| 0 <= j < i implies !(#[trigger] items0.take(i as int)[j] matches JsonValue::String(x) && x@ == k) by {
                                        assert(items0.take(i as int)[j] == t[j]);
                                    }
                                }
                            }
                        }
                        assert forall|j: int| 0 <= j < t.len() implies (#[trigger] t[j]) is String by {
                            if j < i {
                                assert(items0.take(i as int)[j] == t[j]);
                            }
                        }
                    }
                },
                _ => {
                    proof {
                        assert(!(items0[i as int] is String));
                    }
                    return err("env.unset entries must be strings");
                },
            }
            i += 1;
        }
        assert(items0.take(items.len() as int) =~= items0);
    } else {
        assert forall|k: Seq<char>| !unsets(items0, k) by {}
    }
    let ghost e1 = env@;
    let ghost m0: Seq<(String, JsonValue)> = fields_of(merge);
    if let Some(m) = merge {
        let mf = match m {
            JsonValue::Object(f) => f,
            _ => return err("env.merge must be an object"),
        };
        merge_members(&mut env, mf);
    }
    let ghost fe = env@;
    put_member(base, "env".to_owned(), JsonValue::Object(env));
    proof {
        assert(member(p0, "unset"@) == unset);
        assert forall|k: Seq<char>| #[trigger] member(fe, k) == if member(fields_of(member(p0, "merge"@)), k) is Some {
            member(fields_of(member(p0, "merge"@)), k)
        } else if unsets(items_of(member(p0, "unset"@)), k) {
            None
        } else {
            member(fields_of(member(b0, "env"@)), k)
        } by {}
    }
    Ok(())
}

// ───────────────────────── prompt ─────────────────────────

/// The members a prompt patch may have.
pub open spec fn prompt_keys() -> Seq<Seq<char>> {
    seq!["outputs"@, "workspaceFiles"@]
}

/// Why a prompt patch is refused, if it is: it must be an object; one with
/// members may only have `outputs` (an object) and `workspaceFiles` (an
/// array), and the mode's prompt, and its outputs when they are patched,
/// must be objects where present.
pub open spec fn prompt_patch_error(base: Seq<(String, JsonValue)>, patch: JsonValue) -> Option<Seq<char>> {
    match patch {
        JsonValue::Object(p) => if p@.len() == 0 {
            None
        } else if unknown_field(p@, prompt_keys()) is Some {
            unknown_field_error("prompt patch"@, p@, prompt_keys())
        } else if present_non_object(member(base, "prompt"@)) {
            Some("base prompt must be an object"@)
        } else if present_non_array(member(p@, "workspaceFiles"@)) {
            Some("prompt.workspaceFiles must be an array"@)
        } else if member(p@, "outputs"@) is Some && present_non_object(member(fields_of(member(base, "prompt"@)), "outputs"@)) {
            Some("base prompt.outputs must be an object"@)
        } else if present_non_object(member(p@, "outputs"@)) {
            Some("prompt.outputs must be an object"@)
        } else {
            None
        },
        _ => Some("prompt patch must be an object"@),
    }
}

/// Whether `q` is what an accepted, non-empty prompt patch `p` makes of
/// the prompt of the mode members `base` (an empty prompt when there is
/// none): `workspaceFiles` replaced when patched, each patched output set,
/// everything else kept.
pub open spec fn prompt_patched(base: Seq<(String, JsonValue)>, p: Seq<(String, JsonValue)>, q: Seq<(String, JsonValue)>) -> bool {
    let bp = fields_of(member(base, "prompt"@));
    &&& member(q, "workspaceFiles"@) == (if member(p, "workspaceFiles"@) is Some {
            member(p, "workspaceFiles"@)
        } else {
            member(bp, "workspaceFiles"@)
        })
    &&& (if member(p, "outputs"@) is Some {
            member(q, "outputs"@) matches Some(JsonValue::Object(o))
                && forall|n: Seq<char>| #[trigger] member(o@, n) == if member(fields_of(member(p, "outputs"@)), n) is Some {
                    member(fields_of(member(p, "outputs"@)), n)
                } else {
                    member(fields_of(member(bp, "outputs"@)), n)
                }
        } else {
            member(q, "outputs"@) == member(bp, "outputs"@)
        })
    &&& forall|k: Seq<char>| k != "workspaceFiles"@ && k != "outputs"@ ==> member(q, k) == #[trigger] member(bp, k)
}

/// Apply a prompt patch to the members of a mode; only `prompt` changes,
/// and an empty patch changes nothing.
pub fn apply_prompt_patch(base: &mut Vec<(String, JsonValue)>, patch: JsonValue) -> (r: Result<(), String>)
    ensures
        match r {
            Ok(()) => prompt_patch_error(old(base)@, patch) is None && (patch matches JsonValue::Object(p) && if p@.len() > 0 {
                    member(final(base)@, "prompt"@) matches Some(JsonValue::Object(q)) && prompt_patched(old(base)@, p@, q@)
                        && forall|k: Seq<char>| k != "prompt"@ ==> member(final(base)@, k) == #[trigger] member(old(base)@, k)
                } else {
                    final(base)@ == old(base)@
                }),
            Err(e) => prompt_patch_error(old(base)@, patch) == Some(e@),
        },
{
    proof {
        reveal_strlit("outputs");
        reveal_strlit("workspaceFiles");
        reveal_strlit("prompt");
        assert("outputs"@.len() != "workspaceFiles"@.len());
    }
    let mut p = match patch {
        JsonValue::Object(p) => p,
        _ => return err("prompt patch must be an object"),
    };
    let ghost p0 = p@;
    if p.len() == 0 {
        return Ok(());
    }
    let keys: [&str; 2] = ["outputs", "workspaceFiles"];
    assert(strs(keys@) =~= prompt_keys());
    reject_unknown_keys(&p, &keys, "prompt patch")?;
    let ghost b0 = base@;
    let mut prompt: Vec<(String, JsonValue)> = match take_member(base, "prompt") {
        None => Vec::new(),
        Some(JsonValue::Object(f)) => f,
        Some(_) => return err("base prompt must be an object"),
    };
    let ghost q0 = prompt@;
    assert(q0 == fields_of(member(b0, "prompt"@)));
    let ws = take_member(&mut p, "workspaceFiles");
    let outs = take_member(&mut p, "outputs");
    assert(outs == member(p0, "outputs"@));
    if let Some(w) = ws {
        if !matches!(w, JsonValue::Array(_)) {
            return err("prompt.workspaceFiles must be an array");
        }
        put_member(&mut prompt, "workspaceFiles".to_owned(), w);
    }
    let ghost q1 = prompt@;
    if let Some(o) = outs {
        let cur_out = take_member(&mut prompt, "outputs");
        assert(cur_out == member(q0, "outputs"@));
        let mut cur: Vec<(String, JsonValue)> = match cur_out {
            None => Vec::new(),
            Some(JsonValue::Object(f)) => f,
            Some(_) => return err("base prompt.outputs must be an object"),
        };
        let of = match o {
            JsonValue::Object(f) => f,
            _ => return err("prompt.outputs must be an object"),
        };
        merge_members(&mut cur, of);
        put_member(&mut prompt, "outputs".to_owned(), JsonValue::Object(cur));
    }
    let ghost qf = prompt@;
    put_member(base, "prompt".to_owned(), JsonValue::Object(prompt));
    assert(prompt_patched(b0, p0, qf));
    Ok(())
}

// ───────────────────────── modes ─────────────────────────

/// The members a mode patch may have.
pub open spec fn mode_keys() -> Seq<Seq<char>> {
    seq!["transport"@, "command"@, "args"@, "env"@, "stdin"@, "prompt"@, "stdout"@, "stderr"@, "session"@,
        "timeoutMs"@, "idleTimeoutMs"@]
}

/// The mode members a patch replaces outright.
pub open spec fn copied_mode_key(k: Seq<char>) -> bool {
    k == "transport"@ || k == "command"@ || k == "stdin"@ || k == "stdout"@ || k == "stderr"@ || k == "session"@
        || k == "timeoutMs"@ || k == "idleTimeoutMs"@
}

/// The patch's member named `k`, else the base's.
pub open spec fn or_base(p: Seq<(String, JsonValue)>, b: Seq<(String, JsonValue)>, k: Seq<char>) -> Option<JsonValue> {
    if member(p, k) is Some { member(p, k) } else { member(b, k) }
}

/// Why a mode patch is refused, if it is: both must be objects, the patch
/// may only have mode members, and its args, env and prompt patches must
/// be accepted.
pub open spec fn mode_patch_error(base_mode: JsonValue, patch_mode: JsonValue) -> Option<Seq<char>> {
    match base_mode {
        JsonValue::Object(b) => match patch_mode {
            JsonValue::Object(p) => if unknown_field(p@, mode_keys()) is Some {
                unknown_field_error("provider mode patch"@, p@, mode_keys())
            } else if member(p@, "args"@) is Some && args_patch_error(member(p@, "args"@)->0) is Some {
                args_patch_error(member(p@, "args"@)->0)
            } else if member(p@, "env"@) is Some && env_patch_error(member(p@, "env"@)->0) is Some {
                env_patch_error(member(p@, "env"@)->0)
            } else if member(p@, "prompt"@) is Some {
                prompt_patch_error(b@, member(p@, "prompt"@)->0)
            } else {
                None
            },
            _ => Some("provider mode patch must be an object"@),
        },
        _ => Some("base provider mode must be an object"@),
    }
}

/// Whether `r` is what an accepted mode patch `p` makes of the mode `b`:
/// the copied members replaced when patched, args, env and prompt patched,
/// everything else kept.
pub open spec fn mode_patched(b: Seq<(String, JsonValue)>, p: Seq<(String, JsonValue)>, r: Seq<(String, JsonValue)>) -> bool {
    &&& forall|k: Seq<char>| copied_mode_key(k) ==> #[trigger] member(r, k) == or_base(p, b, k)
    &&& match member(p, "args"@) {
            Some(JsonValue::Object(a)) => member(r, "args"@) matches Some(x) && args_patched(b, a@, x),
            _ => member(r, "args"@) == member(b, "args"@),
        }
    &&& match member(p, "env"@) {
            Some(JsonValue::Object(e)) => if env_is_patch(e@) {
                member(r, "env"@) matches Some(JsonValue::Object(x)) && env_patched(b, e@, x@)
            } else {
                member(r, "env"@) == member(b, "env"@)
            },
            _ => member(r, "env"@) == member(b, "env"@),
        }
    &&& match member(p, "prompt"@) {
            Some(JsonValue::Object(q)) => if q@.len() > 0 {
                member(r, "prompt"@) matches Some(JsonValue::Object(x)) && prompt_patched(b, q@, x@)
            } else {
                member(r, "prompt"@) == member(b, "prompt"@)
            },
            _ => member(r, "prompt"@) == member(b, "prompt"@),
        }
    &&& forall|k: Seq<char>| !copied_mode_key(k) && k != "args"@ && k != "env"@ && k != "prompt"@
            ==> #[trigger] member(r, k) == member(b, k)
}

/// Move the member named `key` from `p` to `b`, if `p` has one.
fn copy_member(b: &mut Vec<(String, JsonValue)>, p: &mut Vec<(String, JsonValue)>, key: &str)
    ensures
        member(final(b)@, key@) == or_base(old(p)@, old(b)@, key@),
        forall|k: Seq<char>| k != key@ ==> member(final(b)@, k) == #[trigger] member(old(b)@, k),
        forall|k: Seq<char>| k != key@ ==> member(final(p)@, k) == #[trigger] member(old(p)@, k),
{
    if let Some(v) = take_member(p, key) {
        put_member(b, key.to_owned(), v);
    }
}

/// Apply a mode patch to a base mode.
pub fn apply_mode_patch(base_mode: JsonValue, patch_mode: JsonValue) -> (r: Result<JsonValue, String>)
    ensures
        match r {
            Ok(v) => mode_patch_error(base_mode, patch_mode) is None && (base_mode matches JsonValue::Object(b)
                && patch_mode matches JsonValue::Object(p) && v matches JsonValue::Object(f) && mode_patched(b@, p@, f@)),
            Err(e) => mode_patch_error(base_mode, patch_mode) == Some(e@),
        },
{
    proof {
        reveal_strlit("transport");
        reveal_strlit("command");
        reveal_strlit("args");
        reveal_strlit("env");
        reveal_strlit("stdin");
        reveal_strlit("prompt");
        reveal_strlit("stdout");
        reveal_strlit("stderr");
        reveal_strlit("session");
        reveal_strlit("timeoutMs");
        reveal_strlit("idleTimeoutMs");
        assert("transport"@[1] != "timeoutMs"@[1]);
        assert("command"@[0] != "session"@[0]);
        assert("prompt"@[0] != "stdout"@[0]);
        assert("prompt"@[0] != "stderr"@[0]);
        assert("stdout"@[3] != "stderr"@[3]);
        assert("transport"@.len() == 9);
        assert("command"@.len() == 7);
        assert("args"@.len() == 4);
        assert("env"@.len() == 3);
        assert("stdin"@.len() == 5);
        assert("prompt"@.len() == 6);
        assert("stdout"@.len() == 6);
        assert("stderr"@.len() == 6);
        assert("session"@.len() == 7);
        assert("timeoutMs"@.len() == 9);
        assert("idleTimeoutMs"@.len() == 13);
    }
    let mut b = match base_mode {
        JsonValue::Object(b) => b,
        _ => return Err("base provider mode must be an object".to_owned()),
    };
    let mut p = match patch_mode {
        JsonValue::Object(p) => p,
        _ => return Err("provider mode patch must be an object".to_owned()),
    };
    let ghost b0 = b@;
    let ghost p0 = p@;
    let keys: [&str; 11] = ["transport", "command", "args", "env", "stdin", "prompt", "stdout", "stderr", "session",
        "timeoutMs", "idleTimeoutMs"];
    assert(strs(keys@) =~= mode_keys());
    reject_unknown_keys(&p, &keys, "provider mode patch")?;
    let ghost bs0 = b@;
    let ghost ps0 = p@;
    copy_member(&mut b, &mut p, "transport");
    let ghost bs1 = b@;
    let ghost ps1 = p@;
    copy_member(&mut b, &mut p, "command");
    let ghost bs2 = b@;
    let ghost ps2 = p@;
    copy_member(&mut b, &mut p, "stdin");
    let ghost bs3 = b@;
    let ghost ps3 = p@;
    copy_member(&mut b, &mut p, "stdout");
    let ghost bs4 = b@;
    let ghost ps4 = p@;
    copy_member(&mut b, &mut p, "stderr");
    let ghost bs5 = b@;
    let ghost ps5 = p@;
    copy_member(&mut b, &mut p, "session");
    let ghost bs6 = b@;
    let ghost ps6 = p@;
    copy_member(&mut b, &mut p, "timeoutMs");
    let ghost bs7 = b@;
    let ghost ps7 = p@;
    copy_member(&mut b, &mut p, "idleTimeoutMs");
    let ghost bs8 = b@;
    let ghost ps8 = p@;
    let ghost b1 = b@;
    let ghost p1 = p@;
    assert forall|k: Seq<char>| copied_mode_key(k) implies #[trigger] member(b1, k) == or_base(p0, b0, k) by {
        if k == "transport"@ {
            assert(member(bs1, k) == or_base(ps0, bs0, k));
            assert(member(bs2, k) == member(bs1, k));
            assert(member(bs3, k) == member(bs2, k));
            assert(member(bs4, k) == member(bs3, k));
            assert(member(bs5, k) == member(bs4, k));
            assert(member(bs6, k) == member(bs5, k));
            assert(member(bs7, k) == member(bs6, k));
            assert(member(bs8, k) == member(bs7, k));
        } else if k == "command"@ {
            assert(member(ps1, k) == member(ps0, k));
            assert(member(bs1, k) == member(bs0, k));
            assert(member(bs2, k) == or_base(ps1, bs1, k));
            assert(member(bs3, k) == member(bs2, k));
            assert(member(bs4, k) == member(bs3, k));
            assert(member(bs5, k) == member(bs4, k));
            assert(member(bs6, k) == member(bs5, k));
            assert(member(bs7, k) == member(bs6, k));
            assert(member(bs8, k) == member(bs7, k));
        } else if k == "stdin"@ {
            assert(member(ps1, k) == member(ps0, k));
            assert(member(bs1, k) == member(bs0, k));
            assert(member(ps2, k) == member(ps1, k));
            assert(member(bs2, k) == member(bs1, k));
            assert(member(bs3, k) == or_base(ps2, bs2, k));
            assert(member(bs4, k) == member(bs3, k));
            assert(member(bs5, k) == member(bs4, k));
            assert(member(bs6, k) == member(bs5, k));
            assert(member(bs7, k) == member(bs6, k));
            assert(member(bs8, k) == member(bs7, k));
        } else if k == "stdout"@ {
            assert(member(ps1, k) == member(ps0, k));
            assert(member(bs1, k) == member(bs0, k));
            assert(member(ps2, k) == member(ps1, k));
            assert(member(bs2, k) == member(bs1, k));
            assert(member(ps3, k) == member(ps2, k));
            assert(member(bs3, k) == member(bs2, k));
            assert(member(bs4, k) == or_base(ps3, bs3, k));
            assert(member(bs5, k) == member(bs4, k));
            assert(member(bs6, k) == member(bs5, k));
            assert(member(bs7, k) == member(bs6, k));
            assert(member(bs8, k) == member(bs7, k));
        } else if k == "stderr"@ {
            assert(member(ps1, k) == member(ps0, k));
            assert(member(bs1, k) == member(bs0, k));
            assert(member(ps2, k) == member(ps1, k));
            assert(member(bs2, k) == member(bs1, k));
            assert(member(ps3, k) == member(ps2, k));
            assert(member(bs3, k) == member(bs2, k));
            assert(member(ps4, k) == member(ps3, k));
            assert(member(bs4, k) == member(bs3, k));
            assert(member(bs5, k) == or_base(ps4, bs4, k));
            assert(member(bs6, k) == member(bs5, k));
            assert(member(bs7, k) == member(bs6, k));
            assert(member(bs8, k) == member(bs7, k));
        } else if k == "session"@ {
            assert(member(ps1, k) == member(ps0, k));
            assert(member(bs1, k) == member(bs0, k));
            assert(member(ps2, k) == member(ps1, k));
            assert(member(bs2, k) == member(bs1, k));
            assert(member(ps3, k) == member(ps2, k));
            assert(member(bs3, k) == member(bs2, k));
            assert(member(ps4, k) == member(ps3, k));
            assert(member(bs4, k) == member(bs3, k));
            assert(member(ps5, k) == member(ps4, k));
            assert(member(bs5, k) == member(bs4, k));
            assert(member(bs6, k) == or_base(ps5, bs5, k));
            assert(member(bs7, k) == member(bs6, k));
            assert(member(bs8, k) == member(bs7, k));
        } else if k == "timeoutMs"@ {
            assert(member(ps1, k) == member(ps0, k));
            assert(member(bs1, k) == member(bs0, k));
            assert(member(ps2, k) == member(ps1, k));
            assert(member(bs2, k) == member(bs1, k));
            assert(member(ps3, k) == member(ps2, k));
            assert(member(bs3, k) == member(bs2, k));
            assert(member(ps4, k) == member(ps3, k));
            assert(member(bs4, k) == member(bs3, k));
            assert(member(ps5, k) == member(ps4, k));
            assert(member(bs5, k) == member(bs4, k));
            assert(member(ps6, k) == member(ps5, k));
            assert(member(bs6, k) == member(bs5, k));
            assert(member(bs7, k) == or_base(ps6, bs6, k));
            assert(member(bs8, k) == member(bs7, k));
        } else if k == "idleTimeoutMs"@ {
            assert(member(ps1, k) == member(ps0, k));
            assert(member(bs1, k) == member(bs0, k));
            assert(member(ps2, k) == member(ps1, k));
            assert(member(bs2, k) == member(bs1, k));
            assert(member(ps3, k) == member(ps2, k));
            assert(member(bs3, k) == member(bs2, k));
            assert(member(ps4, k) == member(ps3, k));
            assert(member(bs4, k) == member(bs3, k));
            assert(member(ps5, k) == member(ps4, k));
            assert(member(bs5, k) == member(bs4, k));
            assert(member(ps6, k) == member(ps5, k));
            assert(member(bs6, k) == member(bs5, k));
            assert(member(ps7, k) == member(ps6, k));
            assert(member(bs7, k) == member(bs6, k));
            assert(member(bs8, k) == or_base(ps7, bs7, k));
        }
    }
    assert forall|k: Seq<char>| !copied_mode_key(k) implies #[trigger] member(b1, k) == member(b0, k) by {
            assert(member(bs1, k) == member(bs0, k));
            assert(member(bs2, k) == member(bs1, k));
            assert(member(bs3, k) == member(bs2, k));
            assert(member(bs4, k) == member(bs3, k));
            assert(member(bs5, k) == member(bs4, k));
            assert(member(bs6, k) == member(bs5, k));
            assert(member(bs7, k) == member(bs6, k));
            assert(member(bs8, k) == member(bs7, k));
    }
    assert forall|k: Seq<char>| !copied_mode_key(k) implies #[trigger] member(p1, k) == member(p0, k) by {
            assert(member(ps1, k) == member(ps0, k));
            assert(member(ps2, k) == member(ps1, k));
            assert(member(ps3, k) == member(ps2, k));
            assert(member(ps4, k) == member(ps3, k));
            assert(member(ps5, k) == member(ps4, k));
            assert(member(ps6, k) == member(ps5, k));
            assert(member(ps7, k) == member(ps6, k));
            assert(member(ps8, k) == member(ps7, k));
    }
    let args = take_member(&mut p, "args");
    assert(args == member(p0, "args"@));
    if let Some(a) = args {
        apply_args_patch(&mut b, a)?;
    }
    let ghost b2 = b@;
    let env = take_member(&mut p, "env");
    assert(env == member(p0, "env"@));
    if let Some(e) = env {
        apply_env_patch(&mut b, e)?;
    }
    let ghost b3 = b@;
    let prompt = take_member(&mut p, "prompt");
    assert(prompt == member(p0, "prompt"@));
    assert(member(b3, "prompt"@) == member(b0, "prompt"@));
    if let Some(q) = prompt {
        apply_prompt_patch(&mut b, q)?;
    }
    let ghost bf = b@;
    assert(mode_patched(b0, p0, bf));
    Ok(JsonValue::Object(b))
}

// ───────────────────────── manifests ─────────────────────────

/// The members a manifest patch may have.
pub open spec fn manifest_keys() -> Seq<Seq<char>> {
    seq!["schemaVersion"@, "id"@, "extends"@, "displayName"@, "detect"@, "modes"@, "models"@]
}

/// The manifest members a patch replaces outright.
pub open spec fn copied_manifest_key(k: Seq<char>) -> bool {
    k == "schemaVersion"@ || k == "id"@ || k == "extends"@ || k == "displayName"@ || k == "models"@ || k == "detect"@
}

/// Whether no two members share a name.
pub open spec fn distinct_names(fs: Seq<(String, JsonValue)>) -> bool {
    forall|i: int, j: int| 0 <= i < j < fs.len() ==> (#[trigger] fs[i]).0@ != (#[trigger] fs[j]).0@
}

/// The first refused mode patch, in order: a patched mode the base has
/// whose patch is refused.
pub open spec fn modes_patch_error(base_modes: Seq<(String, JsonValue)>, patches: Seq<(String, JsonValue)>) -> Option<Seq<char>>
    decreases patches.len(),
{
    if patches.len() == 0 {
        None
    } else {
        crate::provider_decoder::first_error(
            match member(base_modes, patches[0].0@) {
                Some(m) => mode_patch_error(m, patches[0].1),
                None => None,
            },
            modes_patch_error(base_modes, patches.skip(1)))
    }
}

/// Why a manifest patch is refused, if it is: both must be objects; the
/// patch may only have manifest members; `detect` must be an object with
/// only `candidates`; `modes` must be an object, as must the base's modes;
/// each patched mode the base has must accept its patch.
pub open spec fn merge_error(base: JsonValue, patch: JsonValue) -> Option<Seq<char>> {
    match base {
        JsonValue::Object(b) => match patch {
            JsonValue::Object(p) => if unknown_field(p@, manifest_keys()) is Some {
                unknown_field_error("provider manifest patch"@, p@, manifest_keys())
            } else if present_non_object(member(p@, "detect"@)) {
                Some("detect patch must be an object"@)
            } else if member(p@, "detect"@) is Some && unknown_field(fields_of(member(p@, "detect"@)), seq!["candidates"@]) is Some {
                unknown_field_error("detect patch"@, fields_of(member(p@, "detect"@)), seq!["candidates"@])
            } else if present_non_object(member(p@, "modes"@)) {
                Some("modes patch must be an object"@)
            } else if member(p@, "modes"@) is Some && present_non_object(member(b@, "modes"@)) {
                Some("base provider modes must be an object"@)
            } else if member(p@, "modes"@) is Some {
                modes_patch_error(fields_of(member(b@, "modes"@)), fields_of(member(p@, "modes"@)))
            } else {
                None
            },
            _ => Some("provider manifest patch must be an object"@),
        },
        _ => Some("base provider manifest must be an object"@),
    }
}

/// Whether `z` is what the mode patch `x` makes of the base mode `y`.
pub open spec fn mode_result(y: JsonValue, x: JsonValue, z: JsonValue) -> bool {
    y matches JsonValue::Object(yb) && x matches JsonValue::Object(xp) && z matches JsonValue::Object(zf)
        && mode_patched(yb@, xp@, zf@)
}

/// Whether the modes `m` are what the mode patches `pm` make of the base
/// modes `bm`: a patched mode the base has is patched, a new one added,
/// the others kept.
pub open spec fn modes_merged(bm: Seq<(String, JsonValue)>, pm: Seq<(String, JsonValue)>, m: Seq<(String, JsonValue)>) -> bool {
    forall|name: Seq<char>| #![trigger member(m, name)] match member(pm, name) {
        Some(x) => match member(bm, name) {
            Some(y) => member(m, name) matches Some(z) && mode_result(y, x, z),
            None => member(m, name) == Some(x),
        },
        None => member(m, name) == member(bm, name),
    }
}

/// Whether `r` is what an accepted manifest patch `p` makes of the base
/// manifest `b`: the copied members replaced when patched, the modes
/// merged when patched, everything else kept.
pub open spec fn manifest_merged(b: Seq<(String, JsonValue)>, p: Seq<(String, JsonValue)>, r: Seq<(String, JsonValue)>) -> bool {
    &&& forall|k: Seq<char>| copied_manifest_key(k) ==> #[trigger] member(r, k) == or_base(p, b, k)
    &&& if member(p, "modes"@) is Some {
            member(r, "modes"@) matches Some(JsonValue::Object(m))
                && modes_merged(fields_of(member(b, "modes"@)), fields_of(member(p, "modes"@)), m@)
        } else {
            member(r, "modes"@) == member(b, "modes"@)
        }
    &&& forall|k: Seq<char>| !copied_manifest_key(k) && k != "modes"@ ==> #[trigger] member(r, k) == member(b, k)
}

/// Merge a manifest patch into the JSON of the manifest it extends. The
/// patch's modes are a JSON object, so their names are distinct.
pub fn merge_manifest_value(base: JsonValue, patch: JsonValue) -> (r: Result<JsonValue, String>)
    requires
        patch matches JsonValue::Object(p) ==> distinct_names(fields_of(member(p@, "modes"@))),
    ensures
        match r {
            Ok(v) => merge_error(base, patch) is None && (base matches JsonValue::Object(b)
                && patch matches JsonValue::Object(p) && v matches JsonValue::Object(f) && manifest_merged(b@, p@, f@)),
            Err(e) => merge_error(base, patch) == Some(e@),
        },
{
    proof {
        reveal_strlit("schemaVersion");
        reveal_strlit("id");
        reveal_strlit("extends");
        reveal_strlit("displayName");
        reveal_strlit("detect");
        reveal_strlit("modes");
        reveal_strlit("models");
        reveal_strlit("candidates");
        assert("schemaVersion"@.len() == 13);
        assert("id"@.len() == 2);
        assert("extends"@.len() == 7);
        assert("displayName"@.len() == 11);
        assert("detect"@.len() == 6);
        assert("modes"@.len() == 5);
        assert("models"@.len() == 6);
        assert("detect"@[0] != "models"@[0]);
    }
    let ghost bv = base;
    let ghost pv = patch;
    let mut b = match base {
        JsonValue::Object(b) => b,
        _ => return Err("base provider manifest must be an object".to_owned()),
    };
    let mut p = match patch {
        JsonValue::Object(p) => p,
        _ => return Err("provider manifest patch must be an object".to_owned()),
    };
    let ghost b0 = b@;
    let ghost p0 = p@;
    let keys: [&str; 7] = ["schemaVersion", "id", "extends", "displayName", "detect", "modes", "models"];
    assert(strs(keys@) =~= manifest_keys());
    reject_unknown_keys(&p, &keys, "provider manifest patch")?;
    let ghost bs0 = b@;
    let ghost ps0 = p@;
    copy_member(&mut b, &mut p, "schemaVersion");
    let ghost bs1 = b@;
    let ghost ps1 = p@;
    copy_member(&mut b, &mut p, "id");
    let ghost bs2 = b@;
    let ghost ps2 = p@;
    copy_member(&mut b, &mut p, "extends");
    let ghost bs3 = b@;
    let ghost ps3 = p@;
    copy_member(&mut b, &mut p, "displayName");
    let ghost bs4 = b@;
    let ghost ps4 = p@;
    copy_member(&mut b, &mut p, "models");
    let ghost bs5 = b@;
    let ghost ps5 = p@;
    let detect = take_member(&mut p, "detect");
    assert(detect == member(p0, "detect"@));
    if let Some(d) = detect {
        match &d {
            JsonValue::Object(df) => {
                let ck: [&str; 1] = ["candidates"];
                assert(strs(ck@) =~= seq!["candidates"@]);
                reject_unknown_keys(df, &ck, "detect patch")?;
            },
            _ => return Err("detect patch must be an object".to_owned()),
        }
        put_member(&mut b, "detect".to_owned(), d);
    }
    let ghost bs6 = b@;
    assert forall|k: Seq<char>| copied_manifest_key(k) implies #[trigger] member(bs6, k) == or_base(p0, b0, k) by {
        if k == "schemaVersion"@ {
            assert(member(bs1, k) == or_base(ps0, bs0, k));
            assert(member(bs2, k) == member(bs1, k));
            assert(member(bs3, k) == member(bs2, k));
            assert(member(bs4, k) == member(bs3, k));
            assert(member(bs5, k) == member(bs4, k));
        } else if k == "id"@ {
            assert(member(ps1, k) == member(ps0, k));
            assert(member(bs1, k) == member(bs0, k));
            assert(member(bs2, k) == or_base(ps1, bs1, k));
            assert(member(bs3, k) == member(bs2, k));
            assert(member(bs4, k) == member(bs3, k));
            assert(member(bs5, k) == member(bs4, k));
        } else if k == "extends"@ {
            assert(member(ps1, k) == member(ps0, k));
            assert(member(ps2, k) == member(ps1, k));
            assert(member(bs1, k) == member(bs0, k));
            assert(member(bs2, k) == member(bs1, k));
            assert(member(bs3, k) == or_base(ps2, bs2, k));
            assert(member(bs4, k) == member(bs3, k));
            assert(member(bs5, k) == member(bs4, k));
        } else if k == "displayName"@ {
            assert(member(ps1, k) == member(ps0, k));
            assert(member(ps2, k) == member(ps1, k));
            assert(member(ps3, k) == member(ps2, k));
            assert(member(bs1, k) == member(bs0, k));
            assert(member(bs2, k) == member(bs1, k));
            assert(member(bs3, k) == member(bs2, k));
            assert(member(bs4, k) == or_base(ps3, bs3, k));
            assert(member(bs5, k) == member(bs4, k));
        } else if k == "models"@ {
            assert(member(ps1, k) == member(ps0, k));
            assert(member(ps2, k) == member(ps1, k));
            assert(member(ps3, k) == member(ps2, k));
            assert(member(ps4, k) == member(ps3, k));
            assert(member(bs1, k) == member(bs0, k));
            assert(member(bs2, k) == member(bs1, k));
            assert(member(bs3, k) == member(bs2, k));
            assert(member(bs4, k) == member(bs3, k));
            assert(member(bs5, k) == or_base(ps4, bs4, k));
        } else {
            assert(member(ps1, k) == member(ps0, k));
            assert(member(ps2, k) == member(ps1, k));
            assert(member(ps3, k) == member(ps2, k));
            assert(member(ps4, k) == member(ps3, k));
            assert(member(ps5, k) == member(ps4, k));
            assert(member(bs1, k) == member(bs0, k));
            assert(member(bs2, k) == member(bs1, k));
            assert(member(bs3, k) == member(bs2, k));
            assert(member(bs4, k) == member(bs3, k));
            assert(member(bs5, k) == member(bs4, k));
        }
    }
    assert forall|k: Seq<char>| !copied_manifest_key(k) implies #[trigger] member(bs6, k) == member(b0, k) && member(p@, k) == member(p0, k) by {
        assert(member(ps1, k) == member(ps0, k));
        assert(member(ps2, k) == member(ps1, k));
        assert(member(ps3, k) == member(ps2, k));
        assert(member(ps4, k) == member(ps3, k));
        assert(member(ps5, k) == member(ps4, k));
        assert(member(bs1, k) == member(bs0, k));
        assert(member(bs2, k) == member(bs1, k));
        assert(member(bs3, k) == member(bs2, k));
        assert(member(bs4, k) == member(bs3, k));
        assert(member(bs5, k) == member(bs4, k));
        assert(member(bs6, k) == member(bs5, k));
    }
    let modes = take_member(&mut p, "modes");
    assert(modes == member(p0, "modes"@));
    if let Some(m) = modes {
        let mut pm = match m {
            JsonValue::Object(f) => f,
            _ => return Err("modes patch must be an object".to_owned()),
        };
        let ghost pm0 = pm@;
        let n0 = pm.len();
        assert(pm0.len() == n0);
        let base_modes = take_member(&mut b, "modes");
        assert(base_modes == member(b0, "modes"@));
        let mut bm: Vec<(String, JsonValue)> = match base_modes {
            None => Vec::new(),
            Some(JsonValue::Object(f)) => f,
            Some(_) => return Err("base provider modes must be an object".to_owned()),
        };
        let ghost bm0 = bm@;
        let ghost b7 = b@;
        assert(merge_error(bv, pv) == modes_patch_error(bm0, pm0));
        assert(pm0.skip(0) =~= pm0);
        assert(pm0.take(0) =~= Seq::<(String, JsonValue)>::empty());
        let mut i: usize = 0;
        while pm.len() > 0
            invariant
                i <= pm0.len(),
                pm0.len() <= usize::MAX,
                bv == base,
                pv == patch,
                pm@ == pm0.skip(i as int),
                distinct_names(pm0),
                merge_error(bv, pv) == modes_patch_error(bm0, pm0),
                modes_patch_error(bm0, pm0.skip(i as int)) == modes_patch_error(bm0, pm0),
                forall|name: Seq<char>| #![trigger member(bm@, name)] match member(pm0.take(i as int), name) {
                    Some(x) => match member(bm0, name) {
                        Some(y) => member(bm@, name) matches Some(z) && mode_result(y, x, z),
                        None => member(bm@, name) == Some(x),
                    },
                    None => member(bm@, name) == member(bm0, name),
                },
            decreases pm.len(),
        {
            let ghost before = bm@;
            proof {
                assert(pm0.skip(i as int)[0] == pm0[i as int]);
                assert(pm0.skip(i as int).skip(1) =~= pm0.skip(i + 1));
                assert(pm0.take(i + 1) =~= pm0.take(i as int).push(pm0[i as int]));
                assert forall|j: int| 0 <= j < i implies (#[trigger] pm0.take(i as int)[j]).0@ != pm0[i as int].0@ by {
                    assert(pm0.take(i as int)[j] == pm0[j]);
                }
                lemma_member_absent(pm0.take(i as int), pm0[i as int].0@);
            }
            let (name, x) = pm.remove(0);
            let ghost nv = name@;
            let ghost xv = x;
            let current = take_member(&mut bm, name.as_str());
            assert(current == member(bm0, nv));
            let ghost mid = bm@;
            match current {
                Some(y) => {
                    let z = match apply_mode_patch(y, x) {
                        Ok(z) => z,
                        Err(e) => {
                            proof {
                                assert(pm0.skip(i as int)[0].0@ == nv);
                                assert(modes_patch_error(bm0, pm0.skip(i as int)) == Some(e@));
                            }
                            return Err(e);
                        },
                    };
                    put_member(&mut bm, name, z);
                },
                None => {
                    put_member(&mut bm, name, x);
                },
            }
            proof {
                assert forall|n2: Seq<char>| #![trigger member(bm@, n2)] match member(pm0.take(i + 1), n2) {
                    Some(x2) => match member(bm0, n2) {
                        Some(y2) => member(bm@, n2) matches Some(z2) && mode_result(y2, x2, z2),
                        None => member(bm@, n2) == Some(x2),
                    },
                    None => member(bm@, n2) == member(bm0, n2),
                } by {
                    lemma_member_push(pm0.take(i as int), pm0[i as int], n2);
                    if n2 != nv {
                        assert(member(bm@, n2) == member(mid, n2));
                        assert(member(mid, n2) == member(before, n2));
                    }
                }
            }
            i += 1;
        }
        assert(pm0.take(i as int) =~= pm0);
        let ghost fm = bm@;
        put_member(&mut b, "modes".to_owned(), JsonValue::Object(bm));
        proof {
            assert forall|k: Seq<char>| copied_manifest_key(k) implies #[trigger] member(b@, k) == or_base(p0, b0, k) by {
                assert(member(b@, k) == member(b7, k));
                assert(member(b7, k) == member(bs6, k));
            }
            assert forall|k: Seq<char>| !copied_manifest_key(k) && k != "modes"@ implies #[trigger] member(b@, k) == member(b0, k) by {
                assert(member(b@, k) == member(b7, k));
                assert(member(b7, k) == member(bs6, k));
            }
        }
    } else {
        assert(merge_error(bv, pv) is None);
    }
    Ok(JsonValue::Object(b))
}

// ───────────────────────── laws ─────────────────────────

/// An empty manifest patch changes no member of the manifest it extends.
pub proof fn law_empty_patch_keeps_manifest(b: Seq<(String, JsonValue)>, r: Seq<(String, JsonValue)>)
    requires
        manifest_merged(b, seq![], r),
    ensures
        forall|k: Seq<char>| #[trigger] member(r, k) == member(b, k),
{
    assert forall|k: Seq<char>| #[trigger] member(r, k) == member(b, k) by {
        assert(member(Seq::<(String, JsonValue)>::empty(), k) is None);
    }
}

/// An empty mode patch changes no member of the mode.
pub proof fn law_empty_mode_patch_keeps_mode(b: Seq<(String, JsonValue)>, r: Seq<(String, JsonValue)>)
    requires
        mode_patched(b, seq![], r),
    ensures
        forall|k: Seq<char>| #[trigger] member(r, k) == member(b, k),
{
    assert forall|k: Seq<char>| #[trigger] member(r, k) == member(b, k) by {
        assert(member(Seq::<(String, JsonValue)>::empty(), k) is None);
    }
}

} // verus!
