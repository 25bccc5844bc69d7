//! The order in which manifests found on disk join the registry: a manifest
//! that extends another waits for it, an id may be taken once, and loading
//! stops at the first manifest whose header cannot be read.

use vstd::prelude::*;

use crate::text::{chars_of, eq_chars, views};

verus! {

/// A manifest header as values: its id and the id it extends, if any.
pub type HeaderView = Option<(Seq<char>, Option<Seq<char>>)>;

/// How loading ends.
pub enum LoadEndView {
    /// Every manifest joined.
    Done,
    /// The header of this manifest could not be read.
    BadHeader(int),
    /// This manifest's id is already taken.
    Conflict(int),
    /// These manifests extend ids that never appear, in order.
    Unresolved(Seq<int>),
}

/// How loading ends.
#[derive(Debug, Clone, PartialEq, Eq)]
pub enum LoadEnd {
    Done,
    BadHeader(usize),
    Conflict(usize),
    Unresolved(Vec<usize>),
}

/// The value of a `LoadEnd`.
pub open spec fn load_end_view(e: LoadEnd) -> LoadEndView {
    match e {
        LoadEnd::Done => LoadEndView::Done,
        LoadEnd::BadHeader(i) => LoadEndView::BadHeader(i as int),
        LoadEnd::Conflict(i) => LoadEndView::Conflict(i as int),
        LoadEnd::Unresolved(v) => LoadEndView::Unresolved(v@.map_values(|i: usize| i as int)),
    }
}

/// The values of the headers.
pub open spec fn header_views(hs: Seq<Option<(String, Option<String>)>>) -> Seq<HeaderView> {
    hs.map_values(|h: Option<(String, Option<String>)>| match h {
        Some((id, ext)) => Some((id@, match ext { Some(e) => Some(e@), None => None })),
        None => None,
    })
}

/// One pass over the waiting manifests `rem` (indices into `hs`), in order:
/// those that join (each one's id then known), the known ids after the
/// pass, those still waiting for the id they extend, and where the pass
/// stopped, if it did.
pub open spec fn load_round(known: Seq<Seq<char>>, hs: Seq<HeaderView>, rem: Seq<int>)
    -> (Seq<int>, Seq<Seq<char>>, Seq<int>, Option<LoadEndView>)
    decreases rem.len(),
{
    if rem.len() == 0 {
        (seq![], known, seq![], None)
    } else {
        let i = rem[0];
        match hs[i] {
            None => (seq![], known, seq![], Some(LoadEndView::BadHeader(i))),
            Some((id, ext)) => if ext is Some && !known.contains(ext->0) {
                let (r, k, d, s) = load_round(known, hs, rem.skip(1));
                (r, k, seq![i] + d, s)
            } else if known.contains(id) {
                (seq![], known, seq![], Some(LoadEndView::Conflict(i)))
            } else {
                let (r, k, d, s) = load_round(known.push(id), hs, rem.skip(1));
                (seq![i] + r, k, d, s)
            },
        }
    }
}

/// A pass that does not stop splits the waiting manifests between those
/// that join and those that keep waiting.
pub proof fn lemma_round_len(known: Seq<Seq<char>>, hs: Seq<HeaderView>, rem: Seq<int>)
    ensures
        load_round(known, hs, rem).3 is None ==> load_round(known, hs, rem).0.len() + load_round(known, hs, rem).2.len()
            == rem.len(),
    decreases rem.len(),
{
    if rem.len() > 0 {
        let i = rem[0];
        match hs[i] {
            None => {},
            Some((id, ext)) => if ext is Some && !known.contains(ext->0) {
                lemma_round_len(known, hs, rem.skip(1));
            } else if !known.contains(id) {
                lemma_round_len(known.push(id), hs, rem.skip(1));
            },
        }
    }
}

/// Passes until every manifest joined or a pass stops or makes no
/// progress: the manifests in the order they join, and how loading ends.
pub open spec fn load_passes(known: Seq<Seq<char>>, hs: Seq<HeaderView>, rem: Seq<int>) -> (Seq<int>, LoadEndView)
    decreases rem.len(),
{
    if rem.len() == 0 {
        (seq![], LoadEndView::Done)
    } else {
        let (r, k, d, s) = load_round(known, hs, rem);
        if s is Some {
            (r, s->0)
        } else if r.len() == 0 {
            (seq![], LoadEndView::Unresolved(d))
        } else {
            proof {
                lemma_round_len(known, hs, rem);
            }
            let (r2, e) = load_passes(k, hs, d);
            (r + r2, e)
        }
    }
}

/// The loading of manifests with these headers, in path order, into a
/// registry that already knows `known`.
pub open spec fn load_plan(known: Seq<Seq<char>>, hs: Seq<HeaderView>) -> (Seq<int>, LoadEndView) {
    load_passes(known, hs, Seq::new(hs.len(), |i: int| i))
}

fn knows(known: &Vec<String>, id: &str) -> (b: bool)
    ensures
        b == views(known@).contains(id@),
{
    let c = chars_of(id);
    let mut i: usize = 0;
    while i < known.len()
        invariant
            i <= known.len(),
            c@ == id@,
            forall|k: int| 0 <= k < i ==> views(known@)[k] != id@,
        decreases known.len() - i,
    {
        if eq_chars(&chars_of(known[i].as_str()), &c) {
            assert(views(known@)[i as int] == id@);
            return true;
        }
        i += 1;
    }
    false
}

fn round(known: &mut Vec<String>, hs: &Vec<Option<(String, Option<String>)>>, rem: &Vec<usize>)
    -> (r: (Vec<usize>, Vec<usize>, Option<LoadEnd>))
    requires
        forall|k: int| 0 <= k < rem@.len() ==> rem@[k] < hs@.len(),
    ensures
        ({
            let (rr, kk, dd, ss) = load_round(views(old(known)@), header_views(hs@), rem@.map_values(|i: usize| i as int));
            &&& r.0@.map_values(|i: usize| i as int) == rr
            &&& r.2 is None ==> views(final(known)@) == kk
            &&& r.1@.map_values(|i: usize| i as int) == dd
            &&& match r.2 { Some(e) => ss == Some(load_end_view(e)), None => ss is None }
        }),
        forall|k: int| 0 <= k < r.1@.len() ==> r.1@[k] < hs@.len(),
{
    let ghost hv = header_views(hs@);
    let ghost all = rem@.map_values(|i: usize| i as int);
    let ghost k0 = views(known@);
    let mut res: Vec<usize> = Vec::new();
    let mut def: Vec<usize> = Vec::new();
    let mut j: usize = 0;
    assert(all.skip(0) =~= all);
    assert(res@.map_values(|i: usize| i as int) =~= Seq::<int>::empty());
    assert(def@.map_values(|i: usize| i as int) =~= Seq::<int>::empty());
    proof {
        let (r1, k1, d1, s1) = load_round(k0, hv, all);
        assert(Seq::<int>::empty() + r1 =~= r1);
        assert(Seq::<int>::empty() + d1 =~= d1);
    }
    while j < rem.len()
        invariant
            j <= rem.len(),
            k0 == views(old(known)@),
            hv == header_views(hs@),
            all == rem@.map_values(|i: usize| i as int),
            forall|k: int| 0 <= k < rem@.len() ==> rem@[k] < hs@.len(),
            forall|k: int| 0 <= k < def@.len() ==> def@[k] < hs@.len(),
            ({
                let (r1, k1, d1, s1) = load_round(views(known@), hv, all.skip(j as int));
                load_round(k0, hv, all) == (res@.map_values(|i: usize| i as int) + r1, k1,
                    def@.map_values(|i: usize| i as int) + d1, s1)
            }),
        decreases rem.len() - j,
    {
        let i = rem[j];
        let ghost rest = all.skip(j as int);
        assert(rest[0] == i as int);
        assert(rest.skip(1) =~= all.skip(j + 1));
        assert(hv[i as int] == match hs@[i as int] {
            Some((id, ext)) => Some((id@, match ext { Some(e) => Some(e@), None => None })),
            None => None::<(Seq<char>, Option<Seq<char>>)>,
        });
        match &hs[i] {
            None => {
                assert(load_round(views(known@), hv, rest) == (Seq::<int>::empty(), views(known@), Seq::<int>::empty(),
                    Some(LoadEndView::BadHeader(i as int))));
                assert(res@.map_values(|i: usize| i as int) + Seq::<int>::empty() =~= res@.map_values(|i: usize| i as int));
                assert(def@.map_values(|i: usize| i as int) + Seq::<int>::empty() =~= def@.map_values(|i: usize| i as int));
                return (res, def, Some(LoadEnd::BadHeader(i)));
            },
            Some((id, ext)) => {
                let waits = match ext {
                    Some(e) => !knows(known, e.as_str()),
                    None => false,
                };
                let ghost kv = views(known@);
                if waits {
                    assert(load_round(kv, hv, rest) == ({
                        let (r, k, d, s) = load_round(kv, hv, rest.skip(1));
                        (r, k, seq![i as int] + d, s)
                    }));
                    let ghost d_old = def@.map_values(|i: usize| i as int);
                    def.push(i);
                    assert(def@.map_values(|i: usize| i as int) =~= d_old.push(i as int));
                    proof {
                        let (r1, k1, d1, s1) = load_round(views(known@), hv, all.skip(j + 1));
                        assert(d_old + (seq![i as int] + d1) =~= d_old.push(i as int) + d1);
                    }
                } else if knows(known, id.as_str()) {
                    assert(load_round(views(known@), hv, rest) == (Seq::<int>::empty(), views(known@), Seq::<int>::empty(),
                        Some(LoadEndView::Conflict(i as int))));
                    assert(res@.map_values(|i: usize| i as int) + Seq::<int>::empty() =~= res@.map_values(|i: usize| i as int));
                    assert(def@.map_values(|i: usize| i as int) + Seq::<int>::empty() =~= def@.map_values(|i: usize| i as int));
                    return (res, def, Some(LoadEnd::Conflict(i)));
                } else {
                    assert(load_round(kv, hv, rest) == ({
                        let (r, k, d, s) = load_round(kv.push(id@), hv, rest.skip(1));
                        (seq![i as int] + r, k, d, s)
                    }));
                    let ghost r_old = res@.map_values(|i: usize| i as int);
                    res.push(i);
                    known.push(id.clone());
                    assert(views(known@) =~= kv.push(id@));
                    assert(res@.map_values(|i: usize| i as int) =~= r_old.push(i as int));
                    proof {
                        let (r1, k1, d1, s1) = load_round(views(known@), hv, all.skip(j + 1));
                        assert(r_old + (seq![i as int] + r1) =~= r_old.push(i as int) + r1);
                    }
                }
            },
        }
        j += 1;
    }
    assert(all.skip(j as int).len() == 0);
    assert(res@.map_values(|i: usize| i as int) + Seq::<int>::empty() =~= res@.map_values(|i: usize| i as int));
    assert(def@.map_values(|i: usize| i as int) + Seq::<int>::empty() =~= def@.map_values(|i: usize| i as int));
    (res, def, None)
}

/// The order in which manifests with these headers (in path order) join a
/// registry that already knows `known`, and how loading ends (see
/// [`load_plan`]); the caller resolves them in that order and stops at the
/// first one that fails to resolve.
pub fn plan_manifest_loading(known: &Vec<String>, headers: &Vec<Option<(String, Option<String>)>>)
    -> (r: (Vec<usize>, LoadEnd))
    ensures
        (r.0@.map_values(|i: usize| i as int), load_end_view(r.1)) == load_plan(views(known@), header_views(headers@)),
{
    let mut ids: Vec<String> = known.clone();
    let mut rem: Vec<usize> = Vec::new();
    let mut i: usize = 0;
    while i < headers.len()
        invariant
            i <= headers.len(),
            rem@.len() == i,
            forall|k: int| 0 <= k < i ==> rem@[k] == k,
        decreases headers.len() - i,
    {
        rem.push(i);
        i += 1;
    }
    let ghost hv = header_views(headers@);
    assert(rem@.map_values(|i: usize| i as int) =~= Seq::new(hv.len(), |i: int| i));
    let mut order: Vec<usize> = Vec::new();
    loop
        invariant
            hv == header_views(headers@),
            forall|k: int| 0 <= k < rem@.len() ==> rem@[k] < headers@.len(),
            ({
                let (r1, e1) = load_passes(views(ids@), hv, rem@.map_values(|i: usize| i as int));
                load_plan(views(known@), hv) == (order@.map_values(|i: usize| i as int) + r1, e1)
            }),
        decreases rem@.len(),
    {
        let ghost o_old = order@.map_values(|i: usize| i as int);
        let ghost remv = rem@.map_values(|i: usize| i as int);
        let ghost k_old = views(ids@);
        if rem.len() == 0 {
            assert(o_old + Seq::<int>::empty() =~= o_old);
            return (order, LoadEnd::Done);
        }
        let (res, def, stop) = round(&mut ids, headers, &rem);
        proof {
            lemma_round_len(k_old, hv, remv);
        }
        let mut j: usize = 0;
        while j < res.len()
            invariant
                j <= res.len(),
                order@.map_values(|i: usize| i as int) == o_old + res@.map_values(|i: usize| i as int).take(j as int),
            decreases res.len() - j,
        {
            let ghost before = order@.map_values(|i: usize| i as int);
            order.push(res[j]);
            assert(order@.map_values(|i: usize| i as int) =~= before.push(res@[j as int] as int));
            proof {
                assert(res@.map_values(|i: usize| i as int).take(j + 1)
                    =~= res@.map_values(|i: usize| i as int).take(j as int).push(res@[j as int] as int));
            }
            j += 1;
        }
        assert(res@.map_values(|i: usize| i as int).take(res.len() as int) =~= res@.map_values(|i: usize| i as int));
        match stop {
            Some(e) => {
                return (order, e);
            },
            None => {},
        }
        if res.len() == 0 {
            assert(o_old + Seq::<int>::empty() =~= o_old);
            return (order, LoadEnd::Unresolved(def));
        }
        proof {
            let (r2, e2) = load_passes(views(ids@), hv, def@.map_values(|i: usize| i as int));
            assert(o_old + (res@.map_values(|i: usize| i as int) + r2) =~= (o_old + res@.map_values(|i: usize| i as int)) + r2);
        }
        rem = def;
    }
}

} // verus!
