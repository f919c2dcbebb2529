//! The workspace list of a repository: its candidate directories taken once
//! each, the cap on how many workspaces it declares, and the order in which
//! they are reported (by root, component by component).

use vstd::multiset::Multiset;
use vstd::prelude::*;

use super::{DiscoveryError, Workspace, MAX_WORKSPACES};
use crate::paths::{path_components, path_components_exec};
use crate::strset::{
    increasing, lemma_text_lt_irreflexive, lemma_text_lt_transitive, sorted_distinct,
    sorted_texts, text_less, text_lt,
};
use crate::text::{chars_of, deep, same_text, string_of, views};

verus! {

/// `a` sorts strictly before `b`, component by component, a prefix first.
pub open spec fn comps_lt(a: Seq<Seq<char>>, b: Seq<Seq<char>>) -> bool
    decreases a.len(),
{
    if a.len() == 0 {
        b.len() > 0
    } else if b.len() == 0 {
        false
    } else if text_lt(a[0], b[0]) {
        true
    } else if a[0] == b[0] {
        comps_lt(a.drop_first(), b.drop_first())
    } else {
        false
    }
}

/// A root sorts before another when its components do (`.` has none).
pub open spec fn root_lt(a: Seq<char>, b: Seq<char>) -> bool {
    comps_lt(path_components(a), path_components(b))
}

proof fn lemma_comps_lt_transitive(a: Seq<Seq<char>>, b: Seq<Seq<char>>, c: Seq<Seq<char>>)
    requires
        comps_lt(a, b),
        comps_lt(b, c),
    ensures
        comps_lt(a, c),
    decreases a.len(),
{
    if a.len() > 0 && b.len() > 0 && c.len() > 0 {
        if text_lt(a[0], b[0]) && text_lt(b[0], c[0]) {
            lemma_text_lt_transitive(a[0], b[0], c[0]);
        } else if a[0] == b[0] && b[0] == c[0] {
            lemma_comps_lt_transitive(a.drop_first(), b.drop_first(), c.drop_first());
        }
    }
}

proof fn lemma_comps_lt_irreflexive(a: Seq<Seq<char>>)
    ensures
        !comps_lt(a, a),
    decreases a.len(),
{
    if a.len() > 0 {
        lemma_text_lt_irreflexive(a[0]);
        lemma_comps_lt_irreflexive(a.drop_first());
    }
}

/// Roots in the order they are reported: no root sorts before an earlier one.
pub open spec fn in_root_order(ws: Seq<Workspace>) -> bool {
    forall|i: int, j: int| 0 <= i < j < ws.len() ==> !root_lt(#[trigger] ws[j].root@, #[trigger] ws[i].root@)
}

/// The candidate directories of a walk, each once, in text order.
pub fn candidate_dirs(found: Vec<String>) -> (r: Vec<String>)
    ensures
        views(r@) == sorted_texts(views(found@).to_set()),
        increasing(views(r@)),
        views(r@).to_set() == views(found@).to_set(),
{
    sorted_distinct(found)
}

/// The components of a root, as texts.
fn root_components(root: &String) -> (r: Vec<String>)
    ensures
        views(r@) == path_components(root@),
{
    let c = chars_of(root.as_str());
    let parts = path_components_exec(c.as_slice());
    let mut out: Vec<String> = Vec::new();
    let mut i: usize = 0;
    while i < parts.len()
        invariant
            i <= parts.len(),
            views(out@) == deep(parts@).take(i as int),
        decreases parts.len() - i,
    {
        let ghost before = views(out@);
        out.push(string_of(parts[i].as_slice()));
        assert(views(out@) =~= before.push(parts@[i as int]@));
        assert(deep(parts@).take(i + 1) =~= deep(parts@).take(i as int).push(parts@[i as int]@));
        i += 1;
    }
    assert(deep(parts@).take(parts.len() as int) =~= deep(parts@));
    out
}

fn comps_less(a: &Vec<String>, b: &Vec<String>) -> (r: bool)
    ensures
        r == comps_lt(views(a@), views(b@)),
{
    let mut i: usize = 0;
    assert(views(a@).skip(0) =~= views(a@));
    assert(views(b@).skip(0) =~= views(b@));
    while i < a.len() && i < b.len()
        invariant
            i <= a.len(),
            i <= b.len(),
            comps_lt(views(a@), views(b@)) == comps_lt(views(a@).skip(i as int), views(b@).skip(i as int)),
        decreases a.len() - i,
    {
        let ghost sa = views(a@).skip(i as int);
        let ghost sb = views(b@).skip(i as int);
        assert(sa[0] == a@[i as int]@ && sb[0] == b@[i as int]@);
        if text_less(a[i].as_str(), b[i].as_str()) {
            return true;
        }
        if !same_text(a[i].as_str(), b[i].as_str()) {
            return false;
        }
        assert(sa.drop_first() =~= views(a@).skip(i + 1));
        assert(sb.drop_first() =~= views(b@).skip(i + 1));
        i += 1;
    }
    i == a.len() && i < b.len()
}

/// The workspaces discovery reports, given those its distinct candidate
/// directories declare (in any order): refused when there are more than
/// `MAX_WORKSPACES`; otherwise the same workspaces, ordered by root.
pub fn assemble_workspaces(found: Vec<Workspace>) -> (r: Result<Vec<Workspace>, DiscoveryError>)
    ensures
        found@.len() > MAX_WORKSPACES ==> r == Err::<Vec<Workspace>, DiscoveryError>(
            DiscoveryError::WorkspaceLimit { limit: MAX_WORKSPACES },
        ),
        found@.len() <= MAX_WORKSPACES ==> (r matches Ok(ws) && ws@.to_multiset() == found@.to_multiset()
            && in_root_order(ws@)),
{
    if found.len() > MAX_WORKSPACES {
        return Err(DiscoveryError::WorkspaceLimit { limit: MAX_WORKSPACES });
    }
    let mut work = found;
    let ghost all = work@.to_multiset();
    let mut out: Vec<Workspace> = Vec::new();
    proof {
        out@.to_multiset_ensures();
        vstd::multiset::lemma_multiset_empty_len(out@.to_multiset());
    }
    assert(out@.to_multiset() =~= Multiset::<Workspace>::empty());
    while work.len() > 0
        invariant
            out@.to_multiset().add(work@.to_multiset()) == all,
            in_root_order(out@),
            forall|i: int, j: int|
                0 <= i < out@.len() && 0 <= j < work@.len() ==> !root_lt(
                    #[trigger] work@[j].root@,
                    #[trigger] out@[i].root@,
                ),
        decreases work.len(),
    {
        let mut best: usize = 0;
        let mut best_key = root_components(&work[0].root);
        let mut k: usize = 1;
        proof {
            lemma_comps_lt_irreflexive(path_components(work@[0].root@));
        }
        while k < work.len()
            invariant
                0 < k <= work.len(),
                best < work.len(),
                views(best_key@) == path_components(work@[best as int].root@),
                forall|q: int| 0 <= q < k ==> !root_lt(#[trigger] work@[q].root@, work@[best as int].root@),
            decreases work.len() - k,
        {
            let key = root_components(&work[k].root);
            if comps_less(&key, &best_key) {
                proof {
                    assert forall|q: int| 0 <= q < k implies !root_lt(
                        #[trigger] work@[q].root@,
                        work@[k as int].root@,
                    ) by {
                        if root_lt(work@[q].root@, work@[k as int].root@) {
                            lemma_comps_lt_transitive(
                                path_components(work@[q].root@),
                                path_components(work@[k as int].root@),
                                path_components(work@[best as int].root@),
                            );
                        }
                    }
                    lemma_comps_lt_irreflexive(path_components(work@[k as int].root@));
                }
                best = k;
                best_key = key;
            }
            k += 1;
        }
        let ghost before_out = out@;
        let ghost before_work = work@;
        let w = work.remove(best);
        proof {
            assert(before_work[best as int] == w);
            assert(work@ == before_work.remove(best as int));
            before_work.to_multiset_ensures();
            assert(before_work.remove(best as int).to_multiset() == before_work.to_multiset().remove(before_work[best as int]));
        }
        out.push(w);
        proof {
            assert(out@ == before_out.push(w));
            before_out.to_multiset_ensures();
            assert(out@.to_multiset() == before_out.to_multiset().insert(w));
            assert(before_work.to_multiset().contains(w)) by {
                assert(before_work.contains(w)) by {
                    assert(before_work[best as int] == w);
                }
            }
            assert(out@.to_multiset().add(work@.to_multiset()) =~= all);
            assert forall|i: int, j: int| 0 <= i < j < out@.len() implies !root_lt(
                #[trigger] out@[j].root@,
                #[trigger] out@[i].root@,
            ) by {
                if j == out@.len() - 1 {
                    assert(out@[i] == before_out[i]);
                    assert(before_work[best as int] == w);
                } else {
                    assert(out@[i] == before_out[i] && out@[j] == before_out[j]);
                }
            }
            assert forall|i: int, j: int| 0 <= i < out@.len() && 0 <= j < work@.len() implies !root_lt(
                #[trigger] work@[j].root@,
                #[trigger] out@[i].root@,
            ) by {
                let oj: int = if j < best { j } else { j + 1 };
                assert(work@[j] == before_work[oj]);
                if i == out@.len() - 1 {
                    assert(out@[i] == w);
                } else {
                    assert(out@[i] == before_out[i]);
                }
            }
        }
    }
    proof {
        work@.to_multiset_ensures();
        vstd::multiset::lemma_multiset_empty_len(work@.to_multiset());
    }
    assert(work@.to_multiset() =~= Multiset::<Workspace>::empty());
    assert(out@.to_multiset() =~= all);
    Ok(out)
}

} // verus!
