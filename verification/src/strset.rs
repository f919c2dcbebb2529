//! Ordered sets of texts, held as strictly increasing vectors. Texts are
//! ordered as `String` orders them: by code point, a prefix first.

use vstd::prelude::*;

use crate::text::{chars_of, views};

verus! {

/// `a` sorts strictly before `b`.
pub open spec fn text_lt(a: Seq<char>, b: Seq<char>) -> bool
    decreases a.len(),
{
    if a.len() == 0 {
        b.len() > 0
    } else if b.len() == 0 {
        false
    } else if a[0] < b[0] {
        true
    } else if a[0] == b[0] {
        text_lt(a.drop_first(), b.drop_first())
    } else {
        false
    }
}

pub proof fn lemma_text_lt_irreflexive(a: Seq<char>)
    ensures
        !text_lt(a, a),
    decreases a.len(),
{
    if a.len() > 0 {
        lemma_text_lt_irreflexive(a.drop_first());
    }
}

pub proof fn lemma_text_lt_transitive(a: Seq<char>, b: Seq<char>, c: Seq<char>)
    requires
        text_lt(a, b),
        text_lt(b, c),
    ensures
        text_lt(a, c),
    decreases a.len(),
{
    if a.len() > 0 && b.len() > 0 && c.len() > 0 && a[0] == b[0] && b[0] == c[0] {
        lemma_text_lt_transitive(a.drop_first(), b.drop_first(), c.drop_first());
    }
}

pub proof fn lemma_text_lt_total(a: Seq<char>, b: Seq<char>)
    ensures
        a == b || text_lt(a, b) || text_lt(b, a),
    decreases a.len(),
{
    if a.len() > 0 && b.len() > 0 && a[0] == b[0] {
        lemma_text_lt_total(a.drop_first(), b.drop_first());
        if a.drop_first() == b.drop_first() {
            assert(a =~= seq![a[0]] + a.drop_first());
            assert(b =~= seq![b[0]] + b.drop_first());
        }
    } else if a.len() == 0 && b.len() == 0 {
        assert(a =~= b);
    }
}

pub proof fn lemma_text_lt_asymmetric(a: Seq<char>, b: Seq<char>)
    requires
        text_lt(a, b),
    ensures
        !text_lt(b, a),
{
    if text_lt(b, a) {
        lemma_text_lt_transitive(a, b, a);
        lemma_text_lt_irreflexive(a);
    }
}

/// Whether `a` sorts strictly before `b`.
pub fn text_less(a: &str, b: &str) -> (r: bool)
    ensures
        r == text_lt(a@, b@),
{
    let x = chars_of(a);
    let y = chars_of(b);
    let mut i: usize = 0;
    assert(a@.skip(0) =~= a@);
    assert(b@.skip(0) =~= b@);
    while i < x.len() && i < y.len()
        invariant
            x@ == a@,
            y@ == b@,
            i <= x.len(),
            i <= y.len(),
            text_lt(a@, b@) == text_lt(a@.skip(i as int), b@.skip(i as int)),
        decreases x.len() - i,
    {
        assert(a@.skip(i as int).drop_first() =~= a@.skip(i + 1));
        assert(b@.skip(i as int).drop_first() =~= b@.skip(i + 1));
        assert(a@.skip(i as int)[0] == x@[i as int]);
        assert(b@.skip(i as int)[0] == y@[i as int]);
        if x[i] < y[i] {
            return true;
        }
        if x[i] != y[i] {
            return false;
        }
        i += 1;
    }
    assert(a@.skip(i as int).len() == x.len() - i);
    i < y.len() && i == x.len()
}

/// Strictly increasing: sorted, with no text twice.
pub open spec fn increasing(s: Seq<Seq<char>>) -> bool {
    forall|i: int, j: int| 0 <= i < j < s.len() ==> text_lt(#[trigger] s[i], #[trigger] s[j])
}

/// The texts of an ordered set.
pub open spec fn members(v: Seq<String>) -> Set<Seq<char>> {
    views(v).to_set()
}

/// Adds a text to an ordered set.
pub fn insert_text(set: &mut Vec<String>, x: String)
    requires
        increasing(views(old(set)@)),
    ensures
        increasing(views(final(set)@)),
        members(final(set)@) == members(old(set)@).insert(x@),
{
    let ghost old_v = views(set@);
    let mut p: usize = 0;
    while p < set.len() && text_less(set[p].as_str(), x.as_str())
        invariant
            p <= set.len(),
            views(set@) == old_v,
            increasing(old_v),
            forall|i: int| 0 <= i < p ==> text_lt(#[trigger] old_v[i], x@),
        decreases set.len() - p,
    {
        assert(old_v[p as int] == set@[p as int]@);
        p += 1;
    }
    if p < set.len() && crate::text::same_text(set[p].as_str(), x.as_str()) {
        assert(old_v[p as int] == x@);
        assert(members(set@) =~= members(set@).insert(x@)) by {
            assert(views(set@).contains(x@));
        }
        return;
    }
    proof {
        if p < set.len() {
            assert(old_v[p as int] == set@[p as int]@);
            lemma_text_lt_total(old_v[p as int], x@);
        }
    }
    let ghost xv = x@;
    set.insert(p, x);
    let ghost new_v = views(set@);
    assert(new_v =~= old_v.take(p as int).push(xv) + old_v.skip(p as int));
    assert forall|i: int, j: int| 0 <= i < j < new_v.len() implies text_lt(
        #[trigger] new_v[i],
        #[trigger] new_v[j],
    ) by {
        if j < p {
            assert(new_v[i] == old_v[i] && new_v[j] == old_v[j]);
        } else if j == p {
            assert(new_v[i] == old_v[i]);
        } else if i < p {
            assert(new_v[i] == old_v[i] && new_v[j] == old_v[j - 1]);
            assert(text_lt(old_v[i], xv));
            assert(text_lt(xv, old_v[p as int]));
            if j - 1 > p {
                lemma_text_lt_transitive(xv, old_v[p as int], old_v[j - 1]);
            }
            lemma_text_lt_transitive(old_v[i], xv, old_v[j - 1]);
        } else if i == p {
            assert(new_v[j] == old_v[j - 1]);
            if j - 1 > p {
                lemma_text_lt_transitive(xv, old_v[p as int], old_v[j - 1]);
            }
        } else {
            assert(new_v[i] == old_v[i - 1] && new_v[j] == old_v[j - 1]);
        }
    }
    assert(members(set@) =~= old_v.to_set().insert(xv)) by {
        assert forall|t: Seq<char>| new_v.contains(t) <==> (old_v.contains(t) || t == xv) by {
            if new_v.contains(t) {
                let k = choose|k: int| 0 <= k < new_v.len() && new_v[k] == t;
                if k < p {
                    assert(old_v[k] == t);
                } else if k > p {
                    assert(old_v[k - 1] == t);
                }
            }
            if old_v.contains(t) {
                let k = choose|k: int| 0 <= k < old_v.len() && old_v[k] == t;
                if k < p {
                    assert(new_v[k] == t);
                } else {
                    assert(new_v[k + 1] == t);
                }
            }
            if t == xv {
                assert(new_v[p as int] == t);
            }
        }
    }
}

/// Removes a text from an ordered set.
pub fn remove_text(set: &mut Vec<String>, x: &str)
    requires
        increasing(views(old(set)@)),
    ensures
        increasing(views(final(set)@)),
        members(final(set)@) == members(old(set)@).remove(x@),
{
    let ghost old_v = views(set@);
    let mut p: usize = 0;
    while p < set.len()
        invariant
            p <= set.len(),
            views(set@) == old_v,
            old_v == views(old(set)@),
            increasing(old_v),
            forall|i: int| 0 <= i < p ==> old_v[i] != x@,
        decreases set.len() - p,
    {
        assert(old_v[p as int] == set@[p as int]@);
        if crate::text::same_text(set[p].as_str(), x) {
            let _ = set.remove(p);
            let ghost new_v = views(set@);
            assert(new_v =~= old_v.take(p as int) + old_v.skip(p + 1));
            assert forall|i: int, j: int| 0 <= i < j < new_v.len() implies text_lt(
                #[trigger] new_v[i],
                #[trigger] new_v[j],
            ) by {
                if j < p {
                    assert(new_v[i] == old_v[i] && new_v[j] == old_v[j]);
                } else if i < p {
                    assert(new_v[i] == old_v[i] && new_v[j] == old_v[j + 1]);
                } else {
                    assert(new_v[i] == old_v[i + 1] && new_v[j] == old_v[j + 1]);
                }
            }
            assert(members(set@) =~= old_v.to_set().remove(x@)) by {
                assert forall|t: Seq<char>| new_v.contains(t) <==> (old_v.contains(t) && t != x@) by {
                    if new_v.contains(t) {
                        let k = choose|k: int| 0 <= k < new_v.len() && new_v[k] == t;
                        if k < p {
                            assert(old_v[k] == t);
                            lemma_text_lt_irreflexive(t);
                            assert(text_lt(old_v[k], old_v[p as int]));
                        } else {
                            assert(old_v[k + 1] == t);
                            lemma_text_lt_irreflexive(t);
                            assert(text_lt(old_v[p as int], old_v[k + 1]));
                        }
                    }
                    if old_v.contains(t) && t != x@ {
                        let k = choose|k: int| 0 <= k < old_v.len() && old_v[k] == t;
                        if k < p {
                            assert(new_v[k] == t);
                        } else {
                            assert(k != p);
                            assert(new_v[k - 1] == t);
                        }
                    }
                }
            }
            return;
        }
        p += 1;
    }
    assert(members(set@) =~= members(set@).remove(x@)) by {
        assert(!old_v.contains(x@));
    }
}

/// Whether an ordered set holds a text.
pub fn holds_text(set: &Vec<String>, x: &str) -> (r: bool)
    ensures
        r == members(set@).contains(x@),
{
    let mut p: usize = 0;
    while p < set.len()
        invariant
            p <= set.len(),
            forall|i: int| 0 <= i < p ==> views(set@)[i] != x@,
        decreases set.len() - p,
    {
        assert(views(set@)[p as int] == set@[p as int]@);
        if crate::text::same_text(set[p].as_str(), x) {
            assert(views(set@).contains(x@));
            return true;
        }
        p += 1;
    }
    false
}


pub proof fn lemma_members_push(v: Seq<String>, x: String)
    ensures
        members(v.push(x)) == members(v).insert(x@),
{
    assert(views(v.push(x)) =~= views(v).push(x@));
    assert forall|t: Seq<char>| members(v.push(x)).contains(t) <==> members(v).insert(x@).contains(t) by {
        let w = views(v.push(x));
        if w.contains(t) {
            let k = choose|k: int| 0 <= k < w.len() && w[k] == t;
            if k < v.len() {
                assert(views(v)[k] == t);
            }
        }
        if views(v).contains(t) {
            let k = choose|k: int| 0 <= k < views(v).len() && views(v)[k] == t;
            assert(w[k] == t);
        }
        if t == x@ {
            assert(w[v.len() as int] == t);
        }
    }
    assert(members(v.push(x)) =~= members(v).insert(x@));
}

/// The texts of a finite set in increasing order.
pub open spec fn sorted_texts(s: Set<Seq<char>>) -> Seq<Seq<char>> {
    choose|b: Seq<Seq<char>>| increasing(b) && b.to_set() == s
}

/// An increasing sequence is determined by the texts it holds.
pub proof fn lemma_increasing_unique(a: Seq<Seq<char>>, b: Seq<Seq<char>>)
    requires
        increasing(a),
        increasing(b),
        a.to_set() == b.to_set(),
    ensures
        a == b,
    decreases a.len(),
{
    if a.len() == 0 {
        if b.len() > 0 {
            assert(b.to_set().contains(b[0]));
        }
        assert(a =~= b);
    } else {
        assert(a.to_set().contains(a[0]));
        assert(b.len() > 0);
        assert(b.to_set().contains(b[0]));
        assert(a.contains(b[0]));
        assert(b.contains(a[0]));
        let ka = choose|k: int| 0 <= k < a.len() && a[k] == b[0];
        let kb = choose|k: int| 0 <= k < b.len() && b[k] == a[0];
        if ka > 0 && kb > 0 {
            assert(text_lt(a[0], a[ka]));
            assert(text_lt(b[0], b[kb]));
            lemma_text_lt_asymmetric(a[0], b[0]);
        }
        if ka > 0 && kb == 0 {
            assert(text_lt(a[0], a[ka]));
            lemma_text_lt_irreflexive(a[0]);
        }
        if ka == 0 && kb > 0 {
            assert(text_lt(b[0], b[kb]));
            lemma_text_lt_irreflexive(b[0]);
        }
        assert(a[0] == b[0]);
        let a1 = a.drop_first();
        let b1 = b.drop_first();
        assert forall|x: Seq<char>| a1.to_set().contains(x) <==> b1.to_set().contains(x) by {
            if a1.contains(x) {
                let k = choose|k: int| 0 <= k < a1.len() && a1[k] == x;
                assert(a[k + 1] == x);
                assert(text_lt(a[0], a[k + 1]));
                lemma_text_lt_irreflexive(x);
                assert(a.contains(x));
                assert(a.to_set().contains(x));
                assert(b.contains(x));
                let j = choose|j: int| 0 <= j < b.len() && b[j] == x;
                assert(j != 0);
                assert(b1[j - 1] == x);
            }
            if b1.contains(x) {
                let k = choose|k: int| 0 <= k < b1.len() && b1[k] == x;
                assert(b[k + 1] == x);
                assert(text_lt(b[0], b[k + 1]));
                lemma_text_lt_irreflexive(x);
                assert(b.contains(x));
                assert(b.to_set().contains(x));
                assert(a.contains(x));
                let j = choose|j: int| 0 <= j < a.len() && a[j] == x;
                assert(j != 0);
                assert(a1[j - 1] == x);
            }
        }
        assert(a1.to_set() =~= b1.to_set());
        assert(increasing(a1)) by {
            assert forall|i: int, j: int| 0 <= i < j < a1.len() implies text_lt(#[trigger] a1[i], #[trigger] a1[j]) by {
                assert(a1[i] == a[i + 1] && a1[j] == a[j + 1]);
            }
        }
        assert(increasing(b1)) by {
            assert forall|i: int, j: int| 0 <= i < j < b1.len() implies text_lt(#[trigger] b1[i], #[trigger] b1[j]) by {
                assert(b1[i] == b[i + 1] && b1[j] == b[j + 1]);
            }
        }
        lemma_increasing_unique(a1, b1);
        assert(a =~= b) by {
            assert forall|i: int| 0 <= i < a.len() implies a[i] == b[i] by {
                if i > 0 {
                    assert(a[i] == a1[i - 1]);
                    assert(b[i] == b1[i - 1]);
                }
            }
        }
    }
}

/// An increasing sequence is the sorted order of its texts.
pub proof fn lemma_sorted_texts(v: Seq<Seq<char>>)
    requires
        increasing(v),
    ensures
        sorted_texts(v.to_set()) == v,
{
    let b = sorted_texts(v.to_set());
    assert(increasing(v) && v.to_set() == v.to_set());
    lemma_increasing_unique(b, v);
}

/// A finite non-empty set of texts has a greatest text.
pub proof fn lemma_greatest_text(s: Set<Seq<char>>) -> (m: Seq<char>)
    requires
        s.finite(),
        s.len() > 0,
    ensures
        s.contains(m),
        forall|t: Seq<char>| #[trigger] s.contains(t) && t != m ==> text_lt(t, m),
    decreases s.len(),
{
    let y = s.choose();
    let rest = s.remove(y);
    if rest.len() == 0 {
        assert forall|t: Seq<char>| #[trigger] s.contains(t) && t != y implies text_lt(t, y) by {
            assert(rest.contains(t));
        }
        y
    } else {
        let m = lemma_greatest_text(rest);
        lemma_text_lt_total(y, m);
        if text_lt(m, y) {
            assert forall|t: Seq<char>| #[trigger] s.contains(t) && t != y implies text_lt(t, y) by {
                if t != m {
                    assert(rest.contains(t));
                    lemma_text_lt_transitive(t, m, y);
                }
            }
            y
        } else {
            assert forall|t: Seq<char>| #[trigger] s.contains(t) && t != m implies text_lt(t, m) by {
                if t != y {
                    assert(rest.contains(t));
                }
            }
            m
        }
    }
}

/// Every finite set of texts has its increasing order: `sorted_texts` of it
/// is increasing and holds exactly its texts.
pub proof fn lemma_sorted_texts_exist(s: Set<Seq<char>>)
    requires
        s.finite(),
    ensures
        increasing(sorted_texts(s)),
        sorted_texts(s).to_set() == s,
    decreases s.len(),
{
    if s.len() == 0 {
        let e = Seq::<Seq<char>>::empty();
        assert(e.to_set() =~= s);
        assert(increasing(e));
    } else {
        let m = lemma_greatest_text(s);
        let rest = s.remove(m);
        lemma_sorted_texts_exist(rest);
        let b = sorted_texts(rest);
        let c = b.push(m);
        assert forall|i: int, j: int| 0 <= i < j < c.len() implies text_lt(#[trigger] c[i], #[trigger] c[j]) by {
            if j < b.len() {
                assert(c[i] == b[i] && c[j] == b[j]);
            } else {
                assert(c[i] == b[i]);
                assert(b.to_set().contains(b[i]));
                assert(rest.contains(b[i]));
            }
        }
        assert forall|t: Seq<char>| c.to_set().contains(t) <==> s.contains(t) by {
            if s.contains(t) && t != m {
                assert(rest.contains(t));
                assert(b.to_set().contains(t));
                let q = choose|q: int| 0 <= q < b.len() && b[q] == t;
                assert(c[q] == t);
            }
            if t == m {
                assert(c[b.len() as int] == m);
            }
            if c.to_set().contains(t) {
                let q = choose|q: int| 0 <= q < c.len() && c[q] == t;
                if q < b.len() {
                    assert(b[q] == t);
                    assert(b.to_set().contains(t));
                }
            }
        }
        assert(c.to_set() =~= s);
        assert(increasing(c) && c.to_set() == s);
    }
}

/// Inserts each text into the sorted set.
pub fn add_all(set: &mut Vec<String>, items: Vec<String>)
    requires
        increasing(views(old(set)@)),
    ensures
        increasing(views(final(set)@)),
        members(final(set)@) == members(old(set)@).union(views(items@).to_set()),
{
    let ghost start = members(set@);
    let ghost iv = views(items@);
    let mut i: usize = 0;
    assert(iv.take(0).to_set() =~= Set::empty());
    assert(start.union(Set::empty()) =~= start);
    while i < items.len()
        invariant
            i <= items.len(),
            iv == views(items@),
            increasing(views(set@)),
            members(set@) == start.union(iv.take(i as int).to_set()),
        decreases items.len() - i,
    {
        insert_text(set, items[i].clone());
        proof {
            assert(iv.take(i + 1) =~= iv.take(i as int).push(items@[i as int]@));
            iv.take(i as int).lemma_push_to_set_commute(items@[i as int]@);
            assert(start.union(iv.take(i as int).to_set()).insert(items@[i as int]@) =~= start.union(iv.take(i + 1).to_set()));
        }
        i += 1;
    }
    assert(iv.take(items.len() as int) =~= iv);
}

/// The sorted distinct texts of a list.
pub fn sorted_distinct(items: Vec<String>) -> (r: Vec<String>)
    ensures
        views(r@) == sorted_texts(views(items@).to_set()),
        increasing(views(r@)),
        views(r@).to_set() == views(items@).to_set(),
{
    let mut set: Vec<String> = Vec::new();
    assert(views(set@) =~= Seq::<Seq<char>>::empty());
    assert(members(set@) =~= Set::<Seq<char>>::empty());
    let ghost iv = views(items@);
    add_all(&mut set, items);
    assert(members(set@) =~= iv.to_set());
    proof {
        lemma_sorted_texts(views(set@));
    }
    set
}

} // verus!
