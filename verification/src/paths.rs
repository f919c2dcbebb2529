//! Repository-relative paths held as text, split the way `Path::components`
//! splits a Unix path.

use vstd::prelude::*;

use crate::text::{deep, split_char, split_char_exec};

verus! {

/// The most directory components a configured path may have.
pub const MAX_DIRECTORY_COMPONENTS: usize = 128;

/// The named components of a path: the pieces between `/` that are neither
/// empty nor `.`.
pub open spec fn path_components(p: Seq<char>) -> Seq<Seq<char>> {
    split_char(p, '/').filter(|c: Seq<char>| c.len() > 0 && c != seq!['.'])
}

/// A path rooted at `/`.
pub open spec fn is_absolute(p: Seq<char>) -> bool {
    p.len() > 0 && p[0] == '/'
}

/// A path with a `..` component.
pub open spec fn has_parent_component(p: Seq<char>) -> bool {
    split_char(p, '/').contains(seq!['.', '.'])
}

fn is_dot(c: &[char]) -> (r: bool)
    ensures
        r == (c@ == seq!['.']),
{
    if c.len() == 1 && c[0] == '.' {
        assert(c@ =~= seq!['.']);
        true
    } else {
        false
    }
}

fn is_dot_dot(c: &[char]) -> (r: bool)
    ensures
        r == (c@ == seq!['.', '.']),
{
    if c.len() == 2 && c[0] == '.' && c[1] == '.' {
        assert(c@ =~= seq!['.', '.']);
        true
    } else {
        false
    }
}

pub fn path_components_exec(p: &[char]) -> (r: Vec<Vec<char>>)
    ensures
        deep(r@) == path_components(p@),
{
    let parts = split_char_exec(p, '/');
    let ghost all = deep(parts@);
    let ghost keep = |c: Seq<char>| c.len() > 0 && c != seq!['.'];
    let mut r: Vec<Vec<char>> = Vec::new();
    let mut k: usize = 0;
    while k < parts.len()
        invariant
            k <= parts.len(),
            all == deep(parts@),
            all == split_char(p@, '/'),
            keep == (|c: Seq<char>| c.len() > 0 && c != seq!['.']),
            deep(r@) == all.take(k as int).filter(keep),
        decreases parts.len() - k,
    {
        proof {
            reveal(Seq::filter);
            assert(all.take(k + 1).drop_last() =~= all.take(k as int));
        }
        assert(all[k as int] == parts[k as int]@);
        if parts[k].len() > 0 && !is_dot(parts[k].as_slice()) {
            let copy = crate::text::copy_chars(parts[k].as_slice());
            r.push(copy);
            assert(deep(r@) =~= deep(r@.drop_last()).push(copy@));
        }
        k += 1;
    }
    assert(all.take(parts.len() as int) =~= all);
    r
}

pub fn has_parent_component_exec(p: &[char]) -> (r: bool)
    ensures
        r == has_parent_component(p@),
{
    let parts = split_char_exec(p, '/');
    let ghost all = deep(parts@);
    let mut k: usize = 0;
    while k < parts.len()
        invariant
            k <= parts.len(),
            all == deep(parts@),
            all == split_char(p@, '/'),
            forall|j: int| 0 <= j < k ==> all[j] != seq!['.', '.'],
        decreases parts.len() - k,
    {
        assert(all[k as int] == parts[k as int]@);
        if is_dot_dot(parts[k].as_slice()) {
            assert(all.contains(seq!['.', '.']));
            return true;
        }
        k += 1;
    }
    false
}

/// `b` begins with the components of `a`.
pub open spec fn components_start_with(b: Seq<Seq<char>>, a: Seq<Seq<char>>) -> bool {
    a.len() <= b.len() && b.take(a.len() as int) == a
}

pub fn components_start_with_exec(b: &Vec<Vec<char>>, a: &Vec<Vec<char>>) -> (r: bool)
    ensures
        r == components_start_with(deep(b@), deep(a@)),
{
    if a.len() > b.len() {
        return false;
    }
    let mut i: usize = 0;
    while i < a.len()
        invariant
            a.len() <= b.len(),
            i <= a.len(),
            forall|j: int| 0 <= j < i ==> deep(b@)[j] == deep(a@)[j],
        decreases a.len() - i,
    {
        if !crate::text::occurs_at_exec(b[i].as_slice(), a[i].as_slice(), 0) || b[i].len()
            != a[i].len() {
            proof {
                if deep(b@).take(a.len() as int) == deep(a@) {
                    assert(deep(b@).take(a.len() as int)[i as int] == deep(a@)[i as int]);
                    assert(b@[i as int]@.subrange(0, a@[i as int]@.len() as int) =~= b@[i as int]@);
                }
            }
            return false;
        }
        assert(b@[i as int]@.subrange(0, a@[i as int]@.len() as int) =~= b@[i as int]@);
        i += 1;
    }
    assert(deep(b@).take(a.len() as int) =~= deep(a@));
    true
}

} // verus!
