//! The changed paths git reports, read from its NUL-separated output.

use vstd::prelude::*;

use crate::paths::{has_parent_component, has_parent_component_exec};
use crate::strset::{increasing, insert_text, members, remove_text};
use crate::text::{byte_views, chars_of, nul_fields_of, split_nul_fields, utf8_text, views};

verus! {

/// A path git may report: relative, with no `..` component.
pub open spec fn safe_path(p: Seq<char>) -> bool {
    !(p.len() > 0 && p[0] == '/') && !has_parent_component(p)
}

pub fn validate_path(path: &str) -> (r: Result<(), String>)
    ensures
        match r {
            Ok(_) => safe_path(path@),
            Err(e) => !safe_path(path@) && e@ == "unsafe git path"@,
        },
{
    let c = chars_of(path);
    if (c.len() > 0 && c[0] == '/') || has_parent_component_exec(c.as_slice()) {
        Err(String::from_str("unsafe git path"))
    } else {
        Ok(())
    }
}

/// The text of one reported path, or why it is refused.
pub open spec fn path_field(f: Seq<u8>) -> Result<Seq<char>, Seq<char>> {
    if !vstd::utf8::valid_utf8(f) {
        Err("git path was not UTF-8"@)
    } else if !safe_path(vstd::utf8::decode_utf8(f)) {
        Err("unsafe git path"@)
    } else {
        Ok(vstd::utf8::decode_utf8(f))
    }
}

fn read_path(f: &[u8]) -> (r: Result<String, String>)
    ensures
        match (r, path_field(f@)) {
            (Ok(s), Ok(p)) => s@ == p,
            (Err(e), Err(m)) => e@ == m,
            _ => false,
        },
{
    let p = match utf8_text(f) {
        Some(p) => p,
        None => return Err(String::from_str("git path was not UTF-8")),
    };
    match validate_path(p.as_str()) {
        Ok(_) => Ok(p),
        Err(e) => Err(e),
    }
}

/// The first refused field of an untracked-path list.
pub open spec fn paths_error(fields: Seq<Seq<u8>>) -> Option<Seq<char>>
    decreases fields.len(),
{
    if fields.len() == 0 {
        None
    } else if paths_error(fields.drop_last()) is Some {
        paths_error(fields.drop_last())
    } else {
        match path_field(fields.last()) {
            Err(m) => Some(m),
            Ok(_) => None,
        }
    }
}

pub open spec fn field_texts(fields: Seq<Seq<u8>>) -> Set<Seq<char>> {
    Set::new(|t: Seq<char>| exists|k: int| 0 <= k < fields.len() && path_field(#[trigger] fields[k]) == Ok::<Seq<char>, Seq<char>>(t))
}

/// Records the untracked paths git lists: each becomes a changed file whose
/// test evidence counts.
pub fn parse_paths(bytes: &[u8], files: &mut Vec<String>, excluded: &mut Vec<String>) -> (r:
    Result<(), String>)
    requires
        increasing(views(old(files)@)),
        increasing(views(old(excluded)@)),
    ensures
        increasing(views(final(files)@)),
        increasing(views(final(excluded)@)),
        match r {
            Ok(_) => paths_error(nul_fields_of(bytes@)) is None && members(final(files)@)
                == members(old(files)@).union(field_texts(nul_fields_of(bytes@)))
                && members(final(excluded)@) == members(old(excluded)@).difference(
                field_texts(nul_fields_of(bytes@)),
            ),
            Err(e) => paths_error(nul_fields_of(bytes@)) == Some(e@),
        },
{
    let fields = split_nul_fields(bytes);
    let ghost fs = nul_fields_of(bytes@);
    let ghost files0 = members(files@);
    let ghost excl0 = members(excluded@);
    let mut i: usize = 0;
    assert(byte_views(fields@).take(0) =~= Seq::<Seq<u8>>::empty());
    assert(field_texts(fs.take(0)) =~= Set::<Seq<char>>::empty());
    assert(files0.union(Set::<Seq<char>>::empty()) =~= files0);
    assert(excl0.difference(Set::<Seq<char>>::empty()) =~= excl0);
    while i < fields.len()
        invariant
            byte_views(fields@) == fs,
            fs == nul_fields_of(bytes@),
            files0 == members(old(files)@),
            excl0 == members(old(excluded)@),
            i <= fields.len(),
            increasing(views(files@)),
            increasing(views(excluded@)),
            paths_error(fs.take(i as int)) is None,
            members(files@) == files0.union(field_texts(fs.take(i as int))),
            members(excluded@) == excl0.difference(field_texts(fs.take(i as int))),
        decreases fields.len() - i,
    {
        assert(fs.take(i + 1).drop_last() =~= fs.take(i as int));
        assert(fs[i as int] == fields@[i as int]@);
        let p = match read_path(fields[i].as_slice()) {
            Ok(p) => p,
            Err(e) => {
                proof {
                    lemma_paths_error_stops(fs, i + 1);
                }
                return Err(e);
            },
        };
        let ghost pv = p@;
        remove_text(excluded, p.as_str());
        insert_text(files, p);
        proof {
            assert(field_texts(fs.take(i + 1)) =~= field_texts(fs.take(i as int)).insert(pv)) by {
                assert forall|t: Seq<char>| field_texts(fs.take(i + 1)).contains(t) <==> (
                field_texts(fs.take(i as int)).contains(t) || t == pv) by {
                    if field_texts(fs.take(i + 1)).contains(t) {
                        let k = choose|k: int|
                            0 <= k < fs.take(i + 1).len() && path_field(#[trigger] fs.take(i + 1)[k])
                                == Ok::<Seq<char>, Seq<char>>(t);
                        if k < i {
                            assert(fs.take(i as int)[k] == fs.take(i + 1)[k]);
                        }
                    }
                    if field_texts(fs.take(i as int)).contains(t) {
                        let k = choose|k: int|
                            0 <= k < fs.take(i as int).len() && path_field(
                                #[trigger] fs.take(i as int)[k],
                            ) == Ok::<Seq<char>, Seq<char>>(t);
                        assert(fs.take(i + 1)[k] == fs.take(i as int)[k]);
                    }
                    if t == pv {
                        assert(fs.take(i + 1)[i as int] == fs[i as int]);
                    }
                }
            }
            assert(members(files@) =~= files0.union(field_texts(fs.take(i + 1))));
            assert(members(excluded@) =~= excl0.difference(field_texts(fs.take(i + 1))));
        }
        i += 1;
    }
    assert(fs.take(fields.len() as int) =~= fs);
    Ok(())
}

proof fn lemma_paths_error_stops(fs: Seq<Seq<u8>>, i: int)
    requires
        0 <= i <= fs.len(),
        paths_error(fs.take(i)) is Some,
    ensures
        paths_error(fs) == paths_error(fs.take(i)),
    decreases fs.len(),
{
    if i < fs.len() {
        assert(fs.drop_last().take(i) =~= fs.take(i));
        lemma_paths_error_stops(fs.drop_last(), i);
    } else {
        assert(fs.take(i) =~= fs);
    }
}


pub open spec fn status_starts(st: Seq<char>, c: char) -> bool {
    st.len() > 0 && st[0] == c
}

/// Applies git's name-status records from field `i` on: every listed path
/// is a changed file; a deleted path's test evidence is excluded; a rename
/// or copy keeps the exclusion of its source and clears its destination;
/// any other path clears its exclusion.
pub open spec fn name_status_from(
    fs: Seq<Seq<u8>>,
    i: nat,
    files: Set<Seq<char>>,
    excl: Set<Seq<char>>,
) -> Result<(Set<Seq<char>>, Set<Seq<char>>), Seq<char>>
    decreases fs.len() - i,
{
    if i >= fs.len() {
        Ok((files, excl))
    } else if !vstd::utf8::valid_utf8(fs[i as int]) {
        Err("git status was not UTF-8"@)
    } else {
        let st = vstd::utf8::decode_utf8(fs[i as int]);
        let rc = status_starts(st, 'R') || status_starts(st, 'C');
        let del = status_starts(st, 'D');
        let n: nat = if rc {
            2
        } else {
            1
        };
        if i + 1 + n > fs.len() {
            Err("malformed git name-status output"@)
        } else {
            match path_field(fs[i + 1int]) {
                Err(m) => Err(m),
                Ok(p0) => {
                    let f1 = files.insert(p0);
                    let e1 = if del {
                        excl.insert(p0)
                    } else if !rc {
                        excl.remove(p0)
                    } else {
                        excl
                    };
                    if rc {
                        match path_field(fs[i + 2int]) {
                            Err(m) => Err(m),
                            Ok(p1) => name_status_from(fs, i + 3, f1.insert(p1), e1.remove(p1)),
                        }
                    } else {
                        name_status_from(fs, i + 2, f1, e1)
                    }
                },
            }
        }
    }
}

fn starts_with_char(s: &str, c: char) -> (r: bool)
    ensures
        r == status_starts(s@, c),
{
    let x = chars_of(s);
    x.len() > 0 && x[0] == c
}

/// Records the changed paths of `git diff --name-status -z`.
pub fn parse_name_status(bytes: &[u8], files: &mut Vec<String>, excluded: &mut Vec<String>) -> (r:
    Result<(), String>)
    requires
        increasing(views(old(files)@)),
        increasing(views(old(excluded)@)),
    ensures
        increasing(views(final(files)@)),
        increasing(views(final(excluded)@)),
        match (r, name_status_from(
            nul_fields_of(bytes@),
            0,
            members(old(files)@),
            members(old(excluded)@),
        )) {
            (Ok(_), Ok((f, e))) => members(final(files)@) == f && members(final(excluded)@) == e,
            (Err(x), Err(m)) => x@ == m,
            _ => false,
        },
{
    let fields = split_nul_fields(bytes);
    let ghost fs = nul_fields_of(bytes@);
    let ghost goal = name_status_from(fs, 0, members(files@), members(excluded@));
    let mut i: usize = 0;
    while i < fields.len()
        invariant
            byte_views(fields@) == fs,
            fs == nul_fields_of(bytes@),
            goal == name_status_from(fs, 0, members(old(files)@), members(old(excluded)@)),
            i <= fields.len(),
            increasing(views(files@)),
            increasing(views(excluded@)),
            goal == name_status_from(fs, i as nat, members(files@), members(excluded@)),
        decreases fields.len() - i,
    {
        assert(fs[i as int] == fields@[i as int]@);
        let status = match utf8_text(fields[i].as_slice()) {
            Some(s) => s,
            None => return Err(String::from_str("git status was not UTF-8")),
        };
        let rc = starts_with_char(status.as_str(), 'R') || starts_with_char(status.as_str(), 'C');
        let del = starts_with_char(status.as_str(), 'D');
        let n: usize = if rc {
            2
        } else {
            1
        };
        if n > fields.len() - i - 1 {
            return Err(String::from_str("malformed git name-status output"));
        }
        assert(fs[i + 1] == fields@[i + 1]@);
        let p0 = match read_path(fields[i + 1].as_slice()) {
            Ok(p) => p,
            Err(e) => return Err(e),
        };
        let ghost pv0 = p0@;
        let ghost e_before = members(excluded@);
        if del {
            insert_text(excluded, p0.clone());
        } else if !rc {
            remove_text(excluded, p0.as_str());
        }
        insert_text(files, p0);
        if rc {
            assert(fs[i + 2] == fields@[i + 2]@);
            let p1 = match read_path(fields[i + 2].as_slice()) {
                Ok(p) => p,
                Err(e) => return Err(e),
            };
            remove_text(excluded, p1.as_str());
            insert_text(files, p1);
            i += 3;
        } else {
            i += 2;
        }
    }
    Ok(())
}

} // verus!
