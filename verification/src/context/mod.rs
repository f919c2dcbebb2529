//! Deterministic task context built from repository observables: the
//! languages, domains and risks that touched files, their contents and the
//! diff show, and the repository's commands grouped by purpose.

pub mod commands;
pub mod signals;

use vstd::prelude::*;

use crate::context::signals::{content_domains, content_risks, language_set, path_domains, path_risks};
use crate::detect::Detection;
use crate::strset::{increasing, members, sorted_texts};
use crate::text::{byte_len, lower, split_char, views};

verus! {

/// The most touched paths considered.
pub const MAX_FILES: usize = 1024;

/// The longest touched path considered, in bytes.
pub const MAX_PATH_BYTES: usize = 4096;

/// The most diff bytes read.
pub const MAX_DIFF_BYTES: usize = 262144;

/// The observables that policy selection reads.
#[derive(Debug, Clone, PartialEq, Eq)]
pub struct TaskContext {
    pub languages: Vec<String>,
    pub domains: Vec<String>,
    pub files_touched: Vec<String>,
    pub risk_signals: Vec<String>,
    pub repository_commands: Vec<(String, Vec<String>)>,
}

/// A Windows drive prefix such as `C:/`.
pub open spec fn drive_prefix(v: Seq<char>) -> bool {
    v.len() >= 3 && (('a' <= v[0] && v[0] <= 'z') || ('A' <= v[0] && v[0] <= 'Z')) && v[1] == ':' && v[2] == '/'
}

/// A relative path that stays below its root: not absolute, no drive, no
/// NUL, no `..` component.
pub open spec fn safe_relative(v: Seq<char>) -> bool {
    !(v.len() > 0 && v[0] == '/') && !drive_prefix(v) && !v.contains('\0') && !split_char(v, '/').contains(
        seq!['.', '.'],
    )
}

pub fn is_safe_relative_path(value: &str) -> (r: bool)
    ensures
        r == safe_relative(value@),
{
    let c = crate::text::chars_of(value);
    if c.len() > 0 && c[0] == '/' {
        return false;
    }
    if has_windows_drive_prefix(value) {
        return false;
    }
    let mut i: usize = 0;
    while i < c.len()
        invariant
            c@ == value@,
            i <= c.len(),
            forall|k: int| 0 <= k < i ==> c@[k] != '\0',
        decreases c.len() - i,
    {
        if c[i] == '\0' {
            assert(value@.contains('\0'));
            return false;
        }
        i += 1;
    }
    !crate::paths::has_parent_component_exec(c.as_slice())
}

pub fn has_windows_drive_prefix(value: &str) -> (r: bool)
    ensures
        r == drive_prefix(value@),
{
    let c = crate::text::chars_of(value);
    c.len() >= 3 && (('a' <= c[0] && c[0] <= 'z') || ('A' <= c[0] && c[0] <= 'Z')) && c[1] == ':' && c[2] == '/'
}

/// A path with `\` written as `/`.
pub open spec fn portable(p: Seq<char>) -> Seq<char> {
    p.map_values(|c: char| if c == '\\' { '/' } else { c })
}

/// The touched paths kept: the first `MAX_FILES`, made portable, short enough
/// and safe.
pub open spec fn kept_paths(ps: Seq<String>) -> Set<Seq<char>> {
    Set::new(|q: Seq<char>| exists|k: int| 0 <= k < ps.len() && k < MAX_FILES && portable((#[trigger] ps[k])@) == q
        && byte_len(q) <= MAX_PATH_BYTES && safe_relative(q))
}

/// The kept touched paths, sorted and distinct.
pub fn normalize_paths(paths: &Vec<String>) -> (r: Vec<String>)
    ensures
        increasing(views(r@)),
        views(r@) == sorted_texts(kept_paths(paths@)),
{
    let mut kept: Vec<String> = Vec::new();
    assert(views(kept@) =~= Seq::<Seq<char>>::empty());
    assert(members(kept@) =~= Set::<Seq<char>>::empty());
    let mut i: usize = 0;
    while i < paths.len() && i < MAX_FILES
        invariant
            i <= paths.len(),
            i <= MAX_FILES,
            increasing(views(kept@)),
            members(kept@) == Set::new(|q: Seq<char>| exists|k: int| 0 <= k < i && portable((#[trigger] paths@[k])@) == q
                && byte_len(q) <= MAX_PATH_BYTES && safe_relative(q)),
        decreases paths.len() - i,
    {
        let c = crate::text::chars_of(paths[i].as_str());
        let mut out: Vec<char> = Vec::new();
        let mut j: usize = 0;
        while j < c.len()
            invariant
                j <= c.len(),
                out@ == c@.take(j as int).map_values(|x: char| if x == '\\' { '/' } else { x }),
            decreases c.len() - j,
        {
            out.push(if c[j] == '\\' { '/' } else { c[j] });
            j += 1;
            assert(out@ =~= c@.take(j as int).map_values(|x: char| if x == '\\' { '/' } else { x }));
        }
        assert(c@.take(c.len() as int) =~= c@);
        let p = crate::text::string_of(out.as_slice());
        let ghost before = members(kept@);
        if p.as_str().len() <= MAX_PATH_BYTES && is_safe_relative_path(p.as_str()) {
            crate::strset::insert_text(&mut kept, p);
        }
        proof {
            let next = Set::new(|q: Seq<char>| exists|k: int| 0 <= k < i + 1 && portable((#[trigger] paths@[k])@) == q
                && byte_len(q) <= MAX_PATH_BYTES && safe_relative(q));
            assert forall|q: Seq<char>| members(kept@).contains(q) <==> next.contains(q) by {
                if next.contains(q) {
                    let k = choose|k: int| 0 <= k < i + 1 && portable((#[trigger] paths@[k])@) == q
                        && byte_len(q) <= MAX_PATH_BYTES && safe_relative(q);
                    if k < i {
                        assert(before.contains(q));
                    }
                }
                if before.contains(q) {
                    let k = choose|k: int| 0 <= k < i && portable((#[trigger] paths@[k])@) == q
                        && byte_len(q) <= MAX_PATH_BYTES && safe_relative(q);
                    assert(next.contains(q));
                }
            }
            assert(members(kept@) =~= next);
        }
        i += 1;
    }
    proof {
        assert(members(kept@) =~= kept_paths(paths@));
        crate::strset::lemma_sorted_texts(views(kept@));
    }
    kept
}

/// The UTF-8 length of a character.
pub open spec fn char_bytes(c: char) -> nat {
    if (c as u32) < 0x80 {
        1
    } else if (c as u32) < 0x800 {
        2
    } else if (c as u32) < 0x10000 {
        3
    } else {
        4
    }
}

/// The longest prefix whose UTF-8 length fits `budget`.
pub open spec fn prefix_within(v: Seq<char>, budget: nat) -> Seq<char>
    decreases v.len(),
{
    if v.len() == 0 || char_bytes(v[0]) > budget {
        seq![]
    } else {
        seq![v[0]] + prefix_within(v.drop_first(), (budget - char_bytes(v[0])) as nat)
    }
}

fn char_bytes_exec(c: char) -> (r: usize)
    ensures
        r as nat == char_bytes(c),
{
    let n = c as u32;
    if n < 0x80 {
        1
    } else if n < 0x800 {
        2
    } else if n < 0x10000 {
        3
    } else {
        4
    }
}

/// The longest prefix of a text that fits in `max_bytes` UTF-8 bytes, cut at
/// a character boundary.
pub fn truncate_utf8(value: &str, max_bytes: usize) -> (r: String)
    ensures
        r@ == prefix_within(value@, max_bytes as nat),
{
    let c = crate::text::chars_of(value);
    let mut out: Vec<char> = Vec::new();
    let mut budget: usize = max_bytes;
    let mut i: usize = 0;
    assert(c@.skip(0) =~= c@);
    while i < c.len()
        invariant
            c@ == value@,
            i <= c.len(),
            out@ + prefix_within(c@.skip(i as int), budget as nat) == prefix_within(value@, max_bytes as nat),
        decreases c.len() - i,
    {
        let ghost rest = c@.skip(i as int);
        assert(rest[0] == c@[i as int]);
        let n = char_bytes_exec(c[i]);
        if n > budget {
            assert(prefix_within(rest, budget as nat) =~= Seq::<char>::empty());
            assert(out@ + prefix_within(rest, budget as nat) =~= out@);
            return crate::text::string_of(out.as_slice());
        }
        assert(rest.drop_first() =~= c@.skip(i + 1));
        out.push(c[i]);
        budget = budget - n;
        i += 1;
        assert(out@ + prefix_within(c@.skip(i as int), budget as nat) =~= prefix_within(value@, max_bytes as nat));
    }
    assert(c@.skip(i as int) =~= Seq::<char>::empty());
    assert(out@ + prefix_within(c@.skip(i as int), budget as nat) =~= out@);
    crate::text::string_of(out.as_slice())
}

/// The contents given for a path (empty when none was read).
pub open spec fn contents_of(cs: Seq<(String, String)>, path: Seq<char>) -> Seq<char>
    decreases cs.len(),
{
    if cs.len() == 0 {
        seq![]
    } else if cs[0].0@ == path {
        cs[0].1@
    } else {
        contents_of(cs.drop_first(), path)
    }
}

fn contents_lookup<'a>(cs: &'a Vec<(String, String)>, path: &str) -> (r: &'a str)
    ensures
        r@ == contents_of(cs@, path@),
{
    let mut i: usize = 0;
    assert(cs@.skip(0) =~= cs@);
    while i < cs.len()
        invariant
            i <= cs.len(),
            contents_of(cs@, path@) == contents_of(cs@.skip(i as int), path@),
        decreases cs.len() - i,
    {
        assert(cs@.skip(i as int)[0] == cs@[i as int]);
        assert(cs@.skip(i as int).drop_first() =~= cs@.skip(i + 1));
        if crate::text::same_text(cs[i].0.as_str(), path) {
            return cs[i].1.as_str();
        }
        i += 1;
    }
    assert(cs@.skip(i as int).len() == 0);
    let e = "";
    proof {
        reveal_strlit("");
    }
    e
}

/// What the touched files show: their languages, the domains and risks of
/// their paths and of their contents.
pub open spec fn files_observed(files: Seq<Seq<char>>, cs: Seq<(String, String)>) -> (Set<Seq<char>>, Set<Seq<char>>, Set<Seq<char>>)
    decreases files.len(),
{
    if files.len() == 0 {
        (Set::empty(), Set::empty(), Set::empty())
    } else {
        let (l, d, r) = files_observed(files.drop_last(), cs);
        let f = lower(files.last());
        let c = lower(contents_of(cs, files.last()));
        (l.union(language_set(f)), d.union(path_domains(f)).union(content_domains(c)), r.union(path_risks(f)).union(
            content_risks(c),
        ))
    }
}

/// The context of a task: the detected languages and those of the touched
/// files; the domains and risks of the touched paths, their contents, the
/// project metadata and the diff's first `MAX_DIFF_BYTES` bytes; the kept
/// touched paths; and the detected commands by category. Every list is
/// sorted and distinct.
pub fn build(
    detection: &Detection,
    touched_files: &Vec<String>,
    contents: &Vec<(String, String)>,
    metadata: &str,
    diff: &str,
) -> (r: TaskContext)
    ensures
        ({
            let files = sorted_texts(kept_paths(touched_files@));
            let (l, d, k) = files_observed(files, contents@);
            let extra_domains = content_domains(lower(metadata@)).union(content_domains(lower(prefix_within(diff@, MAX_DIFF_BYTES as nat))));
            let extra_risks = content_risks(lower(metadata@)).union(content_risks(lower(prefix_within(diff@, MAX_DIFF_BYTES as nat))));
            &&& views(r.files_touched@) == files
            &&& views(r.languages@) == sorted_texts(members(detection.languages@).union(l))
            &&& views(r.domains@) == sorted_texts(d.union(extra_domains))
            &&& views(r.risk_signals@) == sorted_texts(k.union(extra_risks))
            &&& r.repository_commands@.map_values(|g: (String, Vec<String>)| g.0@) == sorted_texts(
                crate::context::commands::categories(crate::context::commands::all_commands(detection.required_commands@)),
            )
            &&& forall|m: int| 0 <= m < r.repository_commands@.len() ==> views((#[trigger] r.repository_commands@[m]).1@)
                == crate::context::commands::commands_in(
                crate::context::commands::all_commands(detection.required_commands@),
                r.repository_commands@[m].0@,
            )
        }),
{
    let files_touched = normalize_paths(touched_files);
    let ghost fv = views(files_touched@);
    let mut languages: Vec<String> = Vec::new();
    assert(views(languages@) =~= Seq::<Seq<char>>::empty());
    let mut li: usize = 0;
    let ghost dl = views(detection.languages@);
    assert(members(languages@) =~= Set::<Seq<char>>::empty());
    assert(dl.take(0).to_set() =~= Set::<Seq<char>>::empty());
    while li < detection.languages.len()
        invariant
            dl == views(detection.languages@),
            li <= dl.len(),
            increasing(views(languages@)),
            members(languages@) == dl.take(li as int).to_set(),
        decreases dl.len() - li,
    {
        crate::strset::insert_text(&mut languages, detection.languages[li].clone());
        proof {
            assert(dl.take(li + 1) =~= dl.take(li as int).push(dl[li as int]));
            dl.take(li as int).lemma_push_to_set_commute(dl[li as int]);
        }
        li += 1;
    }
    assert(dl.take(dl.len() as int) =~= dl);
    let ghost base_languages = members(languages@);
    let mut domains: Vec<String> = Vec::new();
    let mut risks: Vec<String> = Vec::new();
    assert(views(domains@) =~= Seq::<Seq<char>>::empty());
    assert(views(risks@) =~= Seq::<Seq<char>>::empty());
    assert(members(domains@) =~= Set::<Seq<char>>::empty());
    assert(members(risks@) =~= Set::<Seq<char>>::empty());
    let mut i: usize = 0;
    assert(fv.take(0) =~= Seq::<Seq<char>>::empty());
    while i < files_touched.len()
        invariant
            fv == views(files_touched@),
            i <= fv.len(),
            increasing(views(languages@)),
            increasing(views(domains@)),
            increasing(views(risks@)),
            ({
                let (l, d, k) = files_observed(fv.take(i as int), contents@);
                &&& members(languages@) == base_languages.union(l)
                &&& members(domains@) == d
                &&& members(risks@) == k
            }),
        decreases fv.len() - i,
    {
        assert(fv.take(i + 1).drop_last() =~= fv.take(i as int));
        assert(fv.take(i + 1).last() == files_touched@[i as int]@);
        let path = files_touched[i].as_str();
        let ghost (l0, d0, k0) = files_observed(fv.take(i as int), contents@);
        signals::add_path_observations(path, &mut languages, &mut domains, &mut risks);
        let content = contents_lookup(contents, path);
        signals::add_content_observations(content, &mut domains, &mut risks);
        proof {
            let f = lower(path@);
            assert(base_languages.union(l0).union(language_set(f)) =~= base_languages.union(l0.union(language_set(f))));
        }
        i += 1;
    }
    assert(fv.take(fv.len() as int) =~= fv);
    signals::add_content_observations(metadata, &mut domains, &mut risks);
    let bounded = truncate_utf8(diff, MAX_DIFF_BYTES);
    signals::add_content_observations(bounded.as_str(), &mut domains, &mut risks);
    proof {
        let (l, d, k) = files_observed(fv, contents@);
        let md = content_domains(lower(metadata@));
        let mk = content_risks(lower(metadata@));
        let bd = content_domains(lower(prefix_within(diff@, MAX_DIFF_BYTES as nat)));
        let bk = content_risks(lower(prefix_within(diff@, MAX_DIFF_BYTES as nat)));
        assert(d.union(md).union(bd) =~= d.union(md.union(bd)));
        assert(k.union(mk).union(bk) =~= k.union(mk.union(bk)));
        crate::strset::lemma_sorted_texts(views(languages@));
        crate::strset::lemma_sorted_texts(views(domains@));
        crate::strset::lemma_sorted_texts(views(risks@));
    }
    TaskContext {
        languages,
        domains,
        files_touched,
        risk_signals: risks,
        repository_commands: commands::repository_commands(detection),
    }
}

} // verus!
