//! The enforcement plan: the selected rules' ids, checks and required
//! evidence, each sorted and distinct, with an identity of the touched-file
//! set.

use vstd::prelude::*;

use super::Rule;
use crate::strset::{add_all, increasing, lemma_sorted_texts, members, sorted_distinct, sorted_texts};
use crate::text::views;
use vstd::utf8::encode_utf8;

verus! {

/// The most touched files the identity covers.
pub const MAX_IDENTITY_FILES: usize = 1024;
/// The most bytes of one file name the identity covers.
pub const MAX_IDENTITY_BYTES: usize = 4096;
/// The 64-bit FNV-1a offset basis.
pub const FNV_OFFSET: u64 = 0xcbf29ce484222325;
/// The 64-bit FNV-1a prime.
pub const FNV_PRIME: u64 = 0x100000001b3;

/// A deterministic machine-readable plan compiled from selected rules.
#[derive(Debug, Clone, PartialEq, Eq)]
pub struct EnforcementPlan {
    pub context_identity: String,
    pub rule_ids: Vec<String>,
    pub checks: Vec<String>,
    pub evidence_required: Vec<String>,
}

/// One FNV-1a step.
pub open spec fn fnv_step(h: u64, b: u8) -> u64 {
    (h ^ (b as u64)).wrapping_mul(FNV_PRIME)
}

/// FNV-1a over bytes.
pub open spec fn fnv_bytes(h: u64, bs: Seq<u8>) -> u64
    decreases bs.len(),
{
    if bs.len() == 0 {
        h
    } else {
        fnv_step(fnv_bytes(h, bs.drop_last()), bs.last())
    }
}

/// A name's bytes, at most the covered prefix.
pub open spec fn covered(bs: Seq<u8>) -> Seq<u8> {
    if bs.len() > MAX_IDENTITY_BYTES {
        bs.take(MAX_IDENTITY_BYTES as int)
    } else {
        bs
    }
}

/// The hash of file names in order: each name's covered bytes, then the
/// separator byte 0xff.
pub open spec fn fnv_files(h: u64, files: Seq<Seq<u8>>) -> u64
    decreases files.len(),
{
    if files.len() == 0 {
        h
    } else {
        fnv_step(fnv_bytes(fnv_files(h, files.drop_last()), covered(files.last())), 0xffu8)
    }
}

/// `n` lowercase hex digits of `h`, most significant first.
pub open spec fn hex_digits(h: nat, n: nat) -> Seq<char>
    decreases n,
{
    if n == 0 {
        seq![]
    } else {
        hex_digits(h / 16, (n - 1) as nat).push(crate::checks::commands::supervisor::hex_char((h % 16) as u8))
    }
}

/// The first `MAX_IDENTITY_FILES` touched files.
pub open spec fn identity_files(files: Seq<String>) -> Seq<String> {
    if files.len() > MAX_IDENTITY_FILES {
        files.take(MAX_IDENTITY_FILES as int)
    } else {
        files
    }
}

/// The identity of a touched-file set: FNV-1a over the UTF-8 bytes of the
/// sorted distinct names (of the first `MAX_IDENTITY_FILES`), as 16 hex
/// digits.
pub open spec fn identity(files: Seq<String>) -> Seq<char> {
    let names = sorted_texts(views(identity_files(files)).to_set());
    "files-fnv1a64-"@ + hex_digits(
        fnv_files(FNV_OFFSET, names.map_values(|n: Seq<char>| encode_utf8(n))) as nat,
        16,
    )
}

/// The values a selector picks from each rule, as one set.
pub open spec fn values_of(rs: Seq<Rule>, evidence: bool) -> Set<Seq<char>>
    decreases rs.len(),
{
    if rs.len() == 0 {
        Set::empty()
    } else {
        values_of(rs.drop_last(), evidence).union(
            views(if evidence { rs.last().evidence@ } else { rs.last().checks@ }).to_set(),
        )
    }
}

fn hex16(h: u64, n: usize) -> (r: Vec<char>)
    requires
        n <= 16,
    ensures
        r@ == hex_digits(h as nat, n as nat),
    decreases n,
{
    if n == 0 {
        Vec::new()
    } else {
        let mut v = hex16(h / 16, n - 1);
        v.push(crate::checks::commands::supervisor::hex_digit((h % 16) as u8));
        v
    }
}

fn fnv_name(h: u64, name: &String) -> (r: u64)
    ensures
        r == fnv_step(fnv_bytes(h, covered(encode_utf8(name@))), 0xffu8),
{
    let bytes = name.as_str().as_bytes();
    let ghost all = encode_utf8(name@);
    assert(bytes@ == all);
    let end: usize = if bytes.len() > MAX_IDENTITY_BYTES { MAX_IDENTITY_BYTES } else { bytes.len() };
    assert(covered(all) =~= all.take(end as int));
    let mut x: u64 = h;
    let mut i: usize = 0;
    assert(all.take(0) =~= Seq::<u8>::empty());
    while i < end
        invariant
            i <= end <= bytes@.len(),
            bytes@ == all,
            x == fnv_bytes(h, all.take(i as int)),
        decreases end - i,
    {
        assert(all.take(i + 1).drop_last() =~= all.take(i as int));
        x = (x ^ (bytes[i] as u64)).wrapping_mul(FNV_PRIME);
        i += 1;
    }
    (x ^ 0xffu64).wrapping_mul(FNV_PRIME)
}

/// The identity of a touched-file set (see `identity`).
pub fn context_identity(files: &Vec<String>) -> (r: String)
    ensures
        r@ == identity(files@),
{
    let end: usize = if files.len() > MAX_IDENTITY_FILES { MAX_IDENTITY_FILES } else { files.len() };
    let mut first: Vec<String> = Vec::new();
    let mut k: usize = 0;
    while k < end
        invariant
            k <= end <= files.len(),
            first@ == files@.take(k as int),
        decreases end - k,
    {
        first.push(files[k].clone());
        k += 1;
        assert(first@ =~= files@.take(k as int));
    }
    assert(first@ =~= identity_files(files@));
    let names = sorted_distinct(first);
    let ghost nv = views(names@);
    let ghost bytes = nv.map_values(|n: Seq<char>| encode_utf8(n));
    let mut h: u64 = FNV_OFFSET;
    let mut i: usize = 0;
    assert(bytes.take(0) =~= Seq::<Seq<u8>>::empty());
    while i < names.len()
        invariant
            i <= names.len(),
            nv == views(names@),
            bytes == nv.map_values(|n: Seq<char>| encode_utf8(n)),
            h == fnv_files(FNV_OFFSET, bytes.take(i as int)),
        decreases names.len() - i,
    {
        assert(bytes.take(i + 1).drop_last() =~= bytes.take(i as int));
        assert(bytes.take(i + 1).last() == encode_utf8(names@[i as int]@));
        h = fnv_name(h, &names[i]);
        i += 1;
    }
    assert(bytes.take(names.len() as int) =~= bytes);
    let digits = hex16(h, 16);
    let tail = crate::text::string_of(digits.as_slice());
    crate::text::concat2("files-fnv1a64-", tail.as_str())
}

/// The sorted distinct values a selector picks from the rules.
pub fn collect_values(rules: &Vec<&Rule>, evidence: bool) -> (r: Vec<String>)
    ensures
        views(r@) == sorted_texts(values_of(rules@.map_values(|x: &Rule| *x), evidence)),
{
    let ghost rs = rules@.map_values(|x: &Rule| *x);
    let mut acc: Vec<String> = Vec::new();
    let mut k: usize = 0;
    assert(rs.take(0) =~= Seq::<Rule>::empty());
    assert(members(acc@) =~= Set::<Seq<char>>::empty());
    assert(increasing(views(acc@)));
    while k < rules.len()
        invariant
            k <= rules.len(),
            rs == rules@.map_values(|x: &Rule| *x),
            increasing(views(acc@)),
            members(acc@) == values_of(rs.take(k as int), evidence),
        decreases rules.len() - k,
    {
        assert(rs.take(k + 1).drop_last() =~= rs.take(k as int));
        assert(rs.take(k + 1).last() == *rules@[k as int]);
        let items = if evidence {
            crate::checks::commands::config::clone_strings(&rules[k].evidence)
        } else {
            crate::checks::commands::config::clone_strings(&rules[k].checks)
        };
        add_all(&mut acc, items);
        k += 1;
    }
    assert(rs.take(rules.len() as int) =~= rs);
    proof {
        lemma_sorted_texts(views(acc@));
    }
    acc
}

/// The identity of the touched files depends only on which names they hold
/// (among the first `MAX_IDENTITY_FILES`), not on their order or repetition.
pub proof fn law_identity_depends_on_the_file_set(a: Seq<String>, b: Seq<String>)
    requires
        views(identity_files(a)).to_set() == views(identity_files(b)).to_set(),
    ensures
        identity(a) == identity(b),
{
}

/// A lowercase hex digit.
pub open spec fn is_lower_hex(c: char) -> bool {
    ('0' <= c && c <= '9') || ('a' <= c && c <= 'f')
}

proof fn lemma_hex_digits(h: nat, n: nat)
    ensures
        hex_digits(h, n).len() == n,
        forall|i: int| 0 <= i < n ==> is_lower_hex(#[trigger] hex_digits(h, n)[i]),
    decreases n,
{
    if n > 0 {
        lemma_hex_digits(h / 16, (n - 1) as nat);
        let d = (h % 16) as u8;
        assert(d < 16);
        let c = crate::checks::commands::supervisor::hex_char(d);
        assert(is_lower_hex(c)) by {
            if d < 10 {
                assert(((48 + d) as u8) as char == c);
            } else {
                assert(((87 + d) as u8) as char == c);
            }
        }
        let prev = hex_digits(h / 16, (n - 1) as nat);
        assert(hex_digits(h, n) == prev.push(c));
        assert forall|i: int| 0 <= i < n implies is_lower_hex(#[trigger] hex_digits(h, n)[i]) by {
            if i < n - 1 {
                assert(hex_digits(h, n)[i] == prev[i]);
            }
        }
    }
}

/// Every identity is `files-fnv1a64-` followed by sixteen lowercase hex
/// digits.
pub proof fn law_identity_form(files: Seq<String>)
    ensures
        identity(files).len() == 30,
        identity(files).take(14) == "files-fnv1a64-"@,
        forall|i: int| 14 <= i < 30 ==> is_lower_hex(#[trigger] identity(files)[i]),
{
    reveal_strlit("files-fnv1a64-");
    let names = sorted_texts(views(identity_files(files)).to_set());
    let h = fnv_files(FNV_OFFSET, names.map_values(|n: Seq<char>| encode_utf8(n))) as nat;
    lemma_hex_digits(h, 16);
    let id = identity(files);
    assert(id == "files-fnv1a64-"@ + hex_digits(h, 16));
    assert(id.take(14) =~= "files-fnv1a64-"@);
    assert forall|i: int| 14 <= i < 30 implies is_lower_hex(#[trigger] identity(files)[i]) by {
        assert(id[i] == hex_digits(h, 16)[i - 14]);
    }
}

} // verus!
