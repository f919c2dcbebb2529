//! The repository's detected commands grouped by what they check.

use vstd::prelude::*;

use crate::detect::Detection;
use crate::strset::{members, sorted_distinct, sorted_texts};
use crate::text::{contains, contains_str, views, words};

verus! {

pub open spec fn first_word(c: Seq<char>) -> Seq<char> {
    if words(c).len() > 0 {
        words(c)[0]
    } else {
        seq![]
    }
}

/// What a command checks, judged by its program and arguments.
pub open spec fn category_of(c: Seq<char>) -> Seq<char> {
    let w = first_word(c);
    if w == "ruff"@ {
        if contains(c, "format"@) {
            "format"@
        } else {
            "lint"@
        }
    } else if w == "mypy"@ || w == "pyright"@ {
        "types"@
    } else if w == "pytest"@ {
        "tests"@
    } else if w == "cargo"@ && contains(c, " fmt"@) {
        "format"@
    } else if w == "cargo"@ && contains(c, " clippy"@) {
        "lint"@
    } else if w == "cargo"@ && contains(c, " test"@) {
        "tests"@
    } else {
        "checks"@
    }
}

pub fn command_category(command: &str) -> (r: &'static str)
    ensures
        r@ == category_of(command@),
{
    let c = crate::text::chars_of(command);
    let ws = crate::text::words_exec(c.as_slice());
    let first: Vec<char> = if ws.len() > 0 { ws[0].clone() } else { Vec::new() };
    assert(first@ == first_word(command@));
    let s = c.as_slice();
    let f = first.as_slice();
    if crate::text::chars_are(f, "ruff") {
        if contains_str(s, "format") {
            "format"
        } else {
            "lint"
        }
    } else if crate::text::chars_are(f, "mypy") || crate::text::chars_are(f, "pyright") {
        "types"
    } else if crate::text::chars_are(f, "pytest") {
        "tests"
    } else if crate::text::chars_are(f, "cargo") && contains_str(s, " fmt") {
        "format"
    } else if crate::text::chars_are(f, "cargo") && contains_str(s, " clippy") {
        "lint"
    } else if crate::text::chars_are(f, "cargo") && contains_str(s, " test") {
        "tests"
    } else {
        "checks"
    }
}

/// Every detected command, language by language, in order.
pub open spec fn all_commands(rc: Seq<(String, Vec<String>)>) -> Seq<Seq<char>>
    decreases rc.len(),
{
    if rc.len() == 0 {
        seq![]
    } else {
        all_commands(rc.drop_last()) + views(rc.last().1@)
    }
}

/// The commands of a category, in order.
pub open spec fn commands_in(cs: Seq<Seq<char>>, category: Seq<char>) -> Seq<Seq<char>>
    decreases cs.len(),
{
    if cs.len() == 0 {
        seq![]
    } else if category_of(cs.last()) == category {
        commands_in(cs.drop_last(), category).push(cs.last())
    } else {
        commands_in(cs.drop_last(), category)
    }
}

pub open spec fn categories(cs: Seq<Seq<char>>) -> Set<Seq<char>> {
    cs.map_values(|c: Seq<char>| category_of(c)).to_set()
}

/// The commands grouped by category: categories in sorted order, each with
/// its commands in detection order.
pub fn repository_commands(detection: &Detection) -> (r: Vec<(String, Vec<String>)>)
    ensures
        r@.map_values(|g: (String, Vec<String>)| g.0@) == sorted_texts(categories(all_commands(detection.required_commands@))),
        forall|k: int| 0 <= k < r@.len() ==> views((#[trigger] r@[k]).1@) == commands_in(
            all_commands(detection.required_commands@),
            r@[k].0@,
        ),
{
    let ghost rc = detection.required_commands@;
    let mut all: Vec<String> = Vec::new();
    let mut i: usize = 0;
    assert(rc.take(0) =~= Seq::<(String, Vec<String>)>::empty());
    assert(views(all@) =~= Seq::<Seq<char>>::empty());
    while i < detection.required_commands.len()
        invariant
            rc == detection.required_commands@,
            i <= rc.len(),
            views(all@) == all_commands(rc.take(i as int)),
        decreases rc.len() - i,
    {
        assert(rc.take(i + 1).drop_last() =~= rc.take(i as int));
        let cmds = &detection.required_commands[i].1;
        let ghost base = views(all@);
        let mut k: usize = 0;
        while k < cmds.len()
            invariant
                k <= cmds.len(),
                views(all@) == base + views(cmds@).take(k as int),
            decreases cmds.len() - k,
        {
            let ghost b = all@;
            all.push(cmds[k].clone());
            assert(views(all@) =~= views(b).push(cmds@[k as int]@));
            assert(views(all@) =~= base + views(cmds@).take(k + 1));
            k += 1;
        }
        assert(views(cmds@).take(cmds.len() as int) =~= views(cmds@));
        i += 1;
    }
    assert(rc.take(rc.len() as int) =~= rc);
    let ghost av = views(all@);
    let mut cats: Vec<String> = Vec::new();
    let mut j: usize = 0;
    while j < all.len()
        invariant
            av == views(all@),
            j <= all.len(),
            views(cats@) == av.take(j as int).map_values(|c: Seq<char>| category_of(c)),
        decreases all.len() - j,
    {
        let ghost b = cats@;
        cats.push(String::from_str(command_category(all[j].as_str())));
        assert(views(cats@) =~= views(b).push(category_of(av[j as int])));
        assert(av.take(j + 1).map_values(|c: Seq<char>| category_of(c)) =~= av.take(j as int).map_values(
            |c: Seq<char>| category_of(c),
        ).push(category_of(av[j as int])));
        j += 1;
    }
    assert(av.take(all.len() as int) =~= av);
    let keys = sorted_distinct(cats);
    let mut out: Vec<(String, Vec<String>)> = Vec::new();
    let mut q: usize = 0;
    while q < keys.len()
        invariant
            av == views(all@),
            q <= keys.len(),
            out@.len() == q,
            forall|m: int| 0 <= m < q ==> (#[trigger] out@[m]).0@ == keys@[m]@,
            forall|m: int| 0 <= m < q ==> views((#[trigger] out@[m]).1@) == commands_in(av, out@[m].0@),
        decreases keys.len() - q,
    {
        let key = keys[q].clone();
        let mut group: Vec<String> = Vec::new();
        let mut t: usize = 0;
        assert(av.take(0) =~= Seq::<Seq<char>>::empty());
        assert(views(group@) =~= Seq::<Seq<char>>::empty());
        while t < all.len()
            invariant
                av == views(all@),
                t <= all.len(),
                views(group@) == commands_in(av.take(t as int), key@),
            decreases all.len() - t,
        {
            assert(av.take(t + 1).drop_last() =~= av.take(t as int));
            assert(av.take(t + 1).last() == all@[t as int]@);
            let cat = command_category(all[t].as_str());
            if crate::text::same_text(cat, key.as_str()) {
                let ghost b = group@;
                group.push(all[t].clone());
                assert(views(group@) =~= views(b).push(all@[t as int]@));
            }
            t += 1;
        }
        assert(av.take(all.len() as int) =~= av);
        out.push((key, group));
        q += 1;
    }
    assert(out@.map_values(|g: (String, Vec<String>)| g.0@) =~= views(keys@));
    out
}

} // verus!
