//! The instruction packet: the selected rules' instructions split into hard
//! requirements and review points, then the checks and evidence the plan
//! requires, every line bounded.

use vstd::prelude::*;

use super::plan::{collect_values, context_identity, identity, values_of, EnforcementPlan};
use super::{Level, Rule};
use crate::context::{prefix_within, truncate_utf8};
use crate::strset::{
    increasing, insert_text, lemma_sorted_texts, lemma_sorted_texts_exist, lemma_text_lt_irreflexive, members,
    sorted_distinct, sorted_texts, text_lt,
};
use crate::text::views;

verus! {

/// The most rules one packet carries.
pub const MAX_RULES: usize = 256;
/// The most bytes of one packet line.
pub const MAX_LINE_BYTES: usize = 512;

/// The instruction packet and its machine-readable plan.
#[derive(Debug, Clone, PartialEq, Eq)]
pub struct CompiledInstructions {
    pub packet: String,
    pub plan: EnforcementPlan,
}

/// A text on one line: newlines, carriage returns and tabs become spaces.
pub open spec fn one_line(s: Seq<char>) -> Seq<char> {
    s.map_values(|c: char| if c == '\n' || c == '\r' || c == '\t' { ' ' } else { c })
}

/// A packet line: on one line, cut to the longest prefix within the byte
/// limit.
pub open spec fn bounded(s: Seq<char>) -> Seq<char> {
    prefix_within(one_line(s), MAX_LINE_BYTES as nat)
}

/// The ids of the selected rules, sorted and distinct, at most the limit.
pub open spec fn kept_ids(rs: Seq<Rule>) -> Seq<Seq<char>> {
    let ids = sorted_texts(rs.map_values(|r: Rule| r.id@).to_set());
    if ids.len() > MAX_RULES {
        ids.take(MAX_RULES as int)
    } else {
        ids
    }
}

/// The first selected rule with an id.
pub open spec fn first_with_id(rs: Seq<Rule>, id: Seq<char>) -> Rule
    decreases rs.len(),
{
    if rs.len() == 0 {
        arbitrary()
    } else if rs[0].id@ == id {
        rs[0]
    } else {
        first_with_id(rs.drop_first(), id)
    }
}

/// The rules a packet carries: for each kept id, the first rule with it.
pub open spec fn kept(rs: Seq<Rule>) -> Seq<Rule> {
    kept_ids(rs).map_values(|id: Seq<char>| first_with_id(rs, id))
}

/// The bounded instructions of the rules at a level (`must`) or at the
/// others.
pub open spec fn instructions(rs: Seq<Rule>, must: bool) -> Set<Seq<char>>
    decreases rs.len(),
{
    if rs.len() == 0 {
        Set::empty()
    } else if (rs.last().level == Level::Must) == must {
        instructions(rs.drop_last(), must).insert(bounded(rs.last().instruction@))
    } else {
        instructions(rs.drop_last(), must)
    }
}

/// `- line` for each line, or `- None` when there is none.
pub open spec fn bullets(ls: Seq<Seq<char>>) -> Seq<char> {
    if ls.len() == 0 {
        "- None\n"@
    } else {
        items(ls)
    }
}

pub open spec fn items(ls: Seq<Seq<char>>) -> Seq<char>
    decreases ls.len(),
{
    if ls.len() == 0 {
        seq![]
    } else {
        items(ls.drop_last()) + "- "@ + ls.last() + "\n"@
    }
}

/// `- prefix: line` for each line, bounded.
pub open spec fn prefixed(prefix: Seq<char>, ls: Seq<Seq<char>>) -> Seq<char>
    decreases ls.len(),
{
    if ls.len() == 0 {
        seq![]
    } else {
        prefixed(prefix, ls.drop_last()) + "- "@ + prefix + ": "@ + bounded(ls.last()) + "\n"@
    }
}

/// The packet text for the kept rules and their plan.
pub open spec fn packet_text(ks: Seq<Rule>) -> Seq<char> {
    "Applicable engineering constraints:\n\nMUST\n"@ + bullets(sorted_texts(instructions(ks, true)))
        + "\nREVIEW\n"@ + bullets(sorted_texts(instructions(ks, false))) + "\nVerification required:\n"@
        + prefixed("check"@, sorted_texts(values_of(ks, false))) + prefixed(
        "evidence"@,
        sorted_texts(values_of(ks, true)),
    ) + "\nDo not claim a check passed unless it was executed successfully.\n"@
}

/// A packet line (see `bounded`).
pub fn bounded_line(value: &str) -> (r: String)
    ensures
        r@ == bounded(value@),
{
    let c = crate::text::chars_of(value);
    let mut clean: Vec<char> = Vec::new();
    let mut i: usize = 0;
    while i < c.len()
        invariant
            i <= c.len(),
            c@ == value@,
            clean@ == one_line(c@.take(i as int)),
        decreases c.len() - i,
    {
        let x = c[i];
        clean.push(if x == '\n' || x == '\r' || x == '\t' { ' ' } else { x });
        i += 1;
        assert(clean@ =~= one_line(c@.take(i as int)));
    }
    assert(c@.take(c.len() as int) =~= c@);
    let s = crate::text::string_of(clean.as_slice());
    truncate_utf8(s.as_str(), MAX_LINE_BYTES)
}

fn first_rule<'a>(rules: &Vec<&'a Rule>, id: &String) -> (r: &'a Rule)
    requires
        exists|j: int| 0 <= j < rules@.len() && (#[trigger] rules@[j]).id@ == id@,
    ensures
        *r == first_with_id(rules@.map_values(|x: &Rule| *x), id@),
        r.id@ == id@,
{
    let ghost rs = rules@.map_values(|x: &Rule| *x);
    let ghost w = choose|j: int| 0 <= j < rules@.len() && (#[trigger] rules@[j]).id@ == id@;
    assert(rs[w] == *rules@[w]);
    let mut j: usize = 0;
    assert(rs.skip(0) =~= rs);
    while j < rules.len()
        invariant
            j <= rules.len(),
            rs == rules@.map_values(|x: &Rule| *x),
            0 <= w < rs.len(),
            rs[w].id@ == id@,
            forall|q: int| 0 <= q < j ==> rs[q].id@ != id@,
            first_with_id(rs, id@) == first_with_id(rs.skip(j as int), id@),
        decreases rules.len() - j,
    {
        assert(rs.skip(j as int)[0] == rs[j as int]);
        assert(rs.skip(j as int).drop_first() =~= rs.skip(j + 1));
        if crate::text::same_text(rules[j].id.as_str(), id.as_str()) {
            return rules[j];
        }
        j += 1;
    }
    assert(rs[w].id@ != id@);
    rules[0]
}

/// The rules a packet carries (see `kept`), in id order.
pub fn sorted_rules<'a>(rules: &Vec<&'a Rule>) -> (r: Vec<&'a Rule>)
    ensures
        r@.map_values(|x: &Rule| *x) == kept(rules@.map_values(|x: &Rule| *x)),
        r@.map_values(|x: &Rule| x.id@) == kept_ids(rules@.map_values(|x: &Rule| *x)),
{
    let ghost rs = rules@.map_values(|x: &Rule| *x);
    let mut ids: Vec<String> = Vec::new();
    let mut i: usize = 0;
    while i < rules.len()
        invariant
            i <= rules.len(),
            rs == rules@.map_values(|x: &Rule| *x),
            views(ids@) == rs.map_values(|r: Rule| r.id@).take(i as int),
        decreases rules.len() - i,
    {
        assert(rs[i as int] == *rules@[i as int]);
        let ghost before = views(ids@);
        ids.push(rules[i].id.clone());
        assert(views(ids@) =~= before.push(rs[i as int].id@));
        i += 1;
        assert(views(ids@) =~= rs.map_values(|r: Rule| r.id@).take(i as int));
    }
    assert(rs.map_values(|r: Rule| r.id@).take(rules.len() as int) =~= rs.map_values(|r: Rule| r.id@));
    let sorted = sorted_distinct(ids);
    let ghost sv = views(sorted@);
    assert(views(ids@).to_set() == rs.map_values(|r: Rule| r.id@).to_set());
    let end: usize = if sorted.len() > MAX_RULES { MAX_RULES } else { sorted.len() };
    let mut out: Vec<&'a Rule> = Vec::new();
    let mut k: usize = 0;
    while k < end
        invariant
            k <= end <= sorted.len(),
            rs == rules@.map_values(|x: &Rule| *x),
            sv == views(sorted@),
            sv == sorted_texts(rs.map_values(|r: Rule| r.id@).to_set()),
            sv.to_set() == rs.map_values(|r: Rule| r.id@).to_set(),
            out@.map_values(|x: &Rule| *x) == sv.take(k as int).map_values(|id: Seq<char>| first_with_id(rs, id)),
            out@.map_values(|x: &Rule| x.id@) == sv.take(k as int),
        decreases end - k,
    {
        assert(sv.to_set().contains(sv[k as int]));
        assert(sorted@[k as int]@ == sv[k as int]);
        proof {
            let m = rs.map_values(|r: Rule| r.id@);
            assert(m.to_set().contains(sv[k as int]));
            assert(m.contains(sv[k as int]));
            let q = choose|q: int| 0 <= q < m.len() && m[q] == sv[k as int];
            assert(rules@[q].id@ == sv[k as int]);
        }
        let found = first_rule(rules, &sorted[k]);
        let ghost before = out@;
        out.push(found);
        assert(out@.map_values(|x: &Rule| *x) =~= before.map_values(|x: &Rule| *x).push(*found));
        assert(out@.map_values(|x: &Rule| x.id@) =~= before.map_values(|x: &Rule| x.id@).push(found.id@));
        assert(sv.take(k + 1).map_values(|id: Seq<char>| first_with_id(rs, id)) =~= sv.take(k as int).map_values(
            |id: Seq<char>| first_with_id(rs, id),
        ).push(first_with_id(rs, sv[k as int])));
        k += 1;
    }
    assert(sv.take(end as int) =~= kept_ids(rs));
    out
}

fn instruction_set(rules: &Vec<&Rule>, must: bool) -> (r: Vec<String>)
    ensures
        views(r@) == sorted_texts(instructions(rules@.map_values(|x: &Rule| *x), must)),
{
    let ghost rs = rules@.map_values(|x: &Rule| *x);
    let mut acc: Vec<String> = Vec::new();
    let mut k: usize = 0;
    assert(rs.take(0) =~= Seq::<Rule>::empty());
    assert(members(acc@) =~= Set::<Seq<char>>::empty());
    while k < rules.len()
        invariant
            k <= rules.len(),
            rs == rules@.map_values(|x: &Rule| *x),
            increasing(views(acc@)),
            members(acc@) == instructions(rs.take(k as int), must),
        decreases rules.len() - k,
    {
        assert(rs.take(k + 1).drop_last() =~= rs.take(k as int));
        assert(rs.take(k + 1).last() == *rules@[k as int]);
        let at_level = match rules[k].level {
            Level::Must => must,
            Level::Review => !must,
        };
        if at_level {
            insert_text(&mut acc, bounded_line(rules[k].instruction.as_str()));
        }
        k += 1;
    }
    assert(rs.take(rules.len() as int) =~= rs);
    proof {
        lemma_sorted_texts(views(acc@));
    }
    acc
}

fn append_bullets(packet: &mut String, lines: &Vec<String>)
    ensures
        final(packet)@ == old(packet)@ + bullets(views(lines@)),
{
    if lines.len() == 0 {
        packet.append("- None\n");
        return;
    }
    let ghost start = packet@;
    let mut i: usize = 0;
    assert(views(lines@).take(0) =~= Seq::<Seq<char>>::empty());
    while i < lines.len()
        invariant
            i <= lines.len(),
            packet@ == start + items(views(lines@).take(i as int)),
        decreases lines.len() - i,
    {
        assert(views(lines@).take(i + 1).drop_last() =~= views(lines@).take(i as int));
        assert(views(lines@).take(i + 1).last() == lines@[i as int]@);
        let ghost before = packet@;
        packet.append("- ");
        packet.append(lines[i].as_str());
        packet.append("\n");
        assert(packet@ =~= before + "- "@ + lines@[i as int]@ + "\n"@);
        i += 1;
    }
    assert(views(lines@).take(lines.len() as int) =~= views(lines@));
}

fn append_prefixed(packet: &mut String, prefix: &str, lines: &Vec<String>)
    ensures
        final(packet)@ == old(packet)@ + prefixed(prefix@, views(lines@)),
{
    let ghost start = packet@;
    let mut i: usize = 0;
    assert(views(lines@).take(0) =~= Seq::<Seq<char>>::empty());
    while i < lines.len()
        invariant
            i <= lines.len(),
            packet@ == start + prefixed(prefix@, views(lines@).take(i as int)),
        decreases lines.len() - i,
    {
        assert(views(lines@).take(i + 1).drop_last() =~= views(lines@).take(i as int));
        assert(views(lines@).take(i + 1).last() == lines@[i as int]@);
        let ghost before = packet@;
        let line = bounded_line(lines[i].as_str());
        packet.append("- ");
        packet.append(prefix);
        packet.append(": ");
        packet.append(line.as_str());
        packet.append("\n");
        assert(packet@ =~= before + "- "@ + prefix@ + ": "@ + bounded(lines@[i as int]@) + "\n"@);
        i += 1;
    }
    assert(views(lines@).take(lines.len() as int) =~= views(lines@));
}

/// Compiles the selected rules for the touched files: the rules are taken
/// in id order, one per id and at most `MAX_RULES`; the plan lists their
/// ids, checks and required evidence, sorted and distinct, with the
/// identity of the touched-file set; the packet lists their bounded
/// instructions, hard requirements first, then the checks and evidence.
pub fn compile_selected(rules: &Vec<&Rule>, touched_files: &Vec<String>) -> (r: CompiledInstructions)
    ensures
        ({
            let ks = kept(rules@.map_values(|x: &Rule| *x));
            &&& views(r.plan.rule_ids@) == kept_ids(rules@.map_values(|x: &Rule| *x))
            &&& views(r.plan.checks@) == sorted_texts(values_of(ks, false))
            &&& views(r.plan.evidence_required@) == sorted_texts(values_of(ks, true))
            &&& r.plan.context_identity@ == identity(touched_files@)
            &&& r.packet@ == packet_text(ks)
        }),
{
    let kept_rules = sorted_rules(rules);
    let ghost ks = kept_rules@.map_values(|x: &Rule| *x);
    let mut rule_ids: Vec<String> = Vec::new();
    let mut i: usize = 0;
    while i < kept_rules.len()
        invariant
            i <= kept_rules.len(),
            ks == kept_rules@.map_values(|x: &Rule| *x),
            views(rule_ids@) == ks.map_values(|r: Rule| r.id@).take(i as int),
        decreases kept_rules.len() - i,
    {
        assert(ks[i as int] == *kept_rules@[i as int]);
        let ghost before = views(rule_ids@);
        rule_ids.push(kept_rules[i].id.clone());
        assert(views(rule_ids@) =~= before.push(ks[i as int].id@));
        i += 1;
        assert(views(rule_ids@) =~= ks.map_values(|r: Rule| r.id@).take(i as int));
    }
    assert(ks.map_values(|r: Rule| r.id@) =~= kept_rules@.map_values(|x: &Rule| x.id@));
    assert(ks.map_values(|r: Rule| r.id@).take(kept_rules.len() as int) =~= ks.map_values(|r: Rule| r.id@));
    let checks = collect_values(&kept_rules, false);
    let evidence = collect_values(&kept_rules, true);
    let must = instruction_set(&kept_rules, true);
    let review = instruction_set(&kept_rules, false);
    let mut packet = String::from_str("Applicable engineering constraints:\n\nMUST\n");
    append_bullets(&mut packet, &must);
    packet.append("\nREVIEW\n");
    append_bullets(&mut packet, &review);
    packet.append("\nVerification required:\n");
    append_prefixed(&mut packet, "check", &checks);
    append_prefixed(&mut packet, "evidence", &evidence);
    packet.append("\nDo not claim a check passed unless it was executed successfully.\n");
    let plan = EnforcementPlan {
        context_identity: context_identity(touched_files),
        rule_ids,
        checks,
        evidence_required: evidence,
    };
    CompiledInstructions { packet, plan }
}

/// Which rules a packet carries depends only on the set of selected ids:
/// reordering or repeating the selection keeps the same ids, capped at the
/// same `MAX_RULES` smallest.
pub proof fn law_kept_ids_depend_on_the_id_set(a: Seq<Rule>, b: Seq<Rule>)
    requires
        a.map_values(|r: Rule| r.id@).to_set() == b.map_values(|r: Rule| r.id@).to_set(),
    ensures
        kept_ids(a) == kept_ids(b),
{
}

/// The ids a selection names.
pub open spec fn selected_ids(rs: Seq<Rule>) -> Set<Seq<char>> {
    rs.map_values(|r: Rule| r.id@).to_set()
}

/// `ids` lists, increasing, the `MAX_RULES` smallest texts of `all` (all of
/// them when there are fewer).
pub open spec fn smallest_ids(ids: Seq<Seq<char>>, all: Set<Seq<char>>) -> bool {
    &&& increasing(ids)
    &&& ids.len() == if all.len() > MAX_RULES {
        MAX_RULES as nat
    } else {
        all.len()
    }
    &&& forall|k: int| 0 <= k < ids.len() ==> all.contains(#[trigger] ids[k])
    &&& forall|id: Seq<char>, k: int|
        #![trigger all.contains(id), ids[k]]
        all.contains(id) && !ids.contains(id) && 0 <= k < ids.len() ==> text_lt(ids[k], id)
}

/// The rule ids a packet carries are, increasing, the `MAX_RULES` smallest
/// of the distinct ids selected (all of them when there are fewer).
pub proof fn law_kept_ids_are_the_smallest(rs: Seq<Rule>)
    ensures
        smallest_ids(kept_ids(rs), selected_ids(rs)),
{
    let all = selected_ids(rs);
    lemma_sorted_texts_exist(all);
    let sv = sorted_texts(all);
    assert(sv.no_duplicates()) by {
        assert forall|i: int, j: int| 0 <= i < sv.len() && 0 <= j < sv.len() && i != j implies sv[i] != sv[j] by {
            lemma_text_lt_irreflexive(sv[i]);
        }
    }
    sv.unique_seq_to_set();
    let n: int = if sv.len() > MAX_RULES { MAX_RULES as int } else { sv.len() as int };
    let ids = kept_ids(rs);
    assert(ids =~= sv.take(n));
    assert forall|k: int| 0 <= k < ids.len() implies all.contains(#[trigger] ids[k]) by {
        assert(sv.to_set().contains(sv[k]));
    }
    assert forall|id: Seq<char>, k: int|
        #![trigger all.contains(id), ids[k]]
        all.contains(id) && !ids.contains(id) && 0 <= k < ids.len() implies text_lt(ids[k], id) by {
        assert(sv.to_set().contains(id));
        let j = choose|j: int| 0 <= j < sv.len() && sv[j] == id;
        if j < n {
            assert(ids[j] == id);
        }
    }
}

/// The first rule with an id that a selection names is one of its rules,
/// with that id.
proof fn lemma_first_with_id(rs: Seq<Rule>, id: Seq<char>)
    requires
        selected_ids(rs).contains(id),
    ensures
        rs.contains(first_with_id(rs, id)),
        first_with_id(rs, id).id@ == id,
    decreases rs.len(),
{
    let m = rs.map_values(|r: Rule| r.id@);
    assert(m.to_set().contains(id));
    let q = choose|q: int| 0 <= q < m.len() && m[q] == id;
    if rs[0].id@ == id {
        assert(rs[0] == rs[0]);
    } else {
        let t = rs.drop_first();
        assert(t[q - 1] == rs[q]);
        if q == 0 {
            assert(m[0] == rs[0].id@);
        }
        assert(t.map_values(|r: Rule| r.id@)[q - 1] == id);
        assert(t.map_values(|r: Rule| r.id@).to_set().contains(id));
        lemma_first_with_id(t, id);
        let f = first_with_id(t, id);
        let p = choose|p: int| 0 <= p < t.len() && t[p] == f;
        assert(rs[p + 1] == f);
    }
}

/// Compiling depends only on which rules are selected, not on their order
/// or repetition, where rules that share an id are the same rule: two such
/// selections keep the same rules in the same order, so their plans and
/// packets are equal.
pub proof fn law_compiled_rules_depend_on_the_rule_set(a: Seq<Rule>, b: Seq<Rule>)
    requires
        a.to_set() == b.to_set(),
        forall|i: int, j: int|
            0 <= i < a.len() && 0 <= j < a.len() && (#[trigger] a[i]).id@ == (#[trigger] a[j]).id@ ==> a[i]
                == a[j],
    ensures
        kept_ids(a) == kept_ids(b),
        kept(a) == kept(b),
        sorted_texts(values_of(kept(a), false)) == sorted_texts(values_of(kept(b), false)),
        sorted_texts(values_of(kept(a), true)) == sorted_texts(values_of(kept(b), true)),
        packet_text(kept(a)) == packet_text(kept(b)),
{
    assert forall|t: Seq<char>| selected_ids(a).contains(t) <==> selected_ids(b).contains(t) by {
        let ma = a.map_values(|r: Rule| r.id@);
        let mb = b.map_values(|r: Rule| r.id@);
        if selected_ids(a).contains(t) {
            let i = choose|i: int| 0 <= i < ma.len() && ma[i] == t;
            assert(a.to_set().contains(a[i]));
            let j = choose|j: int| 0 <= j < b.len() && b[j] == a[i];
            assert(mb[j] == t);
            assert(mb.to_set().contains(t));
        }
        if selected_ids(b).contains(t) {
            let j = choose|j: int| 0 <= j < mb.len() && mb[j] == t;
            assert(b.to_set().contains(b[j]));
            let i = choose|i: int| 0 <= i < a.len() && a[i] == b[j];
            assert(ma[i] == t);
            assert(ma.to_set().contains(t));
        }
    }
    assert(selected_ids(a) =~= selected_ids(b));
    law_kept_ids_depend_on_the_id_set(a, b);
    law_kept_ids_are_the_smallest(a);
    let ids = kept_ids(a);
    assert forall|k: int| 0 <= k < ids.len() implies first_with_id(a, ids[k]) == first_with_id(b, ids[k]) by {
        let id = ids[k];
        assert(selected_ids(a).contains(id));
        lemma_first_with_id(a, id);
        lemma_first_with_id(b, id);
        let fa = first_with_id(a, id);
        let fb = first_with_id(b, id);
        let i = choose|i: int| 0 <= i < a.len() && a[i] == fa;
        assert(b.to_set().contains(fb));
        assert(a.to_set().contains(fb));
        let q = choose|q: int| 0 <= q < a.len() && a[q] == fb;
        assert(a[q].id@ == a[i].id@);
    }
    assert(kept(a) =~= kept(b));
}

} // verus!
