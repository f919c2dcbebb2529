//! Bounded dependency-cycle detection for touched source modules.

use vstd::prelude::*;

use crate::checks::diff::association::{extension, extension_exec};
use crate::checks::languages::loc_views;
use crate::checks::{EnforcementResult, Location, ResultEvidence, Severity, Status};
use crate::strset::{holds_text, increasing, insert_text, members, sorted_texts};
use crate::checks::review::{find_from, find_from_exec, lemma_find_from};
use crate::text::{ends_with, lines, starts_with, trim, views, words};

verus! {

/// The most modules analyzed, and the deepest import chain followed.
pub const MAX_MODULES: usize = 64;

/// A module graph: each module with the modules it imports, keys sorted.
pub type Graph = Vec<(String, Vec<String>)>;

/// A module graph as values: each module with the modules it imports.
pub type GraphView = Seq<(Seq<char>, Seq<Seq<char>>)>;

pub open spec fn graph_view(g: Seq<(String, Vec<String>)>) -> GraphView {
    g.map_values(|e: (String, Vec<String>)| (e.0@, views(e.1@)))
}

pub open spec fn graph_keys(g: GraphView) -> Seq<Seq<char>> {
    g.map_values(|e: (Seq<char>, Seq<Seq<char>>)| e.0)
}

/// The imports recorded for a module (none when it is not a key).
pub open spec fn edges_of(g: GraphView, node: Seq<char>) -> Seq<Seq<char>>
    decreases g.len(),
{
    if g.len() == 0 {
        seq![]
    } else if g[0].0 == node {
        g[0].1
    } else {
        edges_of(g.drop_first(), node)
    }
}

/// The position of a module on the current import chain.
pub open spec fn position(stack: Seq<Seq<char>>, node: Seq<char>) -> int
    decreases stack.len(),
{
    if stack.len() == 0 {
        -1
    } else if stack[0] == node {
        0
    } else if position(stack.drop_first(), node) < 0 {
        -1
    } else {
        position(stack.drop_first(), node) + 1
    }
}

/// Follows imports depth first from `node` along the chain `stack`: reaching
/// a module already on the chain records the chain from it as a cycle; the
/// chain never grows past `MAX_MODULES`.
pub open spec fn visit(g: GraphView, node: Seq<char>, stack: Seq<Seq<char>>, cycles: Set<Seq<char>>) -> Set<Seq<char>>
    decreases MAX_MODULES - stack.len(), 0int, 0int,
{
    if position(stack, node) >= 0 {
        cycles.union(stack.skip(position(stack, node)).to_set())
    } else if stack.len() >= MAX_MODULES {
        cycles
    } else {
        visit_edges(g, edges_of(g, node), 0, stack.push(node), cycles)
    }
}

/// The imports from index `k` on, each followed when it is a module of the graph.
pub open spec fn visit_edges(g: GraphView, edges: Seq<Seq<char>>, k: int, stack: Seq<Seq<char>>, cycles: Set<Seq<char>>) -> Set<Seq<char>>
    decreases MAX_MODULES - stack.len(), 1int, edges.len() - k,
{
    if k < 0 || k >= edges.len() || stack.len() > MAX_MODULES {
        cycles
    } else {
        let c2 = if graph_keys(g).contains(edges[k]) { visit(g, edges[k], stack, cycles) } else { cycles };
        visit_edges(g, edges, k + 1, stack, c2)
    }
}

/// The modules on a cycle found from each module of the graph in turn.
pub open spec fn cycles_from(g: GraphView, n: nat) -> Set<Seq<char>>
    decreases n,
{
    if n == 0 || n > g.len() {
        Set::empty()
    } else {
        visit(g, g[n - 1].0, seq![], cycles_from(g, (n - 1) as nat))
    }
}

fn edges_for<'a>(g: &'a Graph, node: &str) -> (r: Option<&'a Vec<String>>)
    ensures
        match r {
            Some(e) => views(e@) == edges_of(graph_view(g@), node@),
            None => edges_of(graph_view(g@), node@) == Seq::<Seq<char>>::empty(),
        },
{
    let mut i: usize = 0;
    assert(graph_view(g@).skip(0) =~= graph_view(g@));
    while i < g.len()
        invariant
            i <= g.len(),
            edges_of(graph_view(g@), node@) == edges_of(graph_view(g@).skip(i as int), node@),
        decreases g.len() - i,
    {
        assert(graph_view(g@).skip(i as int)[0] == (g@[i as int].0@, views(g@[i as int].1@)));
        assert(graph_view(g@).skip(i as int).drop_first() =~= graph_view(g@).skip(i + 1));
        if crate::text::same_text(g[i].0.as_str(), node) {
            return Some(&g[i].1);
        }
        i += 1;
    }
    assert(graph_view(g@).skip(i as int).len() == 0);
    None
}

fn is_key(g: &Graph, node: &str) -> (r: bool)
    ensures
        r == graph_keys(graph_view(g@)).contains(node@),
{
    let mut i: usize = 0;
    while i < g.len()
        invariant
            i <= g.len(),
            forall|k: int| 0 <= k < i ==> graph_keys(graph_view(g@))[k] != node@,
        decreases g.len() - i,
    {
        assert(graph_keys(graph_view(g@))[i as int] == g@[i as int].0@);
        if crate::text::same_text(g[i].0.as_str(), node) {
            return true;
        }
        i += 1;
    }
    false
}

fn position_exec(stack: &Vec<String>, node: &str) -> (r: Option<usize>)
    ensures
        match r {
            Some(p) => position(views(stack@), node@) == p as int && p < stack@.len(),
            None => position(views(stack@), node@) < 0,
        },
{
    let ghost sv = views(stack@);
    let mut i: usize = 0;
    while i < stack.len()
        invariant
            sv == views(stack@),
            i <= stack.len(),
            forall|k: int| 0 <= k < i ==> sv[k] != node@,
        decreases stack.len() - i,
    {
        if crate::text::same_text(stack[i].as_str(), node) {
            proof {
                lemma_position_first(sv, node@, i as int);
            }
            return Some(i);
        }
        i += 1;
    }
    proof {
        lemma_position_absent(sv, node@);
    }
    None
}

proof fn lemma_position_first(s: Seq<Seq<char>>, node: Seq<char>, i: int)
    requires
        0 <= i < s.len(),
        s[i] == node,
        forall|k: int| 0 <= k < i ==> s[k] != node,
    ensures
        position(s, node) == i,
    decreases i,
{
    if i > 0 {
        lemma_position_first(s.drop_first(), node, i - 1);
    }
}

proof fn lemma_position_absent(s: Seq<Seq<char>>, node: Seq<char>)
    requires
        forall|k: int| 0 <= k < s.len() ==> s[k] != node,
    ensures
        position(s, node) < 0,
    decreases s.len(),
{
    if s.len() > 0 {
        lemma_position_absent(s.drop_first(), node);
    }
}

/// Adds the chain from position `from` on to the cycle set.
fn add_chain(cycles: &mut Vec<String>, stack: &Vec<String>, from: usize)
    requires
        increasing(views(old(cycles)@)),
        from <= stack@.len(),
    ensures
        increasing(views(final(cycles)@)),
        members(final(cycles)@) == members(old(cycles)@).union(views(stack@).skip(from as int).to_set()),
{
    let ghost start = members(cycles@);
    let ghost sv = views(stack@);
    let mut i: usize = from;
    assert(sv.subrange(from as int, from as int).to_set() =~= Set::empty());
    assert(start.union(Set::empty()) =~= start);
    while i < stack.len()
        invariant
            sv == views(stack@),
            from <= i <= stack.len(),
            increasing(views(cycles@)),
            members(cycles@) == start.union(sv.subrange(from as int, i as int).to_set()),
        decreases stack.len() - i,
    {
        insert_text(cycles, stack[i].clone());
        proof {
            assert(sv.subrange(from as int, i + 1) =~= sv.subrange(from as int, i as int).push(sv[i as int]));
            sv.subrange(from as int, i as int).lemma_push_to_set_commute(sv[i as int]);
            assert(start.union(sv.subrange(from as int, i as int).to_set()).insert(sv[i as int]) =~= start.union(sv.subrange(from as int, i + 1).to_set()));
        }
        i += 1;
    }
    assert(sv.subrange(from as int, stack.len() as int) =~= sv.skip(from as int));
}

fn visit_exec(g: &Graph, node: &str, stack: &mut Vec<String>, cycles: &mut Vec<String>)
    requires
        increasing(views(old(cycles)@)),
        old(stack)@.len() <= MAX_MODULES,
    ensures
        increasing(views(final(cycles)@)),
        views(final(stack)@) == views(old(stack)@),
        members(final(cycles)@) == visit(graph_view(g@), node@, views(old(stack)@), members(old(cycles)@)),
    decreases MAX_MODULES - old(stack)@.len(), 0int, 0int,
{
    match position_exec(stack, node) {
        Some(p) => {
            add_chain(cycles, stack, p);
            return;
        },
        None => {},
    }
    if stack.len() >= MAX_MODULES {
        return;
    }
    let ghost s0 = views(stack@);
    stack.push(String::from_str(node));
    assert(views(stack@) =~= s0.push(node@));
    match edges_for(g, node) {
        Some(edges) => {
            visit_edges_exec(g, edges, 0, stack, cycles);
        },
        None => {
            let none: Vec<String> = Vec::new();
            assert(views(none@) =~= Seq::<Seq<char>>::empty());
            visit_edges_exec(g, &none, 0, stack, cycles);
        },
    }
    let ghost s1 = stack@;
    assert(views(s1) == s0.push(node@));
    stack.pop();
    assert(stack@ =~= s1.drop_last());
    assert(views(stack@) =~= views(s1).drop_last());
    assert(views(stack@) =~= s0);
}

fn visit_edges_exec(g: &Graph, edges: &Vec<String>, k: usize, stack: &mut Vec<String>, cycles: &mut Vec<String>)
    requires
        increasing(views(old(cycles)@)),
        old(stack)@.len() <= MAX_MODULES,
        k <= edges@.len(),
    ensures
        increasing(views(final(cycles)@)),
        views(final(stack)@) == views(old(stack)@),
        members(final(cycles)@) == visit_edges(graph_view(g@), views(edges@), k as int, views(old(stack)@), members(old(cycles)@)),
    decreases MAX_MODULES - old(stack)@.len(), 1int, edges@.len() - k,
{
    if k >= edges.len() {
        return;
    }
    assert(views(edges@)[k as int] == edges@[k as int]@);
    if is_key(g, edges[k].as_str()) {
        visit_exec(g, edges[k].as_str(), stack, cycles);
    }
    visit_edges_exec(g, edges, k + 1, stack, cycles);
}

/// The modules on the import cycles of a graph (keys sorted).
pub fn find_cycles(g: &Graph) -> (r: Vec<String>)
    ensures
        increasing(views(r@)),
        members(r@) == cycles_from(graph_view(g@), g@.len()),
{
    let mut cycles: Vec<String> = Vec::new();
    assert(views(cycles@) =~= Seq::<Seq<char>>::empty());
    assert(members(cycles@) =~= Set::<Seq<char>>::empty());
    let mut i: usize = 0;
    while i < g.len()
        invariant
            i <= g.len(),
            increasing(views(cycles@)),
            members(cycles@) == cycles_from(graph_view(g@), i as nat),
        decreases g.len() - i,
    {
        let mut stack: Vec<String> = Vec::new();
        assert(views(stack@) =~= Seq::<Seq<char>>::empty());
        assert(graph_view(g@)[i as int].0 == g@[i as int].0@);
        visit_exec(g, g[i].0.as_str(), &mut stack, &mut cycles);
        i += 1;
    }
    cycles
}

// ---------------------------------------------------------------------------
// The check.

/// A source file the analysis reads.
pub open spec fn supported_file(f: Seq<char>) -> bool {
    match extension(f) {
        Some(e) => e == "py"@ || e == "rs"@ || e == "ts"@ || e == "tsx"@ || e == "js"@ || e == "jsx"@,
        None => false,
    }
}

pub fn supported(file: &str) -> (r: bool)
    ensures
        r == supported_file(file@),
{
    let c = crate::text::chars_of(file);
    match extension_exec(c.as_slice()) {
        None => false,
        Some(e) => {
            let s = e.as_slice();
            crate::text::chars_are(s, "py") || crate::text::chars_are(s, "rs") || crate::text::chars_are(s, "ts")
                || crate::text::chars_are(s, "tsx") || crate::text::chars_are(s, "js") || crate::text::chars_are(s, "jsx")
        },
    }
}

/// A touched file with the modules its imports resolve to, or `None` when
/// it could not be read.
pub type Source = (String, Option<Vec<String>>);

pub type SourceView = (Seq<char>, Option<Seq<Seq<char>>>);

pub open spec fn source_view(s: Source) -> SourceView {
    (s.0@, match s.1 {
        Some(v) => Some(views(v@)),
        None => None,
    })
}

/// The supported files, in order.
pub open spec fn supported_list(es: Seq<Source>) -> Seq<SourceView>
    decreases es.len(),
{
    if es.len() == 0 {
        seq![]
    } else if supported_file(es.last().0@) {
        supported_list(es.drop_last()).push(source_view(es.last()))
    } else {
        supported_list(es.drop_last())
    }
}

/// The supported files analyzed: the first `MAX_MODULES`.
pub open spec fn considered(es: Seq<Source>) -> Seq<SourceView> {
    let l = supported_list(es);
    if l.len() > MAX_MODULES {
        l.take(MAX_MODULES as int)
    } else {
        l
    }
}

/// The imports of the last entry for a module (none when unreadable).
pub open spec fn imports_of(list: Seq<SourceView>, key: Seq<char>) -> Seq<Seq<char>>
    decreases list.len(),
{
    if list.len() == 0 {
        seq![]
    } else if list.last().0 == key {
        match list.last().1 {
            Some(v) => v,
            None => seq![],
        }
    } else {
        imports_of(list.drop_last(), key)
    }
}

/// The graph of the analyzed modules, keyed in sorted order.
pub open spec fn module_graph(list: Seq<SourceView>) -> GraphView {
    let keys = sorted_texts(list.map_values(|e: SourceView| e.0).to_set());
    Seq::new(keys.len(), |k: int| (keys[k], imports_of(list, keys[k])))
}

/// Every supported file was analyzed and read.
pub open spec fn analysis_complete(es: Seq<Source>) -> bool {
    supported_list(es).len() <= MAX_MODULES && forall|k: int| 0 <= k < considered(es).len() ==> (#[trigger] considered(es)[k]).1 is Some
}

/// The check's status: a cycle fails; otherwise a complete analysis passes
/// and an incomplete one is unverified.
pub open spec fn module_status(es: Seq<Source>) -> Status {
    if supported_list(es).len() == 0 {
        Status::NotApplicable
    } else {
        let cycles = cycles_from(module_graph(considered(es)), module_graph(considered(es)).len());
        if cycles.len() > 0 {
            Status::Failed
        } else if analysis_complete(es) {
            Status::Passed
        } else {
            Status::Unverified
        }
    }
}

/// The reported modules: the first `MAX_MODULES` on a cycle, sorted.
pub open spec fn cycle_files(es: Seq<Source>) -> Seq<Seq<char>> {
    let sorted = sorted_texts(cycles_from(module_graph(considered(es)), module_graph(considered(es)).len()));
    if supported_list(es).len() == 0 {
        seq![]
    } else if sorted.len() > MAX_MODULES {
        sorted.take(MAX_MODULES as int)
    } else {
        sorted
    }
}

/// A count, capped just past the module limit.
pub open spec fn capped_count(n: nat) -> nat {
    if n > MAX_MODULES {
        (MAX_MODULES + 1) as nat
    } else {
        n
    }
}

fn considered_exec(sources: &Vec<Source>) -> (r: (Vec<Source>, usize))
    ensures
        r.0@.map_values(|e: Source| source_view(e)) == considered(sources@),
        r.1 as nat == capped_count(supported_list(sources@).len()),
{
    let mut out: Vec<Source> = Vec::new();
    let mut count: usize = 0;
    let mut i: usize = 0;
    assert(sources@.take(0) =~= Seq::<Source>::empty());
    assert(out@.map_values(|e: Source| source_view(e)) =~= Seq::<SourceView>::empty());
    while i < sources.len()
        invariant
            i <= sources.len(),
            count as nat == capped_count(supported_list(sources@.take(i as int)).len()),
            out@.map_values(|e: Source| source_view(e)) == considered(sources@.take(i as int)),
        decreases sources.len() - i,
    {
        let ghost prev = sources@.take(i as int);
        assert(sources@.take(i + 1).drop_last() =~= prev);
        assert(sources@.take(i + 1).last() == sources@[i as int]);
        if supported(sources[i].0.as_str()) {
            let ghost before = out@;
            if count < MAX_MODULES {
                let copy: Source = (sources[i].0.clone(), match &sources[i].1 {
                    Some(v) => Some(copy_strings(v)),
                    None => None,
                });
                out.push(copy);
                assert(out@.map_values(|e: Source| source_view(e)) =~= before.map_values(|e: Source| source_view(e)).push(source_view(sources@[i as int])));
            } else {
                assert(supported_list(sources@.take(i + 1)).take(MAX_MODULES as int) =~= supported_list(prev).take(MAX_MODULES as int));
            }
            if count <= MAX_MODULES {
                count += 1;
            }
        }
        i += 1;
    }
    assert(sources@.take(sources.len() as int) =~= sources@);
    (out, count)
}

fn copy_strings(v: &Vec<String>) -> (r: Vec<String>)
    ensures
        views(r@) == views(v@),
{
    let mut out: Vec<String> = Vec::new();
    let mut i: usize = 0;
    while i < v.len()
        invariant
            i <= v.len(),
            views(out@) == views(v@).take(i as int),
        decreases v.len() - i,
    {
        let ghost b = out@;
        out.push(v[i].clone());
        assert(views(out@) =~= views(b).push(v@[i as int]@));
        assert(views(v@).take(i + 1) =~= views(v@).take(i as int).push(v@[i as int]@));
        i += 1;
    }
    assert(views(v@).take(v.len() as int) =~= views(v@));
    out
}

fn imports_for(list: &Vec<Source>, key: &str) -> (r: Vec<String>)
    ensures
        views(r@) == imports_of(list@.map_values(|e: Source| source_view(e)), key@),
{
    let ghost lv = list@.map_values(|e: Source| source_view(e));
    let mut i: usize = list.len();
    assert(lv.take(list.len() as int) =~= lv);
    while i > 0
        invariant
            i <= list.len(),
            lv == list@.map_values(|e: Source| source_view(e)),
            imports_of(lv, key@) == imports_of(lv.take(i as int), key@),
        decreases i,
    {
        assert(lv.take(i as int).drop_last() =~= lv.take(i - 1));
        assert(lv.take(i as int).last() == source_view(list@[i - 1]));
        if crate::text::same_text(list[i - 1].0.as_str(), key) {
            return match &list[i - 1].1 {
                Some(v) => copy_strings(v),
                None => {
                    let none: Vec<String> = Vec::new();
                    assert(views(none@) =~= Seq::<Seq<char>>::empty());
                    none
                },
            };
        }
        i -= 1;
    }
    let none: Vec<String> = Vec::new();
    assert(views(none@) =~= Seq::<Seq<char>>::empty());
    assert(lv.take(0) =~= Seq::<SourceView>::empty());
    none
}

fn build_graph(list: &Vec<Source>) -> (r: Graph)
    ensures
        graph_view(r@) == module_graph(list@.map_values(|e: Source| source_view(e))),
{
    let ghost lv = list@.map_values(|e: Source| source_view(e));
    let mut paths: Vec<String> = Vec::new();
    let mut i: usize = 0;
    while i < list.len()
        invariant
            i <= list.len(),
            lv == list@.map_values(|e: Source| source_view(e)),
            views(paths@) == lv.map_values(|e: SourceView| e.0).take(i as int),
        decreases list.len() - i,
    {
        let ghost b = paths@;
        paths.push(list[i].0.clone());
        assert(views(paths@) =~= views(b).push(list@[i as int].0@));
        assert(lv.map_values(|e: SourceView| e.0).take(i + 1) =~= lv.map_values(|e: SourceView| e.0).take(i as int).push(list@[i as int].0@));
        i += 1;
    }
    assert(lv.map_values(|e: SourceView| e.0).take(list.len() as int) =~= lv.map_values(|e: SourceView| e.0));
    let keys = crate::strset::sorted_distinct(paths);
    let mut g: Graph = Vec::new();
    let mut k: usize = 0;
    while k < keys.len()
        invariant
            lv == list@.map_values(|e: Source| source_view(e)),
            views(keys@) == sorted_texts(lv.map_values(|e: SourceView| e.0).to_set()),
            k <= keys.len(),
            graph_view(g@) == module_graph(lv).take(k as int),
        decreases keys.len() - k,
    {
        let imports = imports_for(list, keys[k].as_str());
        let ghost b = g@;
        g.push((keys[k].clone(), imports));
        assert(graph_view(g@) =~= graph_view(b).push((keys@[k as int]@, imports_of(lv, keys@[k as int]@))));
        assert(module_graph(lv).take(k + 1) =~= module_graph(lv).take(k as int).push((keys@[k as int]@, imports_of(lv, keys@[k as int]@))));
        k += 1;
    }
    assert(module_graph(lv).take(keys.len() as int) =~= module_graph(lv));
    g
}

/// The module-boundary result.
pub open spec fn is_module_result(r: EnforcementResult, status: Status, files: Seq<Seq<char>>) -> bool {
    &&& r.rule_id@ == "module-boundary-review"@
    &&& r.status == status
    &&& r.severity == Severity::Error
    &&& r.message@ == (if status == Status::Failed {
        "Module dependency cycle detected ("@ + crate::checks::commands::supervisor::decimal(files.len()) + " file(s))."@
    } else if status == Status::Unverified {
        "Module dependency analysis was incomplete; no deterministic cycle conclusion was possible."@
    } else {
        "No deterministic module dependency cycle was found."@
    })
    &&& loc_views(r.locations@) == files.map_values(|f: Seq<char>| (f, None::<u64>))
    &&& (if status == Status::Failed {
        r.remediation matches Some(m) && m@ == "Break the cycle or add an adapter boundary between modules."@
    } else {
        r.remediation is None
    })
    &&& r.evidence.check@ == "native.module-boundaries"@
    &&& r.evidence.tool_version is None
    &&& r.evidence.finding_descriptions@.len() == 0
}

fn module_result(status: Status, files: &Vec<String>) -> (r: EnforcementResult)
    ensures
        is_module_result(r, status, views(files@)),
{
    let mut locations: Vec<Location> = Vec::new();
    let mut i: usize = 0;
    while i < files.len()
        invariant
            i <= files.len(),
            loc_views(locations@) == views(files@).take(i as int).map_values(|f: Seq<char>| (f, None::<u64>)),
        decreases files.len() - i,
    {
        let ghost b = locations@;
        locations.push(Location { file: files[i].clone(), line: None });
        assert(loc_views(locations@) =~= loc_views(b).push((files@[i as int]@, None::<u64>)));
        assert(views(files@).take(i + 1).map_values(|f: Seq<char>| (f, None::<u64>)) =~= views(files@).take(i as int).map_values(|f: Seq<char>| (f, None::<u64>)).push((files@[i as int]@, None::<u64>)));
        i += 1;
    }
    assert(views(files@).take(files.len() as int) =~= views(files@));
    let message = if status == Status::Failed {
        let n = crate::checks::commands::supervisor::decimal_string(files.len() as u64);
        crate::text::concat3("Module dependency cycle detected (", n.as_str(), " file(s)).")
    } else if status == Status::Unverified {
        String::from_str("Module dependency analysis was incomplete; no deterministic cycle conclusion was possible.")
    } else {
        String::from_str("No deterministic module dependency cycle was found.")
    };
    EnforcementResult {
        rule_id: String::from_str("module-boundary-review"),
        status,
        severity: Severity::Error,
        message,
        locations,
        remediation: if status == Status::Failed { Some(String::from_str("Break the cycle or add an adapter boundary between modules.")) } else { None },
        evidence: ResultEvidence { check: String::from_str("native.module-boundaries"), tool_version: None, finding_descriptions: Vec::new() },
    }
}

/// The module-boundary review of the touched files (each with its resolved
/// imports, or `None` when unreadable).
pub fn scan(sources: &Vec<Source>) -> (r: Vec<EnforcementResult>)
    ensures
        r@.len() == 1,
        is_module_result(r@[0], module_status(sources@), cycle_files(sources@)),
{
    let (list, count) = considered_exec(sources);
    let mut out: Vec<EnforcementResult> = Vec::new();
    if count == 0 {
        let none: Vec<String> = Vec::new();
        assert(views(none@) =~= Seq::<Seq<char>>::empty());
        out.push(module_result(Status::NotApplicable, &none));
        return out;
    }
    let mut complete = count <= MAX_MODULES;
    let mut i: usize = 0;
    let ghost cv = list@.map_values(|e: Source| source_view(e));
    while i < list.len()
        invariant
            i <= list.len(),
            cv == list@.map_values(|e: Source| source_view(e)),
            complete == (count <= MAX_MODULES && forall|k: int| 0 <= k < i ==> (#[trigger] cv[k]).1 is Some),
        decreases list.len() - i,
    {
        assert(cv[i as int] == source_view(list@[i as int]));
        if list[i].1.is_none() {
            complete = false;
        }
        i += 1;
    }
    let g = build_graph(&list);
    let cycles = find_cycles(&g);
    proof {
        crate::strset::lemma_sorted_texts(views(cycles@));
        assert(views(cycles@).to_set() == members(cycles@));
    }
    let mut shown: Vec<String> = Vec::new();
    let mut k: usize = 0;
    while k < cycles.len() && k < MAX_MODULES
        invariant
            k <= cycles.len(),
            k <= MAX_MODULES,
            views(shown@) == views(cycles@).take(k as int),
        decreases cycles.len() - k,
    {
        let ghost b = shown@;
        shown.push(cycles[k].clone());
        assert(views(shown@) =~= views(b).push(cycles@[k as int]@));
        assert(views(cycles@).take(k + 1) =~= views(cycles@).take(k as int).push(cycles@[k as int]@));
        k += 1;
    }
    if cycles.len() <= MAX_MODULES {
        assert(views(cycles@).take(cycles.len() as int) =~= views(cycles@));
    }
    proof {
        let cyc = members(cycles@);
        if cycles.len() > 0 {
            assert(cyc.contains(views(cycles@)[0]));
        } else {
            assert(cyc =~= Set::<Seq<char>>::empty());
        }
    }
    let status = if cycles.len() > 0 {
        Status::Failed
    } else if complete {
        Status::Passed
    } else {
        Status::Unverified
    };
    out.push(module_result(status, &shown));
    out
}

// ---------------------------------------------------------------------------
// Import lines.

pub open spec fn script_extension(ext: Option<Seq<char>>) -> bool {
    ext == Some("ts"@) || ext == Some("tsx"@) || ext == Some("js"@) || ext == Some("jsx"@)
}

/// A dotted Python module path as a relative path.
pub open spec fn dots_to_slashes(v: Seq<char>) -> Seq<char> {
    v.map_values(|c: char| if c == '.' { '/' } else { c })
}

/// The quoted specifier after the first `marker`, when it is relative.
pub open spec fn quoted_after(t: Seq<char>, marker: Seq<char>) -> Option<Seq<char>> {
    match find_from(t, marker, 0) {
        None => None,
        Some(i) => {
            let rest = t.skip((i + marker.len()) as int);
            match find_from(rest, "\""@, 0) {
                None => None,
                Some(j) => if starts_with(rest.take(j as int), "."@) {
                    Some(rest.take(j as int))
                } else {
                    None
                },
            }
        },
    }
}

/// The relative module an import line names, as a path relative to the
/// importing file's directory: a TypeScript/JavaScript `import … from "…"`
/// or `require("…")` of a specifier starting with `.`; a Rust `mod name;`;
/// or a Python `from .a.b import …`.
pub open spec fn import_spec(line: Seq<char>, ext: Option<Seq<char>>) -> Option<Seq<char>> {
    let t = trim(line);
    if script_extension(ext) {
        if starts_with(t, "import "@) {
            quoted_after(t, " from \""@)
        } else if starts_with(t, "require(\""@) {
            quoted_after(t, "require(\""@)
        } else {
            None
        }
    } else if ext == Some("rs"@) {
        if starts_with(t, "mod "@) && ends_with(t.skip(4), ";"@) {
            Some("./"@ + t.skip(4).drop_last())
        } else {
            None
        }
    } else if ext == Some("py"@) {
        if starts_with(t, "from ."@) && words(t.skip(6)).len() > 0 {
            Some("./"@ + dots_to_slashes(words(t.skip(6))[0]))
        } else {
            None
        }
    } else {
        None
    }
}

/// The import specifiers of a source's lines, in order.
pub open spec fn import_specs(ls: Seq<Seq<char>>, ext: Option<Seq<char>>) -> Seq<Seq<char>>
    decreases ls.len(),
{
    if ls.len() == 0 {
        seq![]
    } else {
        let prev = import_specs(ls.drop_last(), ext);
        match import_spec(ls.last(), ext) {
            Some(v) => prev.push(v),
            None => prev,
        }
    }
}

fn quoted_after_exec(t: &[char], marker: &str) -> (r: Option<Vec<char>>)
    ensures
        match r {
            Some(v) => quoted_after(t@, marker@) == Some(v@),
            None => quoted_after(t@, marker@) is None,
        },
{
    proof {
        lemma_find_from(t@, marker@, 0);
    }
    let i = match find_from_exec(t, marker, 0) {
        Some(i) => i,
        None => return None,
    };
    let m = crate::text::chars_of(marker);
    assert(i + marker@.len() <= t@.len());
    assert(m@.len() == marker@.len());
    assert(t@.len() == t.len());
    let start = i + m.len();
    let mut rest: Vec<char> = Vec::new();
    let mut k: usize = start;
    while k < t.len()
        invariant
            start <= k <= t.len(),
            rest@ == t@.subrange(start as int, k as int),
        decreases t.len() - k,
    {
        rest.push(t[k]);
        k += 1;
        assert(rest@ =~= t@.subrange(start as int, k as int));
    }
    assert(rest@ =~= t@.skip(i + marker@.len()));
    proof {
        reveal_strlit("\"");
        lemma_find_from(rest@, "\""@, 0);
    }
    let j = match find_from_exec(rest.as_slice(), "\"", 0) {
        Some(j) => j,
        None => return None,
    };
    let mut v: Vec<char> = Vec::new();
    let mut q: usize = 0;
    while q < j
        invariant
            q <= j <= rest.len(),
            v@ == rest@.take(q as int),
        decreases j - q,
    {
        v.push(rest[q]);
        q += 1;
        assert(v@ =~= rest@.take(q as int));
    }
    if crate::text::starts_with_str(v.as_slice(), ".") {
        Some(v)
    } else {
        None
    }
}

fn ext_is(ext: Option<&str>, name: &str) -> (r: bool)
    ensures
        r == (match ext {
            Some(e) => Some(e@),
            None => None,
        } == Some(name@)),
{
    match ext {
        Some(e) => crate::text::same_text(e, name),
        None => false,
    }
}

/// The relative module an import line names (see `import_spec`).
pub fn import_spec_exec(line: &str, ext: Option<&str>) -> (r: Option<String>)
    ensures
        match r {
            Some(v) => import_spec(line@, match ext {
                Some(e) => Some(e@),
                None => None,
            }) == Some(v@),
            None => import_spec(line@, match ext {
                Some(e) => Some(e@),
                None => None,
            }) is None,
        },
{
    let c = crate::text::chars_of(line);
    let t = crate::text::trim_exec(c.as_slice());
    let ts = t.as_slice();
    if ext_is(ext, "ts") || ext_is(ext, "tsx") || ext_is(ext, "js") || ext_is(ext, "jsx") {
        let found = if crate::text::starts_with_str(ts, "import ") {
            quoted_after_exec(ts, " from \"")
        } else if crate::text::starts_with_str(ts, "require(\"") {
            quoted_after_exec(ts, "require(\"")
        } else {
            None
        };
        return match found {
            Some(v) => Some(crate::text::string_of(v.as_slice())),
            None => None,
        };
    }
    if ext_is(ext, "rs") {
        proof {
            reveal_strlit("mod ");
            reveal_strlit(";");
            reveal_strlit("./");
        }
        let starts = crate::text::starts_with_str(ts, "mod ");
        let ghost spec_cond = starts_with(t@, "mod "@) && ends_with(t@.skip(4), ";"@);
        proof {
            if spec_cond {
                let s4 = t@.skip(4);
                assert(s4.subrange(s4.len() - 1, s4.len() as int) == ";"@);
                assert(s4.subrange(s4.len() - 1, s4.len() as int)[0] == s4[s4.len() - 1]);
                assert(t@.len() >= 5);
                assert(s4[s4.len() - 1] == t@[t@.len() - 1]);
            }
        }
        if starts && ts.len() >= 5 && ts[ts.len() - 1] == ';' {
            let mut v: Vec<char> = Vec::new();
            v.push('.');
            v.push('/');
            let mut k: usize = 4;
            while k + 1 < ts.len()
                invariant
                    ts@ == t@,
                    4 <= k <= ts.len() - 1,
                    ts.len() >= 5,
                    v@ == "./"@ + t@.subrange(4, k as int),
                decreases ts.len() - k,
            {
                v.push(ts[k]);
                k += 1;
                assert(v@ =~= "./"@ + t@.subrange(4, k as int));
            }
            assert(t@.skip(4).drop_last() =~= t@.subrange(4, k as int));
            assert(t@.skip(4).last() == ';');
            assert(ends_with(t@.skip(4), ";"@)) by {
                assert(t@.skip(4).subrange(t@.skip(4).len() - 1, t@.skip(4).len() as int) =~= ";"@);
            }
            return Some(crate::text::string_of(v.as_slice()));
        }
        return None;
    }
    if ext_is(ext, "py") {
        proof {
            reveal_strlit("from .");
            reveal_strlit("./");
        }
        if crate::text::starts_with_str(ts, "from .") {
            let mut rest: Vec<char> = Vec::new();
            let mut k: usize = 6;
            while k < ts.len()
                invariant
                    ts@ == t@,
                    6 <= k <= ts.len(),
                    rest@ == t@.subrange(6, k as int),
                decreases ts.len() - k,
            {
                rest.push(ts[k]);
                k += 1;
                assert(rest@ =~= t@.subrange(6, k as int));
            }
            assert(rest@ =~= t@.skip(6));
            let ws = crate::text::words_exec(rest.as_slice());
            if ws.len() > 0 {
                assert(crate::text::deep(ws@)[0] == ws@[0]@);
                let mut v: Vec<char> = Vec::new();
                v.push('.');
                v.push('/');
                let w = &ws[0];
                let mut q: usize = 0;
                while q < w.len()
                    invariant
                        q <= w@.len(),
                        v@ == "./"@ + dots_to_slashes(w@.take(q as int)),
                    decreases w@.len() - q,
                {
                    v.push(if w[q] == '.' { '/' } else { w[q] });
                    q += 1;
                    assert(v@ =~= "./"@ + dots_to_slashes(w@.take(q as int)));
                }
                assert(w@.take(w@.len() as int) =~= w@);
                return Some(crate::text::string_of(v.as_slice()));
            }
        }
        return None;
    }
    None
}

/// The relative modules a source's import lines name, in order; `ext` is
/// the importing file's extension.
pub fn source_imports(source: &str, ext: Option<&str>) -> (r: Vec<String>)
    ensures
        views(r@) == import_specs(lines(source@), match ext {
            Some(e) => Some(e@),
            None => None,
        }),
{
    let ghost e = match ext {
        Some(e) => Some(e@),
        None => None,
    };
    let c = crate::text::chars_of(source);
    let ls = crate::text::lines_exec(c.as_slice());
    let ghost lv = crate::text::deep(ls@);
    let mut out: Vec<String> = Vec::new();
    let mut i: usize = 0;
    assert(lv.take(0) =~= Seq::<Seq<char>>::empty());
    assert(views(out@) =~= Seq::<Seq<char>>::empty());
    while i < ls.len()
        invariant
            i <= ls.len(),
            lv == crate::text::deep(ls@),
            lv == lines(source@),
            e == match ext {
                Some(x) => Some(x@),
                None => None,
            },
            views(out@) == import_specs(lv.take(i as int), e),
        decreases ls.len() - i,
    {
        assert(lv.take(i + 1).drop_last() =~= lv.take(i as int));
        assert(lv.take(i + 1).last() == ls@[i as int]@);
        let line = crate::text::string_of(ls[i].as_slice());
        assert(line@ == lv[i as int]);
        let ghost before = out@;
        let found = import_spec_exec(line.as_str(), ext);
        match found {
            Some(v) => {
                let ghost vv = v@;
                out.push(v);
                assert(views(out@) =~= views(before).push(vv));
            },
            None => {},
        }
        i += 1;
    }
    assert(lv.take(ls.len() as int) =~= lv);
    out
}

} // verus!
