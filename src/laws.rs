//! What holds of every scan and every export.
use vstd::prelude::*;
use crate::dot::export_text;
use crate::container::{edge_shown, node_shown, shown_edges, shown_nodes, Container, EdgeText};
use crate::pattern::matches_any;
use crate::scanner::{
    advance, edge_ok, frame_ok, kept, lemma_kept_not_excluded, started, top_left, visited, walk_wf,
    ScanState, WalkView,
};

verus! {

/// Advancing a walk keeps the visited files and the patterns.
pub proof fn lemma_advance_keeps(w: WalkView)
    ensures
        advance(w).nodes == w.nodes,
        advance(w).exclusions == w.exclusions,
        advance(w).inclusions == w.inclusions,
    decreases w.stack.len(), top_left(w),
{
    if w.stack.len() > 0 {
        let top = w.stack.last();
        if top.1.len() == 0 {
            lemma_advance_keeps(WalkView { stack: w.stack.drop_last(), ..w });
        } else {
            let t = top.1[0];
            let w2 = WalkView {
                edges: w.edges.push((top.0, t)),
                stack: w.stack.update(w.stack.len() - 1, (top.0, top.1.drop_first())),
                ..w
            };
            if w.nodes.contains(t) {
                lemma_advance_keeps(w2);
            }
        }
    }
}

/// The inclusion patterns play no part in advancing a walk.
pub proof fn lemma_advance_ignores_inclusions(w: WalkView, inclusions: Option<Seq<Seq<char>>>)
    ensures
        advance(WalkView { inclusions, ..w }) == (WalkView { inclusions, ..advance(w) }),
    decreases w.stack.len(), top_left(w),
{
    if w.stack.len() > 0 {
        let top = w.stack.last();
        if top.1.len() == 0 {
            lemma_advance_ignores_inclusions(WalkView { stack: w.stack.drop_last(), ..w }, inclusions);
        } else {
            let t = top.1[0];
            let w2 = WalkView {
                edges: w.edges.push((top.0, t)),
                stack: w.stack.update(w.stack.len() - 1, (top.0, top.1.drop_first())),
                ..w
            };
            if w.nodes.contains(t) {
                lemma_advance_ignores_inclusions(w2, inclusions);
            }
        }
    }
}

/// Termination: each report on a pending file visits exactly that file, and
/// a walk never visits more files than the project holds. So a scan of a
/// project with finitely many files, cyclic imports or not, completes after
/// at most that many reports.
pub proof fn lemma_scan_terminates(w: WalkView, imports: Seq<Option<Seq<char>>>, files: Set<Seq<char>>)
    requires
        walk_wf(w),
        files.finite(),
        forall|i: int| 0 <= i < w.nodes.len() ==> files.contains(#[trigger] w.nodes[i]),
    ensures
        w.nodes.len() <= files.len(),
        w.pending matches Some(p) ==> visited(w, imports).nodes == w.nodes.push(p),
{
    w.nodes.unique_seq_to_set();
    assert(w.nodes.to_set().subset_of(files));
    vstd::set_lib::lemma_len_subset(w.nodes.to_set(), files);
    if let Some(p) = w.pending {
        lemma_advance_keeps(WalkView {
            nodes: w.nodes.push(p),
            stack: w.stack.push((p, kept(imports, w.exclusions))),
            pending: None,
            ..w
        });
    }
}

/// A scan visits no file twice.
pub proof fn lemma_nodes_unique(s: &ScanState)
    requires
        s.wf(),
    ensures
        s@.nodes.no_duplicates(),
{
    s.lemma_wf_walk();
}

/// Exclusion blocks descent: a file that matches an exclusion pattern, other
/// than the entry, is never visited, and no edge starts or ends at it.
pub proof fn lemma_excluded_never_entered(s: &ScanState, p: Seq<char>)
    requires
        s.wf(),
        matches_any(s@.exclusions, p),
        s@.nodes.len() > 0,
        p != s@.nodes[0],
    ensures
        !s@.nodes.contains(p),
        forall|i: int| 0 <= i < s@.edges.len() ==> (#[trigger] s@.edges[i]).0 != p && s@.edges[i].1 != p,
{
    s.lemma_wf_walk();
    let w = s@;
    if w.nodes.contains(p) {
        let k = choose|k: int| 0 <= k < w.nodes.len() && w.nodes[k] == p;
        assert(!matches_any(w.exclusions, w.nodes[k]));
    }
    assert forall|i: int| 0 <= i < w.edges.len() implies (#[trigger] w.edges[i]).0 != p && w.edges[i].1 != p by {
        assert(crate::scanner::edge_ok(w, w.edges[i]));
    }
}

/// Two files that import each other: the scan from the first completes after
/// two reports, with both files visited and one edge each way.
pub proof fn lemma_mutual_imports(
    a: Seq<char>,
    b: Seq<char>,
    exclusions: Seq<Seq<char>>,
    inclusions: Option<Seq<Seq<char>>>,
)
    requires
        a != b,
        !matches_any(exclusions, a),
        !matches_any(exclusions, b),
    ensures
        ({
            let s1 = visited(started(a, exclusions, inclusions), seq![Some(b)]);
            let s2 = visited(s1, seq![Some(a)]);
            &&& s1.pending == Some(b)
            &&& s2.pending is None
            &&& s2.nodes == seq![a, b]
            &&& s2.edges == seq![(a, b), (b, a)]
        }),
{
    reveal_with_fuel(kept, 2);
    reveal_with_fuel(advance, 5);
    let s0 = started(a, exclusions, inclusions);
    assert(seq![Some(b)].drop_last() =~= Seq::<Option<Seq<char>>>::empty());
    assert(seq![Some(a)].drop_last() =~= Seq::<Option<Seq<char>>>::empty());
    assert(kept(seq![Some(b)], exclusions) =~= seq![b]);
    assert(kept(seq![Some(a)], exclusions) =~= seq![a]);
    assert(!seq![a].contains(b));
    let s1 = visited(s0, seq![Some(b)]);
    assert(s1.nodes =~= seq![a]);
    assert(s1.edges =~= seq![(a, b)]);
    let s2 = visited(s1, seq![Some(a)]);
    assert(seq![a, b][0] == a);
    assert(seq![a].push(b) =~= seq![a, b]);
    assert(seq![a, b].contains(a));
    assert(s2.edges =~= seq![(a, b), (b, a)]);
}

/// An import written twice gives two edges: a file that imports the same
/// file twice yields two equal edges, and the imported file is visited once.
pub proof fn lemma_repeated_import(
    a: Seq<char>,
    b: Seq<char>,
    exclusions: Seq<Seq<char>>,
    inclusions: Option<Seq<Seq<char>>>,
)
    requires
        a != b,
        !matches_any(exclusions, b),
    ensures
        ({
            let s1 = visited(started(a, exclusions, inclusions), seq![Some(b), Some(b)]);
            let s2 = visited(s1, Seq::empty());
            &&& s1.pending == Some(b)
            &&& s2.pending is None
            &&& s2.nodes == seq![a, b]
            &&& s2.edges == seq![(a, b), (a, b)]
        }),
{
    reveal_with_fuel(kept, 3);
    reveal_with_fuel(advance, 5);
    let s0 = started(a, exclusions, inclusions);
    assert(seq![Some(b), Some(b)].drop_last() =~= seq![Some(b)]);
    assert(seq![Some(b)].drop_last() =~= Seq::<Option<Seq<char>>>::empty());
    assert(kept(seq![Some(b), Some(b)], exclusions) =~= seq![b, b]);
    assert(kept(Seq::<Option<Seq<char>>>::empty(), exclusions) =~= Seq::<Seq<char>>::empty());
    assert(!seq![a].contains(b));
    let s1 = visited(s0, seq![Some(b), Some(b)]);
    assert(s1.nodes =~= seq![a]);
    assert(s1.edges =~= seq![(a, b)]);
    let s2 = visited(s1, Seq::empty());
    assert(seq![a].push(b) =~= seq![a, b]);
    assert(seq![a, b][1] == b);
    assert(seq![a, b].contains(b));
    assert(s2.edges =~= seq![(a, b), (a, b)]);
}

/// An import that did not resolve is dropped: the targets followed are those
/// of the resolved imports alone.
pub proof fn lemma_unresolved_dropped(imports: Seq<Option<Seq<char>>>, exclusions: Seq<Seq<char>>)
    ensures
        kept(imports, exclusions) == kept(imports.filter(|o: Option<Seq<char>>| o is Some), exclusions),
    decreases imports.len(),
{
    reveal(Seq::filter);
    if imports.len() > 0 {
        lemma_unresolved_dropped(imports.drop_last(), exclusions);
        let f = imports.filter(|o: Option<Seq<char>>| o is Some);
        if imports.last() is Some {
            assert(f.drop_last() == imports.drop_last().filter(|o: Option<Seq<char>>| o is Some));
        }
    }
}

/// A filter whose predicate holds everywhere keeps the whole sequence.
pub proof fn lemma_filter_keeps_all<A>(s: Seq<A>, pred: spec_fn(A) -> bool)
    requires
        forall|x: A| #[trigger] pred(x),
    ensures
        s.filter(pred) == s,
    decreases s.len(),
{
    reveal(Seq::filter);
    if s.len() > 0 {
        lemma_filter_keeps_all(s.drop_last(), pred);
        assert(s.drop_last().push(s.last()) =~= s);
    }
}

/// Inclusion patterns filter the export and nothing else: without them, or
/// with an empty list of them, the export shows every node and edge; with a
/// non-empty list it shows exactly those of that export whose paths match;
/// and a walk proceeds the same with or without them.
pub proof fn lemma_inclusion_filters_export_only(
    nodes: Seq<Seq<char>>,
    edges: Seq<EdgeText>,
    pats: Seq<Seq<char>>,
    w: WalkView,
    imports: Seq<Option<Seq<char>>>,
)
    ensures
        shown_nodes(nodes, None) == nodes,
        shown_edges(edges, None) == edges,
        shown_nodes(nodes, Some(Seq::empty())) == nodes,
        shown_edges(edges, Some(Seq::empty())) == edges,
        pats.len() > 0 ==> shown_nodes(nodes, Some(pats))
            == shown_nodes(nodes, None).filter(|n: Seq<char>| matches_any(pats, n)),
        pats.len() > 0 ==> shown_edges(edges, Some(pats)) == shown_edges(edges, None).filter(
            |e: EdgeText| matches_any(pats, e.0) && matches_any(pats, e.1),
        ),
        visited(WalkView { inclusions: Some(pats), ..w }, imports)
            == (WalkView { inclusions: Some(pats), ..visited(WalkView { inclusions: None, ..w }, imports) }),
{
    lemma_filter_keeps_all(nodes, node_shown(None));
    lemma_filter_keeps_all(edges, edge_shown(None));
    lemma_filter_keeps_all(nodes, node_shown(Some(Seq::empty())));
    lemma_filter_keeps_all(edges, edge_shown(Some(Seq::empty())));
    if pats.len() > 0 {
        assert(node_shown(Some(pats)) =~= (|n: Seq<char>| matches_any(pats, n)));
        assert(edge_shown(Some(pats)) =~= (|e: EdgeText| matches_any(pats, e.0) && matches_any(pats, e.1)));
    }
    let base = WalkView { inclusions: None, ..w };
    if let Some(p) = w.pending {
        lemma_advance_ignores_inclusions(
            WalkView {
                nodes: w.nodes.push(p),
                stack: w.stack.push((p, kept(imports, w.exclusions))),
                pending: None,
                ..base
            },
            Some(pats),
        );
    }
}

/// Determinism of the walk: equal walks given equal reports stay equal.
pub proof fn lemma_walk_deterministic(
    w1: WalkView,
    w2: WalkView,
    imports1: Seq<Option<Seq<char>>>,
    imports2: Seq<Option<Seq<char>>>,
)
    requires
        w1 == w2,
        imports1 == imports2,
    ensures
        visited(w1, imports1) == visited(w2, imports2),
{
}

/// Determinism of the export: containers that hold the same graph and
/// patterns give the same text.
pub proof fn lemma_export_deterministic(c1: &Container, c2: &Container)
    requires
        c1@ == c2@,
    ensures
        export_text(shown_nodes(c1@.nodes, c1@.inclusions), shown_edges(c1@.edges, c1@.inclusions))
            == export_text(shown_nodes(c2@.nodes, c2@.inclusions), shown_edges(c2@.edges, c2@.inclusions)),
{
}

/// The walk after at most `n` reports, each file's imports taken from
/// `project` (a file missing from it has none), stopping once complete.
pub open spec fn run(w: WalkView, project: Map<Seq<char>, Seq<Option<Seq<char>>>>, n: nat) -> WalkView
    decreases n,
{
    if n == 0 {
        w
    } else {
        match w.pending {
            Some(p) => run(
                visited(w, if project.contains_key(p) { project[p] } else { Seq::empty() }),
                project,
                (n - 1) as nat,
            ),
            None => w,
        }
    }
}

/// The inclusion patterns play no part in one report.
pub proof fn lemma_visited_ignores_inclusions(
    w: WalkView,
    imports: Seq<Option<Seq<char>>>,
    inclusions: Option<Seq<Seq<char>>>,
)
    ensures
        visited(WalkView { inclusions, ..w }, imports) == (WalkView { inclusions, ..visited(w, imports) }),
{
    if let Some(p) = w.pending {
        lemma_advance_ignores_inclusions(
            WalkView {
                nodes: w.nodes.push(p),
                stack: w.stack.push((p, kept(imports, w.exclusions))),
                pending: None,
                ..w
            },
            inclusions,
        );
    }
}

/// Inclusion patterns do not steer a whole scan: over any project and any
/// number of reports, the scan with inclusion patterns visits the same files
/// and records the same edges, in the same order, as the scan without.
pub proof fn lemma_scan_ignores_inclusions(
    w: WalkView,
    project: Map<Seq<char>, Seq<Option<Seq<char>>>>,
    n: nat,
    inclusions: Option<Seq<Seq<char>>>,
)
    ensures
        run(WalkView { inclusions, ..w }, project, n) == (WalkView { inclusions, ..run(w, project, n) }),
    decreases n,
{
    if n > 0 {
        if let Some(p) = w.pending {
            let imports = if project.contains_key(p) { project[p] } else { Seq::<Option<Seq<char>>>::empty() };
            lemma_visited_ignores_inclusions(w, imports, inclusions);
            lemma_scan_ignores_inclusions(visited(w, imports), project, (n - 1) as nat, inclusions);
        }
    }
}

/// Determinism of a whole scan: two scans of the same project from the same
/// entry with the same patterns reach the same walk after the same number of
/// reports, and so export the same text.
pub proof fn lemma_scan_deterministic(
    entry: Seq<char>,
    exclusions: Seq<Seq<char>>,
    inclusions: Option<Seq<Seq<char>>>,
    project1: Map<Seq<char>, Seq<Option<Seq<char>>>>,
    project2: Map<Seq<char>, Seq<Option<Seq<char>>>>,
    n: nat,
)
    requires
        project1 == project2,
    ensures
        ({
            let r1 = run(started(entry, exclusions, inclusions), project1, n);
            let r2 = run(started(entry, exclusions, inclusions), project2, n);
            &&& r1 == r2
            &&& export_text(shown_nodes(r1.nodes, r1.inclusions), shown_edges(r1.edges, r1.inclusions))
                == export_text(shown_nodes(r2.nodes, r2.inclusions), shown_edges(r2.edges, r2.inclusions))
        }),
{
}

/// Advancing keeps the walk invariant.
pub proof fn lemma_advance_wf(w: WalkView)
    requires
        walk_wf(w),
        w.pending is None,
    ensures
        walk_wf(advance(w)),
    decreases w.stack.len(), top_left(w),
{
    if w.stack.len() > 0 {
        let top = w.stack.last();
        if top.1.len() == 0 {
            let w1 = WalkView { stack: w.stack.drop_last(), ..w };
            assert forall|i: int| 0 <= i < w1.stack.len() implies frame_ok(w1, #[trigger] w1.stack[i]) by {
                assert(w1.stack[i] == w.stack[i]);
                assert(frame_ok(w, w.stack[i]));
            }
            assert forall|i: int| 0 <= i < w1.edges.len() implies edge_ok(w1, #[trigger] w1.edges[i]) by {
                assert(edge_ok(w, w.edges[i]));
            }
            lemma_advance_wf(w1);
        } else {
            let t = top.1[0];
            let w2 = WalkView {
                edges: w.edges.push((top.0, t)),
                stack: w.stack.update(w.stack.len() - 1, (top.0, top.1.drop_first())),
                ..w
            };
            assert(frame_ok(w, w.stack[w.stack.len() - 1]));
            assert(!matches_any(w.exclusions, top.1[0]));
            let w3 = if w.nodes.contains(t) { w2 } else { WalkView { pending: Some(t), ..w2 } };
            assert forall|i: int| 0 <= i < w3.stack.len() implies frame_ok(w3, #[trigger] w3.stack[i]) by {
                if i < w3.stack.len() - 1 {
                    assert(w3.stack[i] == w.stack[i]);
                    assert(frame_ok(w, w.stack[i]));
                } else {
                    assert forall|j: int| 0 <= j < w3.stack[i].1.len() implies !matches_any(w.exclusions, #[trigger] w3.stack[i].1[j]) by {
                        assert(w3.stack[i].1[j] == top.1[j + 1]);
                    }
                }
            }
            assert forall|i: int| 0 <= i < w3.edges.len() implies edge_ok(w3, #[trigger] w3.edges[i]) by {
                if i < w.edges.len() {
                    assert(w3.edges[i] == w.edges[i]);
                    assert(edge_ok(w, w.edges[i]));
                }
            }
            assert(walk_wf(w3));
            if w.nodes.contains(t) {
                lemma_advance_wf(w2);
            }
        }
    }
}

/// Each report keeps the walk invariant.
pub proof fn lemma_visited_wf(w: WalkView, imports: Seq<Option<Seq<char>>>)
    requires
        walk_wf(w),
    ensures
        walk_wf(visited(w, imports)),
{
    if let Some(p) = w.pending {
        lemma_kept_not_excluded(imports, w.exclusions);
        let nodes = w.nodes.push(p);
        let w1 = WalkView {
            nodes,
            stack: w.stack.push((p, kept(imports, w.exclusions))),
            pending: None,
            ..w
        };
        assert forall|x: Seq<char>| w.nodes.contains(x) implies nodes.contains(x) by {
            let k = choose|k: int| 0 <= k < w.nodes.len() && w.nodes[k] == x;
            assert(nodes[k] == x);
        }
        assert(nodes[w.nodes.len() as int] == p);
        assert forall|i: int| 0 < i < nodes.len() implies !matches_any(w.exclusions, #[trigger] nodes[i]) by {
            if i < w.nodes.len() {
                assert(nodes[i] == w.nodes[i]);
            }
        }
        assert forall|i: int| 0 <= i < w1.edges.len() implies edge_ok(w1, #[trigger] w1.edges[i]) by {
            assert(edge_ok(w, w.edges[i]));
        }
        assert forall|i: int| 0 <= i < w1.stack.len() implies frame_ok(w1, #[trigger] w1.stack[i]) by {
            if i < w.stack.len() {
                assert(frame_ok(w, w.stack[i]));
            }
        }
        lemma_advance_wf(w1);
    }
}

/// A whole scan keeps the walk invariant: from the start, after any number
/// of reports, no file is visited twice, and no file other than the entry
/// that matches an exclusion pattern is visited or has an edge to or from it.
pub proof fn lemma_scan_wf(
    entry: Seq<char>,
    exclusions: Seq<Seq<char>>,
    inclusions: Option<Seq<Seq<char>>>,
    project: Map<Seq<char>, Seq<Option<Seq<char>>>>,
    n: nat,
    p: Seq<char>,
)
    ensures
        ({
            let r = run(started(entry, exclusions, inclusions), project, n);
            &&& walk_wf(r)
            &&& r.nodes.no_duplicates()
            &&& (matches_any(exclusions, p) && p != entry ==> {
                &&& !r.nodes.contains(p)
                &&& forall|i: int| 0 <= i < r.edges.len() ==> (#[trigger] r.edges[i]).0 != p && r.edges[i].1 != p
            })
        }),
{
    let s = started(entry, exclusions, inclusions);
    lemma_run_wf(s, project, n);
    lemma_run_keeps_start(s, project, n);
    let r = run(s, project, n);
    if matches_any(exclusions, p) && p != entry {
        if r.nodes.contains(p) {
            let k = choose|k: int| 0 <= k < r.nodes.len() && r.nodes[k] == p;
            assert(!matches_any(r.exclusions, r.nodes[k]));
        }
        assert forall|i: int| 0 <= i < r.edges.len() implies (#[trigger] r.edges[i]).0 != p && r.edges[i].1 != p by {
            assert(edge_ok(r, r.edges[i]));
        }
    }
}

/// Reports keep the walk invariant.
pub proof fn lemma_run_wf(w: WalkView, project: Map<Seq<char>, Seq<Option<Seq<char>>>>, n: nat)
    requires
        walk_wf(w),
    ensures
        walk_wf(run(w, project, n)),
    decreases n,
{
    if n > 0 {
        if let Some(p) = w.pending {
            let imports = if project.contains_key(p) { project[p] } else { Seq::<Option<Seq<char>>>::empty() };
            lemma_visited_wf(w, imports);
            lemma_run_wf(visited(w, imports), project, (n - 1) as nat);
        }
    }
}

/// Reports keep the exclusion patterns, and the first file visited is the
/// one pending at the start.
pub proof fn lemma_run_keeps_start(w: WalkView, project: Map<Seq<char>, Seq<Option<Seq<char>>>>, n: nat)
    ensures
        run(w, project, n).exclusions == w.exclusions,
        w.nodes.len() > 0 ==> run(w, project, n).nodes.len() > 0 && run(w, project, n).nodes[0] == w.nodes[0],
        w.nodes.len() == 0 && w.pending is Some ==> run(w, project, n).nodes.len() == 0
            || run(w, project, n).nodes[0] == w.pending->0,
    decreases n,
{
    if n > 0 {
        if let Some(p) = w.pending {
            let imports = if project.contains_key(p) { project[p] } else { Seq::<Option<Seq<char>>>::empty() };
            let w1 = WalkView {
                nodes: w.nodes.push(p),
                stack: w.stack.push((p, kept(imports, w.exclusions))),
                pending: None,
                ..w
            };
            lemma_advance_keeps(w1);
            lemma_run_keeps_start(visited(w, imports), project, (n - 1) as nat);
        }
    }
}

} // verus!
