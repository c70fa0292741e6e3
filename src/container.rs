//! The graph accumulated by a scan, and its filtered export.
use vstd::prelude::*;
use crate::dot::export_text;
use crate::pattern::{any_matches, matches_any, pattern_texts, GlobPattern};

verus! {

/// An import edge as text: (importing file, imported file).
pub type EdgeText = (Seq<char>, Seq<char>);

/// The texts of a list of strings.
pub open spec fn texts(s: Seq<String>) -> Seq<Seq<char>> {
    s.map_values(|x: String| x@)
}

/// The texts of a list of edges.
pub open spec fn edge_texts(s: Seq<(String, String)>) -> Seq<EdgeText> {
    s.map_values(|e: (String, String)| (e.0@, e.1@))
}

/// The texts of an optional list of patterns.
pub open spec fn inclusion_texts(inclusions: Option<Vec<GlobPattern>>) -> Option<Seq<Seq<char>>> {
    match inclusions {
        Some(v) => Some(pattern_texts(v@)),
        None => None,
    }
}

/// Whether a path survives the inclusion patterns: all do where none are
/// configured (no list, or an empty one), else those that match at least one.
pub open spec fn shown(inclusions: Option<Seq<Seq<char>>>, path: Seq<char>) -> bool {
    match inclusions {
        Some(pats) => pats.len() == 0 || matches_any(pats, path),
        None => true,
    }
}

/// `shown` as a predicate on nodes.
pub open spec fn node_shown(inclusions: Option<Seq<Seq<char>>>) -> spec_fn(Seq<char>) -> bool {
    |n: Seq<char>| shown(inclusions, n)
}

/// Whether both ends of an edge are shown.
pub open spec fn edge_shown(inclusions: Option<Seq<Seq<char>>>) -> spec_fn(EdgeText) -> bool {
    |e: EdgeText| shown(inclusions, e.0) && shown(inclusions, e.1)
}

/// The nodes that an export shows, in discovery order.
pub open spec fn shown_nodes(nodes: Seq<Seq<char>>, inclusions: Option<Seq<Seq<char>>>) -> Seq<Seq<char>> {
    nodes.filter(node_shown(inclusions))
}

/// The edges that an export shows: those whose two ends are shown.
pub open spec fn shown_edges(edges: Seq<EdgeText>, inclusions: Option<Seq<Seq<char>>>) -> Seq<EdgeText> {
    edges.filter(edge_shown(inclusions))
}

/// Files and import edges found by one scan, with the inclusion patterns
/// that its export applies.
pub struct Container {
    nodes: Vec<String>,
    edges: Vec<(String, String)>,
    inclusions: Option<Vec<GlobPattern>>,
}

/// What a container holds, as text.
pub struct ContainerView {
    /// The files visited, in the order of their first visit.
    pub nodes: Seq<Seq<char>>,
    /// The import edges, in the order found; one per import statement.
    pub edges: Seq<EdgeText>,
    /// The inclusion patterns, if any.
    pub inclusions: Option<Seq<Seq<char>>>,
}

impl View for Container {
    type V = ContainerView;

    closed spec fn view(&self) -> ContainerView {
        ContainerView {
            nodes: texts(self.nodes@),
            edges: edge_texts(self.edges@),
            inclusions: inclusion_texts(self.inclusions),
        }
    }
}

/// A container's graph after the inclusion patterns are applied.
pub struct ExportGraph {
    nodes: Vec<String>,
    edges: Vec<(String, String)>,
}

impl View for ExportGraph {
    type V = (Seq<Seq<char>>, Seq<EdgeText>);

    closed spec fn view(&self) -> (Seq<Seq<char>>, Seq<EdgeText>) {
        (texts(self.nodes@), edge_texts(self.edges@))
    }
}

impl ExportGraph {
    /// The nodes, in discovery order.
    pub fn nodes(&self) -> (r: &Vec<String>)
        ensures
            texts(r@) == self@.0,
    {
        &self.nodes
    }

    /// The edges, in discovery order.
    pub fn edges(&self) -> (r: &Vec<(String, String)>)
        ensures
            edge_texts(r@) == self@.1,
    {
        &self.edges
    }

    /// The position of the first node named `path`, if there is one.
    pub fn position_of(&self, path: &String) -> (r: Option<usize>)
        ensures
            r matches Some(i) ==> i < self@.0.len() && self@.0[i as int] == path@
                && forall|j: int| 0 <= j < i ==> self@.0[j] != path@,
            r is None ==> !self@.0.contains(path@),
            r matches Some(i) ==> self@.0.index_of_first(path@) == Some(i as int),
            r is None ==> self@.0.index_of_first(path@) is None,
    {
        let mut i: usize = 0;
        while i < self.nodes.len()
            invariant
                i <= self.nodes.len(),
                forall|j: int| 0 <= j < i ==> self@.0[j] != path@,
            decreases self.nodes.len() - i,
        {
            if self.nodes[i] == *path {
                proof {
                    self@.0.index_of_first_ensures(path@);
                    assert(self@.0[i as int] == path@);
                    assert(self@.0.contains(path@));
                    let k = self@.0.index_of_first(path@)->0;
                    assert(!(k < i));
                    assert(!(i < k));
                }
                return Some(i);
            }
            i = i + 1;
        }
        proof {
            self@.0.index_of_first_ensures(path@);
        }
        None
    }
}

impl Container {
    /// An empty container whose export applies `inclusions`.
    pub fn new(inclusions: Option<Vec<GlobPattern>>) -> (r: Container)
        ensures
            r@.nodes == Seq::<Seq<char>>::empty(),
            r@.edges == Seq::<EdgeText>::empty(),
            r@.inclusions == inclusion_texts(inclusions),
    {
        let r = Container { nodes: Vec::new(), edges: Vec::new(), inclusions };
        assert(r@.nodes =~= Seq::<Seq<char>>::empty());
        assert(r@.edges =~= Seq::<EdgeText>::empty());
        r
    }

    /// The files visited, in the order of their first visit.
    pub fn nodes(&self) -> (r: &Vec<String>)
        ensures
            texts(r@) == self@.nodes,
    {
        &self.nodes
    }

    /// The import edges, in the order found.
    pub fn edges(&self) -> (r: &Vec<(String, String)>)
        ensures
            edge_texts(r@) == self@.edges,
    {
        &self.edges
    }

    /// Adds a visited file.
    pub(crate) fn record_node(&mut self, path: String)
        ensures
            final(self)@ == (ContainerView { nodes: old(self)@.nodes.push(path@), ..old(self)@ }),
    {
        self.nodes.push(path);
        assert(self@.nodes =~= old(self)@.nodes.push(path@));
    }

    /// Adds an import edge.
    pub(crate) fn record_edge(&mut self, source: String, target: String)
        ensures
            final(self)@ == (ContainerView {
                edges: old(self)@.edges.push((source@, target@)),
                ..old(self)@
            }),
    {
        self.edges.push((source, target));
        assert(self@.edges =~= old(self)@.edges.push((source@, target@)));
    }

    /// Whether `path` was visited.
    pub fn contains_node(&self, path: &String) -> (r: bool)
        ensures
            r == self@.nodes.contains(path@),
    {
        let mut i: usize = 0;
        while i < self.nodes.len()
            invariant
                i <= self.nodes.len(),
                forall|j: int| 0 <= j < i ==> self@.nodes[j] != path@,
            decreases self.nodes.len() - i,
        {
            if self.nodes[i] == *path {
                assert(self@.nodes[i as int] == path@);
                return true;
            }
            i = i + 1;
        }
        false
    }

    /// Whether `path` survives this container's inclusion patterns.
    pub fn is_shown(&self, path: &String) -> (r: bool)
        ensures
            r == shown(self@.inclusions, path@),
    {
        match &self.inclusions {
            Some(pats) => pats.len() == 0 || any_matches(pats, path.as_str()),
            None => true,
        }
    }

    /// The graph that an export shows: the nodes that survive the inclusion
    /// patterns and the edges whose two ends do, in discovery order.
    pub fn materialize(&self) -> (g: ExportGraph)
        ensures
            g@.0 == shown_nodes(self@.nodes, self@.inclusions),
            g@.1 == shown_edges(self@.edges, self@.inclusions),
    {
        let ghost inc = self@.inclusions;
        let mut nodes: Vec<String> = Vec::new();
        let mut i: usize = 0;
        while i < self.nodes.len()
            invariant
                i <= self.nodes.len(),
                inc == self@.inclusions,
                texts(nodes@) == self@.nodes.subrange(0, i as int).filter(node_shown(inc)),
            decreases self.nodes.len() - i,
        {
            let ghost before = nodes@;
            if self.is_shown(&self.nodes[i]) {
                nodes.push(self.nodes[i].clone());
                assert(texts(nodes@) =~= texts(before).push(self@.nodes[i as int]));
            }
            proof {
                let s = self@.nodes;
                assert(s.subrange(0, i + 1) =~= s.subrange(0, i as int).push(s[i as int]));
                s.subrange(0, i as int).lemma_filter_push(s[i as int], node_shown(inc));
            }
            i = i + 1;
        }
        let mut edges: Vec<(String, String)> = Vec::new();
        let mut k: usize = 0;
        while k < self.edges.len()
            invariant
                k <= self.edges.len(),
                inc == self@.inclusions,
                edge_texts(edges@) == self@.edges.subrange(0, k as int).filter(edge_shown(inc)),
            decreases self.edges.len() - k,
        {
            let ghost before = edges@;
            let e = &self.edges[k];
            if self.is_shown(&e.0) && self.is_shown(&e.1) {
                edges.push((e.0.clone(), e.1.clone()));
                assert(edge_texts(edges@) =~= edge_texts(before).push(self@.edges[k as int]));
            }
            proof {
                let s = self@.edges;
                assert(s.subrange(0, k + 1) =~= s.subrange(0, k as int).push(s[k as int]));
                s.subrange(0, k as int).lemma_filter_push(s[k as int], edge_shown(inc));
            }
            k = k + 1;
        }
        assert(self@.nodes.subrange(0, self.nodes.len() as int) =~= self@.nodes);
        assert(self@.edges.subrange(0, self.edges.len() as int) =~= self@.edges);
        ExportGraph { nodes, edges }
    }

    /// The export as text in graphviz's DOT language: a directed graph named
    /// `main` with one record-shaped node statement per shown node, then one
    /// edge statement per shown edge, in discovery order, each path quoted
    /// and escaped.
    pub fn print_graphviz(&self) -> (r: String)
        requires
            self@.nodes.len() + self@.edges.len() <= usize::MAX,
        ensures
            r@ == export_text(
                shown_nodes(self@.nodes, self@.inclusions),
                shown_edges(self@.edges, self@.inclusions),
            ),
    {
        proof {
            self@.nodes.lemma_filter_len(node_shown(self@.inclusions));
            self@.edges.lemma_filter_len(edge_shown(self@.inclusions));
        }
        let g = self.materialize();
        crate::dot::dot_text(&g.nodes, &g.edges)
    }
}

} // verus!
