//! The export as a petgraph `StableGraph`, the form graph viewers take.
use vstd::prelude::*;
use petgraph::stable_graph::{NodeIndex, StableGraph};
use petgraph::Directed;
use crate::container::{edge_shown, node_shown, shown_edges, shown_nodes, Container, EdgeText};

verus! {

#[verifier::external_type_specification]
#[verifier::external_body]
#[verifier::reject_recursive_types(N)]
#[verifier::reject_recursive_types(E)]
#[verifier::reject_recursive_types(Ty)]
#[verifier::reject_recursive_types(Ix)]
pub struct ExStableGraph<N, E, Ty, Ix>(StableGraph<N, E, Ty, Ix>);

#[verifier::external_type_specification]
#[verifier::external_body]
pub struct ExDirected(Directed);

/// A directed petgraph graph of path names, with `u32` indices.
pub type PathGraph = StableGraph<String, (), Directed, u32>;

/// The node weights of a graph, by node index.
pub uninterp spec fn graph_weights(g: PathGraph) -> Seq<Seq<char>>;

/// The edges of a graph, by edge index, as (source, target) node indices.
pub uninterp spec fn graph_links(g: PathGraph) -> Seq<(int, int)>;

/// Whether a removal has left a vacant node or edge slot in the graph.
pub uninterp spec fn graph_has_vacancy(g: PathGraph) -> bool;

/// Relies on `StableGraph::new`: an empty graph, with no vacant slot.
#[verifier::external_body]
fn graph_new() -> (r: PathGraph)
    ensures
        graph_weights(r) == Seq::<Seq<char>>::empty(),
        graph_links(r) == Seq::<(int, int)>::empty(),
        !graph_has_vacancy(r),
{
    StableGraph::new()
}

/// Relies on `StableGraph::add_node`: with no vacant slot the node goes at
/// the end, its index is the former node count, and the call panics only
/// when that index would be `u32::MAX`.
#[verifier::external_body]
fn graph_add_node(g: &mut PathGraph, weight: String) -> (r: usize)
    requires
        !graph_has_vacancy(*old(g)),
        graph_weights(*old(g)).len() < u32::MAX,
    ensures
        graph_weights(*final(g)) == graph_weights(*old(g)).push(weight@),
        graph_links(*final(g)) == graph_links(*old(g)),
        !graph_has_vacancy(*final(g)),
        r == graph_weights(*old(g)).len(),
{
    g.add_node(weight).index()
}

/// Relies on `StableGraph::add_edge`: with no vacant slot the edge goes at
/// the end; the call panics only when an end is not a node or the new index
/// would be `u32::MAX`.
#[verifier::external_body]
fn graph_add_edge(g: &mut PathGraph, source: usize, target: usize)
    requires
        !graph_has_vacancy(*old(g)),
        source < graph_weights(*old(g)).len(),
        target < graph_weights(*old(g)).len(),
        graph_links(*old(g)).len() < u32::MAX,
    ensures
        graph_weights(*final(g)) == graph_weights(*old(g)),
        graph_links(*final(g)) == graph_links(*old(g)).push((source as int, target as int)),
        !graph_has_vacancy(*final(g)),
{
    g.add_edge(NodeIndex::new(source), NodeIndex::new(target), ());
}

/// The edges as pairs of node positions: each end is the position of the
/// first node of that name; an edge with an end that is no node is left out.
pub open spec fn links(nodes: Seq<Seq<char>>, edges: Seq<EdgeText>) -> Seq<(int, int)>
    decreases edges.len(),
{
    if edges.len() == 0 {
        Seq::empty()
    } else {
        let rest = links(nodes, edges.drop_last());
        let e = edges.last();
        match (nodes.index_of_first(e.0), nodes.index_of_first(e.1)) {
            (Some(s), Some(t)) => rest.push((s, t)),
            _ => rest,
        }
    }
}

impl Container {
    /// The export as a petgraph graph: the shown nodes in discovery order,
    /// then the shown edges between them.
    pub fn build_petgraph(&self) -> (r: PathGraph)
        requires
            self@.nodes.len() < u32::MAX,
            self@.edges.len() < u32::MAX,
        ensures
            graph_weights(r) == shown_nodes(self@.nodes, self@.inclusions),
            graph_links(r) == links(
                shown_nodes(self@.nodes, self@.inclusions),
                shown_edges(self@.edges, self@.inclusions),
            ),
            !graph_has_vacancy(r),
    {
        proof {
            self@.nodes.lemma_filter_len(node_shown(self@.inclusions));
            self@.edges.lemma_filter_len(edge_shown(self@.inclusions));
        }
        let export = self.materialize();
        let nodes = export.nodes();
        let edges = export.edges();
        let ghost nv = export@.0;
        let ghost ev = export@.1;
        let mut g = graph_new();
        let mut i: usize = 0;
        while i < nodes.len()
            invariant
                i <= nodes.len(),
                nodes.len() < u32::MAX,
                crate::container::texts(nodes@) == nv,
                graph_weights(g) == nv.subrange(0, i as int),
                graph_links(g) == Seq::<(int, int)>::empty(),
                !graph_has_vacancy(g),
            decreases nodes.len() - i,
        {
            graph_add_node(&mut g, nodes[i].clone());
            assert(nv.subrange(0, i + 1) =~= nv.subrange(0, i as int).push(nv[i as int]));
            i = i + 1;
        }
        assert(nv.subrange(0, nodes.len() as int) =~= nv);
        let mut k: usize = 0;
        assert(ev.subrange(0, 0) =~= Seq::<EdgeText>::empty());
        while k < edges.len()
            invariant
                k <= edges.len(),
                edges.len() < u32::MAX,
                crate::container::edge_texts(edges@) == ev,
                graph_weights(g) == nv,
                nv == export@.0,
                ev == export@.1,
                graph_links(g) == links(nv, ev.subrange(0, k as int)),
                graph_links(g).len() <= k,
                !graph_has_vacancy(g),
            decreases edges.len() - k,
        {
            assert(ev.subrange(0, k + 1).drop_last() =~= ev.subrange(0, k as int));
            let s = export.position_of(&edges[k].0);
            let t = export.position_of(&edges[k].1);
            proof {
                assert(ev[k as int] == ev.subrange(0, k + 1).last());
            }
            match (s, t) {
                (Some(s), Some(t)) => {
                    graph_add_edge(&mut g, s, t);
                },
                _ => {},
            }
            k = k + 1;
        }
        assert(ev.subrange(0, edges.len() as int) =~= ev);
        g
    }
}

} // verus!
