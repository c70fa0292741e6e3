//! The export as text in graphviz's DOT language.
use vstd::prelude::*;
use graphviz_rust::dot_structures::{Attribute, Edge, EdgeTy, Graph, Id, Node, NodeId, Stmt, Vertex};
use graphviz_rust::printer::DotPrinter;
use crate::container::EdgeText;

verus! {

/// A statement of a DOT graph, with identifiers as they are to be printed.
pub enum DotStmt {
    /// A node with its attributes, as (name, value) pairs.
    Node { id: String, attrs: Vec<(String, String)> },
    /// A directed edge.
    Edge { source: String, target: String },
}

/// `p` with a backslash put before each `"` and each `\`.
pub open spec fn escaped(p: Seq<char>) -> Seq<char>
    decreases p.len(),
{
    if p.len() == 0 {
        Seq::empty()
    } else {
        let c = p.last();
        let rest = escaped(p.drop_last());
        if c == '"' || c == '\\' {
            rest.push('\\').push(c)
        } else {
            rest.push(c)
        }
    }
}

/// `p` as a quoted DOT identifier, which reads back as `p`.
pub open spec fn quoted(p: Seq<char>) -> Seq<char> {
    seq!['"'] + escaped(p) + seq!['"']
}

/// Attributes as DOT prints them: `name=value`, separated by spaces.
pub open spec fn attrs_text(attrs: Seq<(String, String)>) -> Seq<char>
    decreases attrs.len(),
{
    if attrs.len() == 0 {
        Seq::empty()
    } else {
        let a = attrs.last();
        let one = a.0@ + "="@ + a.1@;
        if attrs.len() == 1 {
            one
        } else {
            attrs_text(attrs.drop_last()) + " "@ + one
        }
    }
}

/// One statement as a line of the graph's body, indented by two spaces.
pub open spec fn stmt_line(s: DotStmt) -> Seq<char> {
    "  "@ + match s {
        DotStmt::Node { id, attrs } => id@ + if attrs@.len() == 0 {
            Seq::empty()
        } else {
            "["@ + attrs_text(attrs@) + "]"@
        },
        DotStmt::Edge { source, target } => source@ + " -> "@ + target@,
    }
}

/// Lines joined by line breaks.
pub open spec fn join_lines(lines: Seq<Seq<char>>) -> Seq<char>
    decreases lines.len(),
{
    if lines.len() == 0 {
        Seq::empty()
    } else if lines.len() == 1 {
        lines[0]
    } else {
        join_lines(lines.drop_last()) + "\n"@ + lines.last()
    }
}

/// A directed graph named `name` with these body lines.
pub open spec fn document(name: Seq<char>, lines: Seq<Seq<char>>) -> Seq<char> {
    "digraph "@ + name + " {\n"@ + join_lines(lines) + "\n}"@
}

/// The exported text of these nodes and edges: a directed graph named
/// `main`, one record-shaped node per node, then one edge per edge, each
/// path quoted and escaped.
pub open spec fn export_text(nodes: Seq<Seq<char>>, edges: Seq<EdgeText>) -> Seq<char> {
    document(
        "main"@,
        nodes.map_values(|n: Seq<char>| "  "@ + quoted(n) + "[shape=record]"@)
            + edges.map_values(|e: EdgeText| "  "@ + quoted(e.0) + " -> "@ + quoted(e.1)),
    )
}

/// Relies on graphviz_rust's `DotPrinter::print` for a `Graph`, with the
/// default printer context: `digraph <name> {`, then each statement on a line
/// of its own indented by two spaces, then `}`; an identifier prints as
/// given, a node's attributes as `[name=value ...]`, an edge as `a -> b`.
#[verifier::external_body]
fn render_dot(name: &String, stmts: &Vec<DotStmt>) -> (r: String)
    ensures
        r@ == document(name@, stmts@.map_values(|s: DotStmt| stmt_line(s))),
{
    let i = |s: &String| Id::Plain(s.clone());
    let v = |s| Vertex::N(NodeId(i(s), None));
    let stmts = stmts.iter().map(|s| match s {
        DotStmt::Node { id, attrs } => Stmt::Node(Node::new(NodeId(i(id), None),
            attrs.iter().map(|(k, x)| Attribute(i(k), i(x))).collect())),
        DotStmt::Edge { source, target } =>
            Stmt::Edge(Edge { ty: EdgeTy::Pair(v(source), v(target)), attributes: vec![] }),
    }).collect();
    Graph::DiGraph { id: i(name), strict: false, stmts }.print(&mut Default::default())
}

/// `p` as a quoted DOT identifier.
pub fn quote_id(p: &str) -> (r: String)
    ensures
        r@ == quoted(p@),
{
    proof {
        reveal_strlit("\"");
        reveal_strlit("\\");
    }
    let mut r = String::from_str("\"");
    let n = p.unicode_len();
    let mut i: usize = 0;
    assert(p@.subrange(0, 0) =~= Seq::<char>::empty());
    while i < n
        invariant
            i <= n,
            n == p@.len(),
            r@ == seq!['"'] + escaped(p@.subrange(0, i as int)),
        decreases n - i,
    {
        let c = p.get_char(i);
        let ghost before = r@;
        if c == '"' || c == '\\' {
            r.append("\\");
        }
        r.append(p.substring_char(i, i + 1));
        proof {
            reveal_strlit("\\");
            let s = p@.subrange(0, i + 1);
            assert(s.drop_last() =~= p@.subrange(0, i as int));
            assert(s.last() == c);
            assert(p@.subrange(i as int, i + 1) =~= seq![c]);
            if c == '"' || c == '\\' {
                assert(r@ =~= seq!['"'] + escaped(s));
            } else {
                assert(r@ =~= seq!['"'] + escaped(s));
            }
        }
        i = i + 1;
    }
    r.append("\"");
    assert(p@.subrange(0, n as int) =~= p@);
    assert(r@ =~= quoted(p@));
    r
}

/// The statements of a graph with these nodes and edges: one record-shaped
/// node statement per node, in order, then one edge statement per edge, each
/// path quoted and escaped.
pub fn dot_statements(nodes: &Vec<String>, edges: &Vec<(String, String)>) -> (r: Vec<DotStmt>)
    requires
        nodes.len() + edges.len() <= usize::MAX,
    ensures
        r@.len() == nodes.len() + edges.len(),
        forall|i: int| 0 <= i < nodes.len() ==> (#[trigger] r@[i] matches DotStmt::Node { id, attrs }
            && id@ == quoted(nodes@[i]@) && attrs@.len() == 1
            && attrs@[0].0@ == "shape"@ && attrs@[0].1@ == "record"@),
        forall|j: int| 0 <= j < edges.len() ==> (#[trigger] r@[nodes.len() + j] matches DotStmt::Edge { source, target }
            && source@ == quoted(edges@[j].0@) && target@ == quoted(edges@[j].1@)),
{
    let mut r: Vec<DotStmt> = Vec::new();
    let mut i: usize = 0;
    while i < nodes.len()
        invariant
            i <= nodes.len(),
            r@.len() == i,
            forall|k: int| 0 <= k < i ==> (#[trigger] r@[k] matches DotStmt::Node { id, attrs }
                && id@ == quoted(nodes@[k]@) && attrs@.len() == 1
                && attrs@[0].0@ == "shape"@ && attrs@[0].1@ == "record"@),
        decreases nodes.len() - i,
    {
        let attrs = vec![(String::from_str("shape"), String::from_str("record"))];
        r.push(DotStmt::Node { id: quote_id(nodes[i].as_str()), attrs });
        i = i + 1;
    }
    let mut j: usize = 0;
    while j < edges.len()
        invariant
            j <= edges.len(),
            r@.len() == nodes.len() + j,
            nodes.len() + edges.len() <= usize::MAX,
            forall|k: int| 0 <= k < nodes.len() ==> (#[trigger] r@[k] matches DotStmt::Node { id, attrs }
                && id@ == quoted(nodes@[k]@) && attrs@.len() == 1
                && attrs@[0].0@ == "shape"@ && attrs@[0].1@ == "record"@),
            forall|k: int| 0 <= k < j ==> (#[trigger] r@[nodes.len() + k] matches DotStmt::Edge { source, target }
                && source@ == quoted(edges@[k].0@) && target@ == quoted(edges@[k].1@)),
        decreases edges.len() - j,
    {
        let e = &edges[j];
        r.push(DotStmt::Edge { source: quote_id(e.0.as_str()), target: quote_id(e.1.as_str()) });
        proof {
            assert(r@[nodes.len() + j] == r@.last());
        }
        j = j + 1;
    }
    r
}

/// The exported text of these nodes and edges.
pub fn dot_text(nodes: &Vec<String>, edges: &Vec<(String, String)>) -> (r: String)
    requires
        nodes.len() + edges.len() <= usize::MAX,
    ensures
        r@ == export_text(
            nodes@.map_values(|s: String| s@),
            edges@.map_values(|e: (String, String)| (e.0@, e.1@)),
        ),
{
    let stmts = dot_statements(nodes, edges);
    let r = render_dot(&String::from_str("main"), &stmts);
    proof {
        reveal_strlit("[");
        reveal_strlit("]");
        reveal_strlit("=");
        reveal_strlit("shape");
        reveal_strlit("record");
        reveal_strlit("[shape=record]");
        let nv = nodes@.map_values(|s: String| s@);
        let ev = edges@.map_values(|e: (String, String)| (e.0@, e.1@));
        let lines = stmts@.map_values(|s: DotStmt| stmt_line(s));
        let want = nv.map_values(|n: Seq<char>| "  "@ + quoted(n) + "[shape=record]"@)
            + ev.map_values(|e: EdgeText| "  "@ + quoted(e.0) + " -> "@ + quoted(e.1));
        assert forall|i: int| 0 <= i < lines.len() implies lines[i] == want[i] by {
            if i < nodes.len() {
                let s = stmts@[i];
                assert(s matches DotStmt::Node { .. });
                if let DotStmt::Node { id, attrs } = s {
                    assert(attrs_text(attrs@) =~= "shape=record"@) by {
                        reveal_strlit("shape=record");
                        assert(attrs@.drop_last().len() == 0);
                    }
                    assert("["@ + attrs_text(attrs@) + "]"@ =~= "[shape=record]"@) by {
                        reveal_strlit("shape=record");
                    }
                }
            } else {
                let j = i - nodes.len();
                assert(stmts@[nodes.len() + j] matches DotStmt::Edge { .. });
            }
        }
        assert(lines =~= want);
    }
    r
}

} // verus!
