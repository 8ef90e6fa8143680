//! The graph drawn as a Mermaid flowchart or as a DOT digraph.

use crate::graph::{EdgeModel, GraphInfo, GraphModel, NodeModel};
use crate::text::{concat, concat_all, same_text, strings};
use vstd::prelude::*;
use vstd::string::StringExecFns;

verus! {

/// The line that declares a node in a Mermaid flowchart.
pub open spec fn mermaid_node(n: NodeModel) -> Seq<char> {
    "    "@ + n.name + "["@ + n.name + "]\n"@
}

/// The line that draws an edge in a Mermaid flowchart.
pub open spec fn mermaid_edge(e: EdgeModel) -> Seq<char> {
    "    "@ + e.from + " --> "@ + e.to + "\n"@
}

/// The lines of the nodes in a Mermaid flowchart, in order.
pub open spec fn mermaid_nodes(g: GraphModel) -> Seq<Seq<char>> {
    Seq::new(g.nodes.len(), |i: int| mermaid_node(g.nodes[i]))
}

/// The lines of the edges in a Mermaid flowchart, in order.
pub open spec fn mermaid_edges(g: GraphModel) -> Seq<Seq<char>> {
    Seq::new(g.edges.len(), |i: int| mermaid_edge(g.edges[i]))
}

/// The graph as a Mermaid flowchart: its nodes, then its unconditional edges,
/// each in the order given.
pub open spec fn mermaid_text(g: GraphModel) -> Seq<char> {
    "graph TD\n"@ + concat(mermaid_nodes(g)) + concat(mermaid_edges(g))
}

/// The line that declares a node in a DOT digraph.
pub open spec fn dot_node(n: NodeModel) -> Seq<char> {
    "    \""@ + n.name + "\";\n"@
}

/// The line that draws an edge in a DOT digraph.
pub open spec fn dot_edge(e: EdgeModel) -> Seq<char> {
    "    \""@ + e.from + "\" -> \""@ + e.to + "\";\n"@
}

/// The lines of the nodes in a DOT digraph, in order.
pub open spec fn dot_nodes(g: GraphModel) -> Seq<Seq<char>> {
    Seq::new(g.nodes.len(), |i: int| dot_node(g.nodes[i]))
}

/// The lines of the edges in a DOT digraph, in order.
pub open spec fn dot_edges(g: GraphModel) -> Seq<Seq<char>> {
    Seq::new(g.edges.len(), |i: int| dot_edge(g.edges[i]))
}

/// The graph as a DOT digraph: its nodes, then its unconditional edges, each in
/// the order given.
pub open spec fn dot_text(g: GraphModel) -> Seq<char> {
    "digraph G {\n"@ + concat(dot_nodes(g)) + concat(dot_edges(g)) + "}\n"@
}

/// The graph as a Mermaid flowchart.
pub fn generate_mermaid(graph_info: &GraphInfo) -> (out: String)
    ensures
        out@ == mermaid_text(graph_info@),
{
    let g = graph_info;
    let mut nodes: Vec<String> = Vec::new();
    let mut i: usize = 0;
    while i < g.nodes.len()
        invariant
            i <= g.nodes.len(),
            nodes.len() == i,
            forall|k: int| 0 <= k < i ==> (#[trigger] nodes@[k])@ == mermaid_node(g@.nodes[k]),
        decreases g.nodes.len() - i,
    {
        let name = g.nodes[i].name.as_str();
        let mut line = String::from_str("    ");
        line.append(name);
        line.append("[");
        line.append(name);
        line.append("]\n");
        nodes.push(line);
        i += 1;
    }
    assert(strings(nodes@) =~= mermaid_nodes(g@));
    let mut edges: Vec<String> = Vec::new();
    let mut j: usize = 0;
    while j < g.edges.len()
        invariant
            j <= g.edges.len(),
            edges.len() == j,
            forall|k: int| 0 <= k < j ==> (#[trigger] edges@[k])@ == mermaid_edge(g@.edges[k]),
        decreases g.edges.len() - j,
    {
        let mut line = String::from_str("    ");
        line.append(g.edges[j].from.as_str());
        line.append(" --> ");
        line.append(g.edges[j].to.as_str());
        line.append("\n");
        edges.push(line);
        j += 1;
    }
    assert(strings(edges@) =~= mermaid_edges(g@));
    let mut out = String::from_str("graph TD\n");
    out.append(concat_all(&nodes).as_str());
    out.append(concat_all(&edges).as_str());
    out
}

/// The graph as a DOT digraph.
pub fn generate_dot(graph_info: &GraphInfo) -> (out: String)
    ensures
        out@ == dot_text(graph_info@),
{
    let g = graph_info;
    let mut nodes: Vec<String> = Vec::new();
    let mut i: usize = 0;
    while i < g.nodes.len()
        invariant
            i <= g.nodes.len(),
            nodes.len() == i,
            forall|k: int| 0 <= k < i ==> (#[trigger] nodes@[k])@ == dot_node(g@.nodes[k]),
        decreases g.nodes.len() - i,
    {
        let mut line = String::from_str("    \"");
        line.append(g.nodes[i].name.as_str());
        line.append("\";\n");
        nodes.push(line);
        i += 1;
    }
    assert(strings(nodes@) =~= dot_nodes(g@));
    let mut edges: Vec<String> = Vec::new();
    let mut j: usize = 0;
    while j < g.edges.len()
        invariant
            j <= g.edges.len(),
            edges.len() == j,
            forall|k: int| 0 <= k < j ==> (#[trigger] edges@[k])@ == dot_edge(g@.edges[k]),
        decreases g.edges.len() - j,
    {
        let mut line = String::from_str("    \"");
        line.append(g.edges[j].from.as_str());
        line.append("\" -> \"");
        line.append(g.edges[j].to.as_str());
        line.append("\";\n");
        edges.push(line);
        j += 1;
    }
    assert(strings(edges@) =~= dot_edges(g@));
    let mut out = String::from_str("digraph G {\n");
    out.append(concat_all(&nodes).as_str());
    out.append(concat_all(&edges).as_str());
    out.append("}\n");
    out
}

/// The graph drawn in the format called `format`: `mermaid` or `dot`. Other
/// formats are not known.
pub open spec fn diagram_text(g: GraphModel, format: Seq<char>) -> Option<Seq<char>> {
    if format == "mermaid"@ {
        Some(mermaid_text(g))
    } else if format == "dot"@ {
        Some(dot_text(g))
    } else {
        None
    }
}

/// The graph drawn in the format called `format`, where the format is known.
pub fn generate_diagram(graph_info: &GraphInfo, format: &str) -> (out: Option<String>)
    ensures
        crate::graph::opt_text(out) == diagram_text(graph_info@, format@),
{
    if same_text(format, "mermaid") {
        Some(generate_mermaid(graph_info))
    } else if same_text(format, "dot") {
        Some(generate_dot(graph_info))
    } else {
        None
    }
}

} // verus!
