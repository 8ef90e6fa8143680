//! The routines that are generated for the nodes: an action routine for each
//! node, and a routing routine for each conditional dispatch.

use crate::graph::{ConditionalEdge, DispatchModel, NodeInfo, NodeModel};
use crate::identifier::{sanitize, sanitized};
use crate::text::{join, joined, prefix_lines, prefixed, strings};
use vstd::prelude::*;
use vstd::string::StringExecFns;

verus! {

/// The name of the action routine of the node called `name`.
pub open spec fn node_fn_name(name: Seq<char>) -> Seq<char> {
    sanitized(name) + "_node"@
}

/// The name of the routing routine of the node called `name`.
pub open spec fn route_fn_name(name: Seq<char>) -> Seq<char> {
    sanitized(name) + "_route"@
}

/// The doc comment that holds `text`, line by line.
pub open spec fn doc_comment_text(text: Seq<char>) -> Seq<char> {
    prefixed(text, "/// "@)
}

/// What the action routine says of where its function stands in the source
/// program.
pub open spec fn source_comment(hint: Option<Seq<char>>) -> Seq<char> {
    match hint {
        Some(h) => "    // Original source: "@ + h,
        None => "    // Source location not available"@,
    }
}

/// The action routine of a node: it takes the state and hands it back unchanged,
/// under comments that say where it comes from and that its logic is still to be
/// written.
pub open spec fn node_scaffold(n: NodeModel) -> Seq<char> {
    doc_comment_text(
        match n.docstring {
            Some(d) => d,
            None => "Generated node function"@,
        },
    ) + "\n/// Original function: "@ + n.func_name + "\n/// Signature: "@ + n.signature
        + "\nasync fn "@ + node_fn_name(n.name)
        + "(mut state: GraphState) -> Result<GraphState> {\n"@ + source_comment(n.source_hint)
        + "\n\n    // NOT IMPLEMENTED: the logic of node "@ + n.name
        + "\n    // Until it is written the state is handed on unchanged.\n\n    Ok(state)\n}"@
}

/// A branch label between double quotes.
pub open spec fn quoted(label: Seq<char>) -> Seq<char> {
    "\""@ + label + "\""@
}

/// The labels of the branches between double quotes, in order.
pub open spec fn quoted_labels(branches: Seq<(Seq<char>, Seq<char>)>) -> Seq<Seq<char>> {
    Seq::new(branches.len(), |i: int| quoted(branches[i].0))
}

/// The routing routine of a node with a conditional dispatch: it names every
/// branch label as what it may return, and its decision is still to be written.
pub open spec fn routing_stub(d: DispatchModel) -> Seq<char> {
    "/// Routing function for node: "@ + d.source + "\n/// Original function: "@
        + d.condition_func + "\nfn "@ + route_fn_name(d.source)
        + "(state: &GraphState) -> &'static str {\n    // NOT IMPLEMENTED: the routing decision\n    // This should return one of: "@
        + joined(quoted_labels(d.branches), ", "@) + "\n    \"END\"\n}"@
}

/// The name of the action routine of the node called `name`.
pub fn node_function_name(name: &str) -> (out: String)
    ensures
        out@ == node_fn_name(name@),
{
    let mut out = sanitize(name);
    out.append("_node");
    out
}

/// The name of the routing routine of the node called `name`.
pub fn route_function_name(name: &str) -> (out: String)
    ensures
        out@ == route_fn_name(name@),
{
    let mut out = sanitize(name);
    out.append("_route");
    out
}

/// The doc comment that holds `text`, line by line.
pub fn doc_comment(text: &str) -> (out: String)
    ensures
        out@ == doc_comment_text(text@),
{
    prefix_lines(text, "/// ")
}

/// The action routine of a node.
pub fn generate_node_function(node: &NodeInfo) -> (out: String)
    ensures
        out@ == node_scaffold(node@),
{
    let mut out = match &node.docstring {
        Some(d) => doc_comment(d.as_str()),
        None => doc_comment("Generated node function"),
    };
    out.append("\n/// Original function: ");
    out.append(node.func_name.as_str());
    out.append("\n/// Signature: ");
    out.append(node.signature.as_str());
    out.append("\nasync fn ");
    out.append(node_function_name(node.name.as_str()).as_str());
    out.append("(mut state: GraphState) -> Result<GraphState> {\n");
    let comment = match &node.source_hint {
        Some(h) => {
            let mut c = String::from_str("    // Original source: ");
            c.append(h.as_str());
            c
        },
        None => String::from_str("    // Source location not available"),
    };
    out.append(comment.as_str());
    out.append("\n\n    // NOT IMPLEMENTED: the logic of node ");
    out.append(node.name.as_str());
    out.append(
        "\n    // Until it is written the state is handed on unchanged.\n\n    Ok(state)\n}",
    );
    out
}

/// The routing routine of the node called `source` with the dispatch `edge`.
pub fn generate_routing_function(source: &str, edge: &ConditionalEdge) -> (out: String)
    ensures
        out@ == routing_stub(
            DispatchModel {
                source: source@,
                condition_func: edge.condition_func@,
                branches: crate::graph::pair_texts(edge.branches@),
            },
        ),
{
    let mut labels: Vec<String> = Vec::new();
    let mut i: usize = 0;
    while i < edge.branches.len()
        invariant
            i <= edge.branches.len(),
            labels.len() == i,
            forall|k: int| 0 <= k < i ==> (#[trigger] labels@[k])@ == quoted(edge.branches@[k].0@),
        decreases edge.branches.len() - i,
    {
        let mut label = String::from_str("\"");
        label.append(edge.branches[i].0.as_str());
        label.append("\"");
        labels.push(label);
        i += 1;
    }
    assert(strings(labels@) =~= quoted_labels(crate::graph::pair_texts(edge.branches@)));
    let mut out = String::from_str("/// Routing function for node: ");
    out.append(source);
    out.append("\n/// Original function: ");
    out.append(edge.condition_func.as_str());
    out.append("\nfn ");
    out.append(route_function_name(source).as_str());
    out.append(
        "(state: &GraphState) -> &'static str {\n    // NOT IMPLEMENTED: the routing decision\n    // This should return one of: ",
    );
    out.append(join(&labels, ", ").as_str());
    out.append("\n    \"END\"\n}");
    out
}

} // verus!
