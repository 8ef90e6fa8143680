//! The description of a workflow graph, and the lookups on it.

use crate::text::{copy_optional, same_text};
use vstd::prelude::*;

verus! {

/// A node of the workflow, as a value of the mathematical model.
pub ghost struct NodeModel {
    pub name: Seq<char>,
    pub func_name: Seq<char>,
    pub signature: Seq<char>,
    pub docstring: Option<Seq<char>>,
    pub source_hint: Option<Seq<char>>,
}

/// An unconditional transition, as a value of the mathematical model.
pub ghost struct EdgeModel {
    pub from: Seq<char>,
    pub to: Seq<char>,
    pub condition: Option<Seq<char>>,
}

/// A field of the state record, as a value of the mathematical model.
pub ghost struct FieldModel {
    pub name: Seq<char>,
    pub declared_type: Seq<char>,
    pub is_optional: bool,
    pub default_value: Option<Seq<char>>,
}

/// The conditional dispatch of one node, as a value of the mathematical model.
pub ghost struct DispatchModel {
    pub source: Seq<char>,
    pub condition_func: Seq<char>,
    pub branches: Seq<(Seq<char>, Seq<char>)>,
}

/// A workflow graph, as a value of the mathematical model.
pub ghost struct GraphModel {
    pub nodes: Seq<NodeModel>,
    pub edges: Seq<EdgeModel>,
    pub fields: Seq<FieldModel>,
    pub entry_point: Seq<char>,
    pub dispatch: Seq<DispatchModel>,
}

/// The text of an optional string.
pub open spec fn opt_text(s: Option<String>) -> Option<Seq<char>> {
    match s {
        Some(t) => Some(t@),
        None => None,
    }
}

/// A processing node of the workflow.
#[derive(Debug)]
pub struct NodeInfo {
    /// The name by which edges and branches refer to the node.
    pub name: String,
    /// The name of the function that the node runs in the source program.
    pub func_name: String,
    /// The signature of that function, as text.
    pub signature: String,
    pub docstring: Option<String>,
    /// Where the function stands in the source program.
    pub source_hint: Option<String>,
}

impl View for NodeInfo {
    type V = NodeModel;

    open spec fn view(&self) -> NodeModel {
        NodeModel {
            name: self.name@,
            func_name: self.func_name@,
            signature: self.signature@,
            docstring: opt_text(self.docstring),
            source_hint: opt_text(self.source_hint),
        }
    }
}

/// An unconditional transition from one node to another.
#[derive(Debug)]
pub struct EdgeInfo {
    pub from: String,
    pub to: String,
    pub condition: Option<String>,
}

impl View for EdgeInfo {
    type V = EdgeModel;

    open spec fn view(&self) -> EdgeModel {
        EdgeModel { from: self.from@, to: self.to@, condition: opt_text(self.condition) }
    }
}

/// A field of the state record that is handed from node to node.
#[derive(Debug)]
pub struct FieldInfo {
    pub name: String,
    /// The declared type, as a type expression of the source language.
    pub declared_type: String,
    pub is_optional: bool,
    /// The declared default, as the text of a document value.
    pub default_value: Option<String>,
}

impl View for FieldInfo {
    type V = FieldModel;

    open spec fn view(&self) -> FieldModel {
        FieldModel {
            name: self.name@,
            declared_type: self.declared_type@,
            is_optional: self.is_optional,
            default_value: opt_text(self.default_value),
        }
    }
}

/// The fields of the state record, in the order in which they are written out.
#[derive(Debug)]
pub struct StateSchema {
    pub fields: Vec<FieldInfo>,
}

impl View for StateSchema {
    type V = Seq<FieldModel>;

    open spec fn view(&self) -> Seq<FieldModel> {
        Seq::new(self.fields@.len(), |i: int| self.fields@[i]@)
    }
}

/// The texts of a sequence of pairs of strings.
pub open spec fn pair_texts(pairs: Seq<(String, String)>) -> Seq<(Seq<char>, Seq<char>)> {
    Seq::new(pairs.len(), |i: int| (pairs[i].0@, pairs[i].1@))
}

/// The conditional dispatch of a node: the function that selects a branch, and
/// for each branch label, in order, the node that the branch leads to.
#[derive(Debug)]
pub struct ConditionalEdge {
    pub condition_func: String,
    pub branches: Vec<(String, String)>,
}

/// The dispatch table as values of the model.
pub open spec fn dispatch_models(table: Seq<(String, ConditionalEdge)>) -> Seq<DispatchModel> {
    Seq::new(
        table.len(),
        |i: int|
            DispatchModel {
                source: table[i].0@,
                condition_func: table[i].1.condition_func@,
                branches: pair_texts(table[i].1.branches@),
            },
    )
}

/// A workflow graph: its nodes, the transitions between them, the state record
/// and the place where the workflow starts.
#[derive(Debug)]
pub struct GraphInfo {
    pub nodes: Vec<NodeInfo>,
    pub edges: Vec<EdgeInfo>,
    pub state_schema: StateSchema,
    pub entry_point: String,
    /// For each node with a conditional dispatch, in order, its name and the
    /// dispatch. Where a name stands twice, the first entry counts: the node
    /// follows it, and it alone gets a routing routine.
    pub conditional_edges: Vec<(String, ConditionalEdge)>,
}

impl View for GraphInfo {
    type V = GraphModel;

    open spec fn view(&self) -> GraphModel {
        GraphModel {
            nodes: Seq::new(self.nodes@.len(), |i: int| self.nodes@[i]@),
            edges: Seq::new(self.edges@.len(), |i: int| self.edges@[i]@),
            fields: self.state_schema@,
            entry_point: self.entry_point@,
            dispatch: dispatch_models(self.conditional_edges@),
        }
    }
}

/// Whether the name is one of the spellings of the place where every workflow
/// starts.
pub open spec fn is_start_name(name: Seq<char>) -> bool {
    name == "__start__"@ || name == "START"@
}

/// Whether the name is one of the spellings of the place where every workflow
/// ends.
pub open spec fn is_end_name(name: Seq<char>) -> bool {
    name == "__end__"@ || name == "END"@
}

/// Whether the name is a sentinel: a start or an end in any spelling.
pub open spec fn is_sentinel(name: Seq<char>) -> bool {
    is_start_name(name) || is_end_name(name)
}

/// Whether two names mean the same place: they are the same name, or two
/// spellings of the start, or two spellings of the end.
pub open spec fn same_place(a: Seq<char>, b: Seq<char>) -> bool {
    a == b || (is_start_name(a) && is_start_name(b)) || (is_end_name(a) && is_end_name(b))
}

/// The place of the first node called `name` at or after `i`; the number of
/// nodes where there is none.
pub open spec fn node_from(g: GraphModel, name: Seq<char>, i: int) -> int
    decreases g.nodes.len() - i,
{
    if i < 0 || i >= g.nodes.len() {
        g.nodes.len() as int
    } else if g.nodes[i].name == name {
        i
    } else {
        node_from(g, name, i + 1)
    }
}

/// Whether the graph declares a node called `name`.
pub open spec fn declares(g: GraphModel, name: Seq<char>) -> bool {
    node_from(g, name, 0) < g.nodes.len()
}

/// The place of the first edge that leaves `name` at or after `i`; the number of
/// edges where there is none.
pub open spec fn edge_from(g: GraphModel, name: Seq<char>, i: int) -> int
    decreases g.edges.len() - i,
{
    if i < 0 || i >= g.edges.len() {
        g.edges.len() as int
    } else if same_place(g.edges[i].from, name) {
        i
    } else {
        edge_from(g, name, i + 1)
    }
}

/// Where the first unconditional edge that leaves `name` leads.
pub open spec fn successor(g: GraphModel, name: Seq<char>) -> Option<Seq<char>> {
    let k = edge_from(g, name, 0);
    if 0 <= k < g.edges.len() {
        Some(g.edges[k].to)
    } else {
        None
    }
}

/// The place of the first dispatch of `name` at or after `i`; the number of
/// dispatches where there is none.
pub open spec fn dispatch_from(g: GraphModel, name: Seq<char>, i: int) -> int
    decreases g.dispatch.len() - i,
{
    if i < 0 || i >= g.dispatch.len() {
        g.dispatch.len() as int
    } else if same_place(g.dispatch[i].source, name) {
        i
    } else {
        dispatch_from(g, name, i + 1)
    }
}

/// Whether `name` has a conditional dispatch.
pub open spec fn dispatches(g: GraphModel, name: Seq<char>) -> bool {
    dispatch_from(g, name, 0) < g.dispatch.len()
}

/// Whether something can be referred to by `name`: a declared node or a
/// sentinel.
pub open spec fn resolves(g: GraphModel, name: Seq<char>) -> bool {
    declares(g, name) || is_sentinel(name)
}

/// `node_from` gives the least place that holds a node called `name`.
pub proof fn lemma_node_from(g: GraphModel, name: Seq<char>, i: int)
    requires
        0 <= i <= g.nodes.len(),
    ensures
        i <= node_from(g, name, i) <= g.nodes.len(),
        node_from(g, name, i) < g.nodes.len() ==> g.nodes[node_from(g, name, i)].name == name,
        forall|j: int| i <= j < node_from(g, name, i) ==> g.nodes[j].name != name,
    decreases g.nodes.len() - i,
{
    if i < g.nodes.len() && g.nodes[i].name != name {
        lemma_node_from(g, name, i + 1);
    }
}

/// `edge_from` gives the least place that holds an edge that leaves `name`.
pub proof fn lemma_edge_from(g: GraphModel, name: Seq<char>, i: int)
    requires
        0 <= i <= g.edges.len(),
    ensures
        i <= edge_from(g, name, i) <= g.edges.len(),
        edge_from(g, name, i) < g.edges.len() ==> same_place(
            g.edges[edge_from(g, name, i)].from,
            name,
        ),
        forall|j: int| i <= j < edge_from(g, name, i) ==> !same_place(g.edges[j].from, name),
    decreases g.edges.len() - i,
{
    if i < g.edges.len() && !same_place(g.edges[i].from, name) {
        lemma_edge_from(g, name, i + 1);
    }
}

/// `dispatch_from` gives the least place that holds a dispatch of `name`.
pub proof fn lemma_dispatch_from(g: GraphModel, name: Seq<char>, i: int)
    requires
        0 <= i <= g.dispatch.len(),
    ensures
        i <= dispatch_from(g, name, i) <= g.dispatch.len(),
        dispatch_from(g, name, i) < g.dispatch.len() ==> same_place(
            g.dispatch[dispatch_from(g, name, i)].source,
            name,
        ),
        forall|j: int| i <= j < dispatch_from(g, name, i) ==> !same_place(
            g.dispatch[j].source,
            name,
        ),
    decreases g.dispatch.len() - i,
{
    if i < g.dispatch.len() && !same_place(g.dispatch[i].source, name) {
        lemma_dispatch_from(g, name, i + 1);
    }
}

/// Whether the name is a spelling of the start.
pub fn is_start(name: &str) -> (b: bool)
    ensures
        b == is_start_name(name@),
{
    same_text(name, "__start__") || same_text(name, "START")
}

/// Whether the name is a spelling of the end.
pub fn is_end(name: &str) -> (b: bool)
    ensures
        b == is_end_name(name@),
{
    same_text(name, "__end__") || same_text(name, "END")
}

/// Whether two names mean the same place.
pub fn is_same_place(a: &str, b: &str) -> (r: bool)
    ensures
        r == same_place(a@, b@),
{
    same_text(a, b) || (is_start(a) && is_start(b)) || (is_end(a) && is_end(b))
}

impl GraphInfo {
    /// The place of the first node called `name`, or the number of nodes.
    pub fn find_node(&self, name: &str) -> (k: usize)
        ensures
            k == node_from(self@, name@, 0),
            k <= self.nodes.len(),
    {
        let mut i: usize = 0;
        while i < self.nodes.len() && !same_text(self.nodes[i].name.as_str(), name)
            invariant
                i <= self.nodes.len(),
                node_from(self@, name@, 0) == node_from(self@, name@, i as int),
            decreases self.nodes.len() - i,
        {
            i += 1;
        }
        i
    }

    /// The place of the first edge that leaves `name`, or the number of edges.
    pub fn find_edge(&self, name: &str) -> (k: usize)
        ensures
            k == edge_from(self@, name@, 0),
            k <= self.edges.len(),
    {
        let mut i: usize = 0;
        while i < self.edges.len() && !is_same_place(self.edges[i].from.as_str(), name)
            invariant
                i <= self.edges.len(),
                edge_from(self@, name@, 0) == edge_from(self@, name@, i as int),
            decreases self.edges.len() - i,
        {
            i += 1;
        }
        i
    }

    /// The place of the first dispatch of `name`, or the number of dispatches.
    pub fn find_dispatch(&self, name: &str) -> (k: usize)
        ensures
            k == dispatch_from(self@, name@, 0),
            k <= self.conditional_edges.len(),
    {
        let mut i: usize = 0;
        while i < self.conditional_edges.len() && !is_same_place(
            self.conditional_edges[i].0.as_str(),
            name,
        )
            invariant
                i <= self.conditional_edges.len(),
                dispatch_from(self@, name@, 0) == dispatch_from(self@, name@, i as int),
            decreases self.conditional_edges.len() - i,
        {
            i += 1;
        }
        i
    }

    /// Whether `name` is a declared node or a sentinel.
    pub fn can_resolve(&self, name: &str) -> (b: bool)
        ensures
            b == resolves(self@, name@),
    {
        self.find_node(name) < self.nodes.len() || is_start(name) || is_end(name)
    }
}

impl Clone for NodeInfo {
    fn clone(&self) -> (out: Self)
        ensures
            out@ == self@,
    {
        NodeInfo {
            name: self.name.clone(),
            func_name: self.func_name.clone(),
            signature: self.signature.clone(),
            docstring: copy_optional(&self.docstring),
            source_hint: copy_optional(&self.source_hint),
        }
    }
}

impl Clone for EdgeInfo {
    fn clone(&self) -> (out: Self)
        ensures
            out@ == self@,
    {
        EdgeInfo {
            from: self.from.clone(),
            to: self.to.clone(),
            condition: copy_optional(&self.condition),
        }
    }
}

impl Clone for FieldInfo {
    fn clone(&self) -> (out: Self)
        ensures
            out@ == self@,
    {
        FieldInfo {
            name: self.name.clone(),
            declared_type: self.declared_type.clone(),
            is_optional: self.is_optional,
            default_value: copy_optional(&self.default_value),
        }
    }
}

impl Clone for StateSchema {
    fn clone(&self) -> (out: Self)
        ensures
            out@ == self@,
    {
        let mut fields: Vec<FieldInfo> = Vec::new();
        let mut i: usize = 0;
        while i < self.fields.len()
            invariant
                i <= self.fields.len(),
                fields.len() == i,
                forall|k: int| 0 <= k < i ==> (#[trigger] fields@[k])@ == self.fields@[k]@,
            decreases self.fields.len() - i,
        {
            fields.push(self.fields[i].clone());
            i += 1;
        }
        let out = StateSchema { fields };
        assert(out@ =~= self@);
        out
    }
}

impl Clone for ConditionalEdge {
    fn clone(&self) -> (out: Self)
        ensures
            out.condition_func@ == self.condition_func@,
            pair_texts(out.branches@) == pair_texts(self.branches@),
    {
        let mut branches: Vec<(String, String)> = Vec::new();
        let mut i: usize = 0;
        while i < self.branches.len()
            invariant
                i <= self.branches.len(),
                branches.len() == i,
                forall|k: int|
                    0 <= k < i ==> (#[trigger] branches@[k]).0@ == self.branches@[k].0@
                        && branches@[k].1@ == self.branches@[k].1@,
            decreases self.branches.len() - i,
        {
            branches.push((self.branches[i].0.clone(), self.branches[i].1.clone()));
            i += 1;
        }
        assert(pair_texts(branches@) =~= pair_texts(self.branches@));
        ConditionalEdge { condition_func: self.condition_func.clone(), branches }
    }
}

impl Clone for GraphInfo {
    fn clone(&self) -> (out: Self)
        ensures
            out@ == self@,
    {
        let mut nodes: Vec<NodeInfo> = Vec::new();
        let mut i: usize = 0;
        while i < self.nodes.len()
            invariant
                i <= self.nodes.len(),
                nodes.len() == i,
                forall|k: int| 0 <= k < i ==> (#[trigger] nodes@[k])@ == self.nodes@[k]@,
            decreases self.nodes.len() - i,
        {
            nodes.push(self.nodes[i].clone());
            i += 1;
        }
        let mut edges: Vec<EdgeInfo> = Vec::new();
        let mut j: usize = 0;
        while j < self.edges.len()
            invariant
                j <= self.edges.len(),
                edges.len() == j,
                forall|k: int| 0 <= k < j ==> (#[trigger] edges@[k])@ == self.edges@[k]@,
            decreases self.edges.len() - j,
        {
            edges.push(self.edges[j].clone());
            j += 1;
        }
        let mut table: Vec<(String, ConditionalEdge)> = Vec::new();
        let mut d: usize = 0;
        while d < self.conditional_edges.len()
            invariant
                d <= self.conditional_edges.len(),
                table.len() == d,
                forall|k: int|
                    0 <= k < d ==> (#[trigger] dispatch_models(table@)[k]) == dispatch_models(
                        self.conditional_edges@,
                    )[k],
            decreases self.conditional_edges.len() - d,
        {
            let ghost before = dispatch_models(table@);
            let entry = (self.conditional_edges[d].0.clone(), self.conditional_edges[d].1.clone());
            table.push(entry);
            assert forall|k: int| 0 <= k < d + 1 implies (#[trigger] dispatch_models(table@)[k])
                == dispatch_models(self.conditional_edges@)[k] by {
                if k < d {
                    assert(dispatch_models(table@)[k] == before[k]);
                }
            }
            d += 1;
        }
        let out = GraphInfo {
            nodes,
            edges,
            state_schema: self.state_schema.clone(),
            entry_point: self.entry_point.clone(),
            conditional_edges: table,
        };
        assert(out@.nodes =~= self@.nodes);
        assert(out@.edges =~= self@.edges);
        assert(out@.dispatch =~= self@.dispatch);
        out
    }
}

} // verus!
