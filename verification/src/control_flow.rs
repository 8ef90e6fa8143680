//! The control flow of the generated program: which names a graph refers to,
//! in which order its nodes run, which of them can be reached, and the text of
//! the routine that runs them.

use crate::diagnostics::{ErrorModel, SynthesisError};
use crate::graph::{
    declares, dispatch_from, dispatches, edge_from, is_end, is_end_name, is_start, is_start_name,
    lemma_dispatch_from, lemma_edge_from, lemma_node_from, node_from, opt_text, resolves,
    successor, DispatchModel, GraphInfo, GraphModel,
};
use crate::scaffold::{node_fn_name, node_function_name, route_fn_name, route_function_name};
use crate::text::{concat, concat_all, holds, join, joined, strings};
use vstd::prelude::*;
use vstd::string::StringExecFns;

verus! {

/// The names that the branches of a dispatch lead to, in order.
pub open spec fn branch_targets(d: DispatchModel) -> Seq<Seq<char>> {
    Seq::new(d.branches.len(), |i: int| d.branches[i].1)
}

/// The names that the branches of the first `n` dispatches lead to, in order.
pub open spec fn dispatch_targets(g: GraphModel, n: nat) -> Seq<Seq<char>>
    decreases n,
{
    if n == 0 {
        Seq::empty()
    } else {
        dispatch_targets(g, (n - 1) as nat) + branch_targets(g.dispatch[n - 1])
    }
}

/// The names that the unconditional edges lead to, in order.
pub open spec fn edge_targets(g: GraphModel) -> Seq<Seq<char>> {
    Seq::new(g.edges.len(), |i: int| g.edges[i].to)
}

/// Every name that the graph refers to: the entry point, then where the edges
/// lead, then where the branches lead.
pub open spec fn references(g: GraphModel) -> Seq<Seq<char>> {
    seq![g.entry_point] + edge_targets(g) + dispatch_targets(g, g.dispatch.len())
}

/// The place of the first of `refs` at or after `i` that is neither a declared
/// node nor a sentinel; the length of `refs` where there is none.
pub open spec fn unresolved_from(g: GraphModel, refs: Seq<Seq<char>>, i: int) -> int
    decreases refs.len() - i,
{
    if i < 0 || i >= refs.len() {
        refs.len() as int
    } else if !resolves(g, refs[i]) {
        i
    } else {
        unresolved_from(g, refs, i + 1)
    }
}

/// The first name that the graph refers to and that is neither a declared node
/// nor a sentinel.
pub open spec fn dangling(g: GraphModel) -> Option<Seq<char>> {
    let refs = references(g);
    let k = unresolved_from(g, refs, 0);
    if 0 <= k < refs.len() {
        Some(refs[k])
    } else {
        None
    }
}

/// `unresolved_from` gives the least place whose name does not resolve.
pub proof fn lemma_unresolved_from(g: GraphModel, refs: Seq<Seq<char>>, i: int)
    requires
        0 <= i <= refs.len(),
    ensures
        i <= unresolved_from(g, refs, i) <= refs.len(),
        unresolved_from(g, refs, i) < refs.len() ==> !resolves(g, refs[unresolved_from(g, refs, i)]),
        forall|j: int| i <= j < unresolved_from(g, refs, i) ==> resolves(g, #[trigger] refs[j]),
    decreases refs.len() - i,
{
    if i < refs.len() && resolves(g, refs[i]) {
        lemma_unresolved_from(g, refs, i + 1);
    }
}

/// Every name that the graph refers to, in order.
pub fn collect_references(g: &GraphInfo) -> (refs: Vec<String>)
    ensures
        strings(refs@) == references(g@),
{
    let mut refs: Vec<String> = Vec::new();
    refs.push(g.entry_point.clone());
    let ghost head = seq![g@.entry_point];
    assert(strings(refs@) =~= head);
    let mut i: usize = 0;
    while i < g.edges.len()
        invariant
            i <= g.edges.len(),
            strings(refs@) == head + edge_targets(g@).take(i as int),
        decreases g.edges.len() - i,
    {
        let ghost before = strings(refs@);
        refs.push(g.edges[i].to.clone());
        assert(strings(refs@) =~= before.push(g@.edges[i as int].to));
        assert(edge_targets(g@).take(i + 1) =~= edge_targets(g@).take(i as int).push(
            g@.edges[i as int].to,
        ));
        i += 1;
    }
    assert(edge_targets(g@).take(g.edges.len() as int) =~= edge_targets(g@));
    let ghost base = head + edge_targets(g@);
    let mut d: usize = 0;
    assert(strings(refs@) =~= base + dispatch_targets(g@, 0));
    while d < g.conditional_edges.len()
        invariant
            d <= g.conditional_edges.len(),
            strings(refs@) == base + dispatch_targets(g@, d as nat),
        decreases g.conditional_edges.len() - d,
    {
        let branches = &g.conditional_edges[d].1.branches;
        let ghost targets = branch_targets(g@.dispatch[d as int]);
        let ghost sofar = strings(refs@);
        let mut b: usize = 0;
        assert(strings(refs@) =~= sofar + targets.take(0));
        while b < branches.len()
            invariant
                b <= branches.len(),
                branches.len() == targets.len(),
                forall|k: int| 0 <= k < branches.len() ==> (#[trigger] branches@[k]).1@ == targets[k],
                strings(refs@) == sofar + targets.take(b as int),
            decreases branches.len() - b,
        {
            let ghost before = strings(refs@);
            refs.push(branches[b].1.clone());
            assert(strings(refs@) =~= before.push(targets[b as int]));
            assert(targets.take(b + 1) =~= targets.take(b as int).push(targets[b as int]));
            b += 1;
        }
        assert(targets.take(targets.len() as int) =~= targets);
        assert(strings(refs@) =~= base + dispatch_targets(g@, (d + 1) as nat));
        d += 1;
    }
    refs
}

/// The first name that the graph refers to and that is neither a declared node
/// nor a sentinel.
pub fn find_dangling(g: &GraphInfo) -> (r: Option<String>)
    ensures
        opt_text(r) == dangling(g@),
{
    let refs = collect_references(g);
    let mut i: usize = 0;
    while i < refs.len()
        invariant
            i <= refs.len(),
            strings(refs@) == references(g@),
            unresolved_from(g@, references(g@), 0) == unresolved_from(
                g@,
                references(g@),
                i as int,
            ),
        decreases refs.len() - i,
    {
        assert(strings(refs@)[i as int] == refs@[i as int]@);
        if !g.can_resolve(refs[i].as_str()) {
            return Some(refs[i].clone());
        }
        i += 1;
    }
    None
}

/// The names of the declared nodes, in the order of their declaration.
pub open spec fn node_names(g: GraphModel) -> Seq<Seq<char>> {
    Seq::new(g.nodes.len(), |i: int| g.nodes[i].name)
}

/// How many of `names` are not among `visited`.
pub open spec fn unvisited(names: Seq<Seq<char>>, visited: Seq<Seq<char>>) -> nat
    decreases names.len(),
{
    if names.len() == 0 {
        0
    } else if visited.contains(names.last()) {
        unvisited(names.drop_last(), visited)
    } else {
        unvisited(names.drop_last(), visited) + 1
    }
}

proof fn lemma_visit_never_adds(names: Seq<Seq<char>>, visited: Seq<Seq<char>>, name: Seq<char>)
    ensures
        unvisited(names, visited.push(name)) <= unvisited(names, visited),
    decreases names.len(),
{
    if names.len() > 0 {
        lemma_visit_never_adds(names.drop_last(), visited, name);
        if visited.contains(names.last()) {
            let k = choose|k: int| 0 <= k < visited.len() && visited[k] == names.last();
            assert(visited.push(name)[k] == names.last());
        }
    }
}

/// Visiting one of `names` that was not visited before leaves fewer unvisited.
pub proof fn lemma_visit_decreases(names: Seq<Seq<char>>, visited: Seq<Seq<char>>, name: Seq<char>)
    requires
        names.contains(name),
        !visited.contains(name),
    ensures
        unvisited(names, visited.push(name)) < unvisited(names, visited),
    decreases names.len(),
{
    let more = visited.push(name);
    assert(more[visited.len() as int] == name);
    if names.last() == name {
        lemma_visit_never_adds(names.drop_last(), visited, name);
    } else {
        let k = choose|k: int| 0 <= k < names.len() && names[k] == name;
        assert(names.drop_last()[k] == name);
        lemma_visit_decreases(names.drop_last(), visited, name);
        if visited.contains(names.last()) {
            let j = choose|j: int| 0 <= j < visited.len() && visited[j] == names.last();
            assert(more[j] == names.last());
        } else {
            assert forall|j: int| 0 <= j < more.len() implies more[j] != names.last() by {
                if j < visited.len() {
                    assert(more[j] == visited[j]);
                }
            }
        }
    }
}

/// A declared node is one of the node names.
pub proof fn lemma_declared_is_named(g: GraphModel, name: Seq<char>)
    requires
        declares(g, name),
    ensures
        node_names(g).contains(name),
{
    lemma_node_from(g, name, 0);
    assert(node_names(g)[node_from(g, name, 0)] == name);
}

/// Whether a transition to `target` ends the workflow: the target is a spelling
/// of the end, whatever the graph declares.
pub open spec fn terminates(target: Seq<char>) -> bool {
    is_end_name(target)
}

/// The nodes that run when the unconditional edges are followed from `cur`, after
/// those of `visited` have run: the walk ends at a name that is no declared
/// node, at a node that no edge leaves, and at a node whose edge leads to the
/// end. It fails, with the node's name, where it comes to a node that has run
/// already.
pub open spec fn chain_from(g: GraphModel, cur: Seq<char>, visited: Seq<Seq<char>>) -> Result<
    Seq<Seq<char>>,
    Seq<char>,
>
    decreases unvisited(node_names(g), visited),
{
    if !declares(g, cur) {
        Ok(visited)
    } else if visited.contains(cur) {
        Err(cur)
    } else {
        proof {
            lemma_declared_is_named(g, cur);
            lemma_visit_decreases(node_names(g), visited, cur);
        }
        match successor(g, cur) {
            None => Ok(visited.push(cur)),
            Some(next) => if terminates(next) {
                Ok(visited.push(cur))
            } else {
                chain_from(g, next, visited.push(cur))
            },
        }
    }
}

/// Whether the workflow starts at the start marker: the entry point is a
/// spelling of the start and no declared node.
pub open spec fn starts_at_marker(g: GraphModel) -> bool {
    !declares(g, g.entry_point) && is_start_name(g.entry_point)
}

/// Where the first action of the workflow is looked for: at the entry point,
/// or, where the workflow starts at the start marker, at the place that the edge
/// from the start leads to. There is no such place where no edge leaves the
/// start marker or its edge leads to the end.
pub open spec fn first_step(g: GraphModel) -> Option<Seq<char>> {
    if starts_at_marker(g) {
        match successor(g, g.entry_point) {
            Some(next) => if terminates(next) {
                None
            } else {
                Some(next)
            },
            None => None,
        }
    } else {
        Some(g.entry_point)
    }
}

/// Whether nothing orders the nodes: there is neither a dispatch nor an edge.
pub open spec fn is_degraded(g: GraphModel) -> bool {
    g.dispatch.len() == 0 && g.edges.len() == 0
}

/// The nodes of a graph without conditional dispatch in the order in which they
/// run: without any edge, all nodes as they are declared; else the chain of
/// unconditional edges from where the first action is looked for.
pub open spec fn linear_order(g: GraphModel) -> Result<Seq<Seq<char>>, Seq<char>> {
    if g.edges.len() == 0 {
        Ok(node_names(g))
    } else {
        match first_step(g) {
            Some(cur) => chain_from(g, cur, Seq::empty()),
            None => Ok(Seq::empty()),
        }
    }
}

/// Whether the workflow starts at the start marker.
pub fn at_start_marker(g: &GraphInfo) -> (b: bool)
    ensures
        b == starts_at_marker(g@),
{
    g.find_node(g.entry_point.as_str()) >= g.nodes.len() && is_start(g.entry_point.as_str())
}

/// Where the first action of the workflow is looked for.
pub fn entry_of(g: &GraphInfo) -> (out: Option<String>)
    ensures
        opt_text(out) == first_step(g@),
{
    if at_start_marker(g) {
        let k = g.find_edge(g.entry_point.as_str());
        if k < g.edges.len() && !is_end(g.edges[k].to.as_str()) {
            Some(g.edges[k].to.clone())
        } else {
            None
        }
    } else {
        Some(g.entry_point.clone())
    }
}

/// The nodes of a graph without conditional dispatch in the order in which they
/// run, or the node at which the edges close a cycle.
pub fn linear_chain(g: &GraphInfo) -> (r: Result<Vec<String>, String>)
    ensures
        match r {
            Ok(order) => linear_order(g@) == Ok::<Seq<Seq<char>>, Seq<char>>(strings(order@)),
            Err(name) => linear_order(g@) == Err::<Seq<Seq<char>>, Seq<char>>(name@),
        },
{
    let mut order: Vec<String> = Vec::new();
    if g.edges.len() == 0 {
        let mut i: usize = 0;
        while i < g.nodes.len()
            invariant
                i <= g.nodes.len(),
                order.len() == i,
                forall|k: int| 0 <= k < i ==> (#[trigger] order@[k])@ == g@.nodes[k].name,
            decreases g.nodes.len() - i,
        {
            order.push(g.nodes[i].name.clone());
            i += 1;
        }
        assert(strings(order@) =~= node_names(g@));
        return Ok(order);
    }
    assert(strings(order@) =~= Seq::<Seq<char>>::empty());
    let mut cur = match entry_of(g) {
        Some(cur) => cur,
        None => {
            return Ok(order);
        },
    };
    loop
        invariant
            g.edges.len() != 0,
            chain_from(g@, cur@, strings(order@)) == linear_order(g@),
        decreases unvisited(node_names(g@), strings(order@)),
    {
        if g.find_node(cur.as_str()) >= g.nodes.len() {
            return Ok(order);
        }
        if holds(&order, cur.as_str()) {
            return Err(cur);
        }
        proof {
            lemma_declared_is_named(g@, cur@);
            lemma_visit_decreases(node_names(g@), strings(order@), cur@);
        }
        let ghost before = strings(order@);
        let k = g.find_edge(cur.as_str());
        order.push(cur.clone());
        assert(strings(order@) =~= before.push(cur@));
        if k >= g.edges.len() || is_end(g.edges[k].to.as_str()) {
            return Ok(order);
        }
        cur = g.edges[k].to.clone();
    }
}

/// The invocation of the action routine of the node called `name`, in a routine
/// that runs the nodes one after another.
pub open spec fn invocation(name: Seq<char>) -> Seq<char> {
    "    // Execute node: "@ + name + "\n    state = "@ + node_fn_name(name)
        + "(state).await\n        .context(\"Failed to execute node '"@ + name + "'\")?;"@
}

/// The invocations of the nodes of `order`, in order.
pub open spec fn invocations(order: Seq<Seq<char>>) -> Seq<Seq<char>> {
    Seq::new(order.len(), |i: int| invocation(order[i]))
}

/// The body of a routine that runs the nodes of `order` one after another and
/// then ends.
pub open spec fn linear_text(order: Seq<Seq<char>>) -> Seq<char> {
    joined(invocations(order), "\n\n"@)
}

/// The arm that sends the branch `label` to `target`: out of the loop where the
/// target ends the workflow, else on to the target.
pub open spec fn branch_arm(label: Seq<char>, target: Seq<char>) -> Seq<char> {
    if terminates(target) {
        "                    \""@ + label + "\" => break,\n"@
    } else {
        "                    \""@ + label + "\" => \""@ + target + "\",\n"@
    }
}

/// The arms of the branches, in order.
pub open spec fn branch_arms(branches: Seq<(Seq<char>, Seq<char>)>) -> Seq<Seq<char>> {
    Seq::new(branches.len(), |i: int| branch_arm(branches[i].0, branches[i].1))
}

/// What a node with the conditional dispatch `d` does after its action: it asks
/// the routing routine of the dispatch for a label and follows the branch of
/// that label; a label without a branch stops the generated program with an
/// error.
pub open spec fn dispatch_step(name: Seq<char>, d: DispatchModel) -> Seq<char> {
    "                // Conditional routing from "@ + name
        + "\n                current_node = match "@ + route_fn_name(d.source)
        + "(&state) {\n"@ + concat(branch_arms(d.branches))
        + "                    _ => anyhow::bail!(\"Unknown routing condition\"),\n                };\n            }\n"@
}

/// What a node without a conditional dispatch does after its action: it leaves
/// the loop where no edge leaves it or its edge ends the workflow, else it goes
/// on to where its edge leads.
pub open spec fn edge_step(g: GraphModel, name: Seq<char>) -> Seq<char> {
    match successor(g, name) {
        Some(target) => if terminates(target) {
            "                break;\n            }\n"@
        } else {
            "                current_node = \""@ + target + "\";\n            }\n"@
        },
        None => "                break;\n            }\n"@,
    }
}

/// The arm of the dispatch loop for the node called `name`: the node's action,
/// then its conditional dispatch where it has one, else its unconditional edge.
pub open spec fn node_arm(g: GraphModel, name: Seq<char>) -> Seq<char> {
    "            \""@ + name + "\" => {\n                tracing::debug!(\"Executing node: "@
        + name + "\");\n                state = "@ + node_fn_name(name)
        + "(state).await\n                    .context(\"Failed to execute node '"@ + name
        + "'\")?;\n\n"@ + if dispatches(g, name) {
        dispatch_step(name, g.dispatch[dispatch_from(g, name, 0)])
    } else {
        edge_step(g, name)
    }
}

/// The arms of the declared nodes, in the order of their declaration.
pub open spec fn node_arms(g: GraphModel) -> Seq<Seq<char>> {
    Seq::new(g.nodes.len(), |i: int| node_arm(g, g.nodes[i].name))
}

/// The arm of the dispatch loop for the start marker, where the workflow starts
/// there: the marker has no action, and the arm follows the unconditional edge
/// that leaves it.
pub open spec fn start_arm(g: GraphModel) -> Seq<char> {
    if starts_at_marker(g) {
        "            \"__start__\" | \"START\" => {\n"@ + edge_step(g, g.entry_point)
    } else {
        Seq::empty()
    }
}

/// The body of a routine that keeps the current node in a cursor, starting at
/// the entry point, and loops without bound over one arm per declared node,
/// until an arm leaves the loop.
pub open spec fn dispatch_loop(g: GraphModel) -> Seq<char> {
    "    // Start with entry point\n    let mut current_node = \""@ + g.entry_point
        + "\";\n\n    loop {\n        match current_node {\n"@ + concat(node_arms(g))
        + start_arm(g)
        + "            \"__end__\" | \"END\" => break,\n            _ => anyhow::bail!(\"Unknown node: {}\", current_node),\n        }\n    }\n"@
}

/// The body of the routine that runs a graph with conditional dispatch. There is
/// none where the graph refers to a name that is neither a declared node nor a
/// sentinel.
pub open spec fn conditional_execution(g: GraphModel) -> Result<Seq<char>, ErrorModel> {
    match dangling(g) {
        Some(name) => Err(ErrorModel::DanglingReference(name)),
        None => Ok(dispatch_loop(g)),
    }
}

/// The body of the routine that runs the nodes of a graph without conditional
/// dispatch one after another. There is none where the graph refers to a name
/// that is neither a declared node nor a sentinel, nor where the edges close a
/// cycle.
pub open spec fn linear_execution(g: GraphModel) -> Result<Seq<char>, ErrorModel> {
    match dangling(g) {
        Some(name) => Err(ErrorModel::DanglingReference(name)),
        None => match linear_order(g) {
            Ok(order) => Ok(linear_text(order)),
            Err(name) => Err(ErrorModel::NonTerminatingLinearCycle(name)),
        },
    }
}

/// The body of the routine that runs the graph: the dispatch loop where the graph
/// has a conditional dispatch, else the nodes one after another.
pub open spec fn execution_logic(g: GraphModel) -> Result<Seq<char>, ErrorModel> {
    if g.dispatch.len() > 0 {
        conditional_execution(g)
    } else {
        linear_execution(g)
    }
}

/// The routine that runs the graph, around the given body.
pub open spec fn executor_text(entry: Seq<char>, logic: Seq<char>) -> Seq<char> {
    "/// Execute the compiled graph\nasync fn execute_graph(mut state: GraphState) -> Result<GraphState> {\n    tracing::info!(\"Starting graph execution from entry point: "@
        + entry + "\");\n\n"@ + logic
        + "\n\n    tracing::info!(\"Graph execution completed successfully\");\n    Ok(state)\n}"@
}

/// The body of a routine that runs the nodes of `order` one after another.
pub fn generate_invocations(order: &Vec<String>) -> (out: String)
    ensures
        out@ == linear_text(strings(order@)),
{
    let mut calls: Vec<String> = Vec::new();
    let mut i: usize = 0;
    while i < order.len()
        invariant
            i <= order.len(),
            calls.len() == i,
            forall|k: int| 0 <= k < i ==> (#[trigger] calls@[k])@ == invocation(order@[k]@),
        decreases order.len() - i,
    {
        let name = order[i].as_str();
        let mut call = String::from_str("    // Execute node: ");
        call.append(name);
        call.append("\n    state = ");
        call.append(node_function_name(name).as_str());
        call.append("(state).await\n        .context(\"Failed to execute node '");
        call.append(name);
        call.append("'\")?;");
        calls.push(call);
        i += 1;
    }
    assert(strings(calls@) =~= invocations(strings(order@)));
    join(&calls, "\n\n")
}

/// What the node called `name` does after its action, following the dispatch at
/// place `d` of the table.
fn generate_dispatch_step(g: &GraphInfo, name: &str, d: usize) -> (out: String)
    requires
        d < g.conditional_edges.len(),
    ensures
        out@ == dispatch_step(name@, g@.dispatch[d as int]),
{
    let branches = &g.conditional_edges[d].1.branches;
    let ghost model = g@.dispatch[d as int].branches;
    let mut arms: Vec<String> = Vec::new();
    let mut i: usize = 0;
    while i < branches.len()
        invariant
            i <= branches.len(),
            arms.len() == i,
            model.len() == branches.len(),
            forall|k: int| 0 <= k < branches.len() ==> model[k] == ((#[trigger] branches@[k]).0@, branches@[k].1@),
            forall|k: int| 0 <= k < i ==> (#[trigger] arms@[k])@ == branch_arm(model[k].0, model[k].1),
        decreases branches.len() - i,
    {
        let label = branches[i].0.as_str();
        let target = branches[i].1.as_str();
        let mut arm = String::from_str("                    \"");
        arm.append(label);
        if is_end(target) {
            arm.append("\" => break,\n");
        } else {
            arm.append("\" => \"");
            arm.append(target);
            arm.append("\",\n");
        }
        arms.push(arm);
        i += 1;
    }
    assert(strings(arms@) =~= branch_arms(model));
    let mut out = String::from_str("                // Conditional routing from ");
    out.append(name);
    out.append("\n                current_node = match ");
    out.append(route_function_name(g.conditional_edges[d].0.as_str()).as_str());
    out.append("(&state) {\n");
    out.append(concat_all(&arms).as_str());
    out.append(
        "                    _ => anyhow::bail!(\"Unknown routing condition\"),\n                };\n            }\n",
    );
    out
}

/// What the node called `name` does after its action, following its
/// unconditional edge.
fn generate_edge_step(g: &GraphInfo, name: &str) -> (out: String)
    ensures
        out@ == edge_step(g@, name@),
{
    let k = g.find_edge(name);
    if k < g.edges.len() && !is_end(g.edges[k].to.as_str()) {
        let mut out = String::from_str("                current_node = \"");
        out.append(g.edges[k].to.as_str());
        out.append("\";\n            }\n");
        out
    } else {
        String::from_str("                break;\n            }\n")
    }
}

/// The arm of the dispatch loop for the node called `name`.
fn generate_node_arm(g: &GraphInfo, name: &str) -> (out: String)
    ensures
        out@ == node_arm(g@, name@),
{
    let mut out = String::from_str("            \"");
    out.append(name);
    out.append("\" => {\n                tracing::debug!(\"Executing node: ");
    out.append(name);
    out.append("\");\n                state = ");
    out.append(node_function_name(name).as_str());
    out.append("(state).await\n                    .context(\"Failed to execute node '");
    out.append(name);
    out.append("'\")?;\n\n");
    let d = g.find_dispatch(name);
    let step = if d < g.conditional_edges.len() {
        generate_dispatch_step(g, name, d)
    } else {
        generate_edge_step(g, name)
    };
    out.append(step.as_str());
    out
}

/// The body of the dispatch loop of the graph, whatever the graph refers to.
fn generate_dispatch_loop(g: &GraphInfo) -> (out: String)
    ensures
        out@ == dispatch_loop(g@),
{
    let mut arms: Vec<String> = Vec::new();
    let mut i: usize = 0;
    while i < g.nodes.len()
        invariant
            i <= g.nodes.len(),
            arms.len() == i,
            forall|k: int| 0 <= k < i ==> (#[trigger] arms@[k])@ == node_arm(g@, g@.nodes[k].name),
        decreases g.nodes.len() - i,
    {
        arms.push(generate_node_arm(g, g.nodes[i].name.as_str()));
        i += 1;
    }
    assert(strings(arms@) =~= node_arms(g@));
    let mut out = String::from_str("    // Start with entry point\n    let mut current_node = \"");
    out.append(g.entry_point.as_str());
    out.append("\";\n\n    loop {\n        match current_node {\n");
    out.append(concat_all(&arms).as_str());
    let ghost before = out@;
    if at_start_marker(g) {
        let mut arm = String::from_str("            \"__start__\" | \"START\" => {\n");
        arm.append(generate_edge_step(g, g.entry_point.as_str()).as_str());
        out.append(arm.as_str());
    } else {
        assert(out@ =~= before + Seq::<char>::empty());
    }
    out.append(
        "            \"__end__\" | \"END\" => break,\n            _ => anyhow::bail!(\"Unknown node: {}\", current_node),\n        }\n    }\n",
    );
    out
}

/// The body of the routine that runs a graph with conditional dispatch.
pub fn generate_conditional_execution(g: &GraphInfo) -> (r: Result<String, SynthesisError>)
    ensures
        match r {
            Ok(out) => conditional_execution(g@) == Ok::<Seq<char>, ErrorModel>(out@),
            Err(e) => conditional_execution(g@) == Err::<Seq<char>, ErrorModel>(e@),
        },
{
    match find_dangling(g) {
        Some(name) => Err(SynthesisError::DanglingReference(name)),
        None => Ok(generate_dispatch_loop(g)),
    }
}

/// The body of the routine that runs the nodes of a graph without conditional
/// dispatch one after another.
pub fn generate_linear_execution(g: &GraphInfo) -> (r: Result<String, SynthesisError>)
    ensures
        match r {
            Ok(out) => linear_execution(g@) == Ok::<Seq<char>, ErrorModel>(out@),
            Err(e) => linear_execution(g@) == Err::<Seq<char>, ErrorModel>(e@),
        },
{
    match find_dangling(g) {
        Some(name) => Err(SynthesisError::DanglingReference(name)),
        None => match linear_chain(g) {
            Ok(order) => Ok(generate_invocations(&order)),
            Err(name) => Err(SynthesisError::NonTerminatingLinearCycle(name)),
        },
    }
}

/// The body of the routine that runs the graph.
pub fn generate_execution_logic(g: &GraphInfo) -> (r: Result<String, SynthesisError>)
    ensures
        match r {
            Ok(out) => execution_logic(g@) == Ok::<Seq<char>, ErrorModel>(out@),
            Err(e) => execution_logic(g@) == Err::<Seq<char>, ErrorModel>(e@),
        },
{
    if g.conditional_edges.len() > 0 {
        generate_conditional_execution(g)
    } else {
        generate_linear_execution(g)
    }
}

/// The routine that runs the graph, around the given body.
pub fn generate_executor(entry: &str, logic: &str) -> (out: String)
    ensures
        out@ == executor_text(entry@, logic@),
{
    let mut out = String::from_str(
        "/// Execute the compiled graph\nasync fn execute_graph(mut state: GraphState) -> Result<GraphState> {\n    tracing::info!(\"Starting graph execution from entry point: ",
    );
    out.append(entry);
    out.append("\");\n\n");
    out.append(logic);
    out.append(
        "\n\n    tracing::info!(\"Graph execution completed successfully\");\n    Ok(state)\n}",
    );
    out
}

/// Where a branch leads is one of the names that the graph refers to.
pub proof fn lemma_branch_is_reference(g: GraphModel, d: int, b: int)
    requires
        0 <= d < g.dispatch.len(),
        0 <= b < g.dispatch[d].branches.len(),
    ensures
        references(g).contains(g.dispatch[d].branches[b].1),
{
    lemma_branch_in_targets(g, g.dispatch.len(), d, b);
    let targets = dispatch_targets(g, g.dispatch.len());
    let k = choose|k: int| 0 <= k < targets.len() && targets[k] == g.dispatch[d].branches[b].1;
    let before = seq![g.entry_point] + edge_targets(g);
    assert(references(g)[before.len() + k] == targets[k]);
}

proof fn lemma_branch_in_targets(g: GraphModel, n: nat, d: int, b: int)
    requires
        0 <= d < n <= g.dispatch.len(),
        0 <= b < g.dispatch[d].branches.len(),
    ensures
        dispatch_targets(g, n).contains(g.dispatch[d].branches[b].1),
    decreases n,
{
    let before = dispatch_targets(g, (n - 1) as nat);
    let last = branch_targets(g.dispatch[n - 1]);
    if d == n - 1 {
        assert(last[b] == g.dispatch[d].branches[b].1);
        assert(dispatch_targets(g, n)[before.len() + b] == last[b]);
    } else {
        lemma_branch_in_targets(g, (n - 1) as nat, d, b);
        let k = choose|k: int| 0 <= k < before.len() && before[k] == g.dispatch[d].branches[b].1;
        assert(dispatch_targets(g, n)[k] == before[k]);
    }
}

/// Where an edge leads is one of the names that the graph refers to.
pub proof fn lemma_edge_is_reference(g: GraphModel, e: int)
    requires
        0 <= e < g.edges.len(),
    ensures
        references(g).contains(g.edges[e].to),
{
    assert(references(g)[1 + e] == edge_targets(g)[e]);
}

/// A graph that refers to a name that is neither a declared node nor a sentinel
/// has a dangling reference, and its dangling reference is such a name.
pub proof fn lemma_unresolved_is_dangling(g: GraphModel, name: Seq<char>)
    requires
        references(g).contains(name),
        !resolves(g, name),
    ensures
        dangling(g) is Some,
        !resolves(g, dangling(g)->0),
{
    lemma_unresolved_from(g, references(g), 0);
}

/// The chain of unconditional edges holds each node once, holds declared nodes
/// only, and starts with the nodes that had run before. Where it fails, it fails
/// at a declared node that had run before or ran in the chain.
pub proof fn lemma_chain_is_simple(g: GraphModel, cur: Seq<char>, visited: Seq<Seq<char>>)
    requires
        visited.no_duplicates(),
        forall|i: int| 0 <= i < visited.len() ==> declares(g, #[trigger] visited[i]),
    ensures
        match chain_from(g, cur, visited) {
            Ok(order) => {
                &&& order.no_duplicates()
                &&& forall|i: int| 0 <= i < order.len() ==> declares(g, #[trigger] order[i])
                &&& visited.len() <= order.len()
                &&& order.subrange(0, visited.len() as int) == visited
            },
            Err(name) => declares(g, name),
        },
    decreases unvisited(node_names(g), visited),
{
    if declares(g, cur) && !visited.contains(cur) {
        lemma_declared_is_named(g, cur);
        lemma_visit_decreases(node_names(g), visited, cur);
        let more = visited.push(cur);
        assert(more.no_duplicates()) by {
            assert forall|i: int, j: int| 0 <= i < more.len() && 0 <= j < more.len() && i != j implies more[i] != more[j] by {
                if i < visited.len() && j < visited.len() {
                    assert(more[i] == visited[i] && more[j] == visited[j]);
                } else if i < visited.len() {
                    assert(visited[i] != cur);
                } else {
                    assert(visited[j] != cur);
                }
            }
        }
        assert forall|i: int| 0 <= i < more.len() implies declares(g, #[trigger] more[i]) by {
            if i < visited.len() {
                assert(more[i] == visited[i]);
            }
        }
        assert(more.subrange(0, visited.len() as int) =~= visited);
        match successor(g, cur) {
            None => {},
            Some(next) => if !terminates(next) {
                lemma_chain_is_simple(g, next, more);
                match chain_from(g, next, more) {
                    Ok(order) => {
                        assert(order.subrange(0, visited.len() as int) =~= order.subrange(
                            0,
                            more.len() as int,
                        ).subrange(0, visited.len() as int));
                    },
                    Err(_) => {},
                }
            },
        }
    } else if !declares(g, cur) {
        assert(visited.subrange(0, visited.len() as int) =~= visited);
    }
}

/// Each node of the chain but the last is followed by the node that its first
/// unconditional edge leads to.
pub proof fn lemma_chain_follows_edges(g: GraphModel, cur: Seq<char>, visited: Seq<Seq<char>>, i: int)
    requires
        chain_from(g, cur, visited) is Ok,
        visited.len() <= i,
        i + 1 < chain_from(g, cur, visited)->Ok_0.len(),
    ensures
        successor(g, chain_from(g, cur, visited)->Ok_0[i]) == Some(
            chain_from(g, cur, visited)->Ok_0[i + 1],
        ),
    decreases unvisited(node_names(g), visited),
{
    if declares(g, cur) && !visited.contains(cur) {
        lemma_declared_is_named(g, cur);
        lemma_visit_decreases(node_names(g), visited, cur);
        let more = visited.push(cur);
        match successor(g, cur) {
            None => {},
            Some(next) => if !terminates(next) {
                lemma_chain_starts(g, next, more);
                let order = chain_from(g, next, more)->Ok_0;
                if i == visited.len() {
                    assert(order[i] == more[i]);
                    assert(order[i + 1] == next);
                } else {
                    lemma_chain_follows_edges(g, next, more, i);
                }
            },
        }
    }
}

/// The chain starts with the nodes that had run before; where it is longer, the
/// next node is the one at which the walk stands, which is a declared node.
pub proof fn lemma_chain_starts(g: GraphModel, cur: Seq<char>, visited: Seq<Seq<char>>)
    requires
        chain_from(g, cur, visited) is Ok,
    ensures
        visited.len() <= chain_from(g, cur, visited)->Ok_0.len(),
        forall|i: int| 0 <= i < visited.len() ==> chain_from(g, cur, visited)->Ok_0[i] == visited[i],
        visited.len() < chain_from(g, cur, visited)->Ok_0.len() ==> declares(g, cur) && chain_from(
            g,
            cur,
            visited,
        )->Ok_0[visited.len() as int] == cur,
    decreases unvisited(node_names(g), visited),
{
    if declares(g, cur) && !visited.contains(cur) {
        lemma_declared_is_named(g, cur);
        lemma_visit_decreases(node_names(g), visited, cur);
        let more = visited.push(cur);
        match successor(g, cur) {
            None => {},
            Some(next) => if !terminates(next) {
                lemma_chain_starts(g, next, more);
                let order = chain_from(g, next, more)->Ok_0;
                assert forall|i: int| 0 <= i < visited.len() implies order[i] == visited[i] by {
                    assert(order[i] == more[i]);
                }
                assert(order[visited.len() as int] == more[visited.len() as int]);
            },
        }
    }
}

/// The targets at which the workflow goes on: those that are no spelling of the
/// end, in order.
pub open spec fn live(targets: Seq<Seq<char>>) -> Seq<Seq<char>>
    decreases targets.len(),
{
    if targets.len() == 0 {
        Seq::empty()
    } else if terminates(targets.last()) {
        live(targets.drop_last())
    } else {
        live(targets.drop_last()).push(targets.last())
    }
}

/// Where the workflow can go on from the node called `name`: along the branches
/// of its conditional dispatch where it has one, else along its first
/// unconditional edge; in either case not where the transition ends the
/// workflow.
pub open spec fn next_of(g: GraphModel, name: Seq<char>) -> Seq<Seq<char>> {
    if dispatches(g, name) {
        live(branch_targets(g.dispatch[dispatch_from(g, name, 0)]))
    } else {
        match successor(g, name) {
            Some(target) => if terminates(target) {
                Seq::empty()
            } else {
                seq![target]
            },
            None => Seq::empty(),
        }
    }
}

/// The nodes found when the graph is searched from the names of `pending`, the
/// last of them first, after those of `visited` were found: each declared node
/// once, in the order in which the search comes to it.
pub open spec fn reached(g: GraphModel, pending: Seq<Seq<char>>, visited: Seq<Seq<char>>) -> Seq<
    Seq<char>,
>
    decreases unvisited(node_names(g), visited), pending.len(),
{
    if pending.len() == 0 {
        visited
    } else {
        let cur = pending.last();
        let rest = pending.drop_last();
        if !declares(g, cur) || visited.contains(cur) {
            reached(g, rest, visited)
        } else {
            proof {
                lemma_declared_is_named(g, cur);
                lemma_visit_decreases(node_names(g), visited, cur);
            }
            reached(g, rest + next_of(g, cur), visited.push(cur))
        }
    }
}

/// The nodes that the synthesized program can run: without a conditional
/// dispatch, those that run one after another; else those found when the graph is
/// searched from where the first action is looked for.
pub open spec fn reachable(g: GraphModel) -> Seq<Seq<char>> {
    if g.dispatch.len() > 0 {
        match first_step(g) {
            Some(cur) => reached(g, seq![cur], Seq::empty()),
            None => Seq::empty(),
        }
    } else {
        match linear_order(g) {
            Ok(order) => order,
            Err(_) => Seq::empty(),
        }
    }
}

/// The nodes that the synthesized program can run.
pub fn reachable_nodes(g: &GraphInfo) -> (out: Vec<String>)
    ensures
        strings(out@) == reachable(g@),
{
    if g.conditional_edges.len() == 0 {
        return match linear_chain(g) {
            Ok(order) => order,
            Err(_) => {
                let none: Vec<String> = Vec::new();
                assert(strings(none@) =~= Seq::<Seq<char>>::empty());
                none
            },
        };
    }
    let mut visited: Vec<String> = Vec::new();
    let mut pending: Vec<String> = Vec::new();
    assert(strings(visited@) =~= Seq::<Seq<char>>::empty());
    match entry_of(g) {
        Some(cur) => {
            pending.push(cur);
            assert(strings(pending@) =~= seq![first_step(g@)->0]);
        },
        None => {
            return visited;
        },
    }
    while pending.len() > 0
        invariant
            g.conditional_edges.len() > 0,
            reached(g@, strings(pending@), strings(visited@)) == reachable(g@),
        decreases unvisited(node_names(g@), strings(visited@)), pending.len(),
    {
        let ghost before = strings(pending@);
        let ghost seen = strings(visited@);
        assert(before.last() == pending@[pending.len() - 1]@);
        let cur = pending.pop().unwrap();
        assert(strings(pending@) =~= before.drop_last());
        if g.find_node(cur.as_str()) < g.nodes.len() && !holds(&visited, cur.as_str()) {
            proof {
                lemma_declared_is_named(g@, cur@);
                lemma_visit_decreases(node_names(g@), seen, cur@);
            }
            let ghost rest = strings(pending@);
            let d = g.find_dispatch(cur.as_str());
            if d < g.conditional_edges.len() {
                let branches = &g.conditional_edges[d].1.branches;
                let ghost targets = branch_targets(g@.dispatch[d as int]);
                let mut b: usize = 0;
                assert(targets.take(0) =~= Seq::<Seq<char>>::empty());
                assert(strings(pending@) =~= rest + live(targets.take(0)));
                while b < branches.len()
                    invariant
                        b <= branches.len(),
                        branches.len() == targets.len(),
                        forall|k: int| 0 <= k < branches.len() ==> (#[trigger] branches@[k]).1@ == targets[k],
                        strings(pending@) == rest + live(targets.take(b as int)),
                    decreases branches.len() - b,
                {
                    let ghost sofar = strings(pending@);
                    let ghost upto = targets.take(b + 1);
                    assert(upto.drop_last() =~= targets.take(b as int));
                    assert(upto.last() == targets[b as int]);
                    if !is_end(branches[b].1.as_str()) {
                        pending.push(branches[b].1.clone());
                        assert(strings(pending@) =~= sofar.push(targets[b as int]));
                        assert(strings(pending@) =~= rest + live(upto));
                    }
                    b += 1;
                }
                assert(targets.take(targets.len() as int) =~= targets);
            } else {
                let k = g.find_edge(cur.as_str());
                if k < g.edges.len() && !is_end(g.edges[k].to.as_str()) {
                    pending.push(g.edges[k].to.clone());
                    assert(strings(pending@) =~= rest + seq![g@.edges[k as int].to]);
                } else {
                    assert(strings(pending@) =~= rest + Seq::<Seq<char>>::empty());
                }
            }
            visited.push(cur);
            assert(strings(visited@) =~= seen.push(cur@));
        }
    }
    visited
}

/// What the search finds holds the nodes that were found before, then each
/// declared node of `pending`, and with each node that it newly finds every
/// declared node that the workflow can go on to from there.
pub proof fn lemma_reached_is_closed(g: GraphModel, pending: Seq<Seq<char>>, visited: Seq<Seq<char>>)
    ensures
        forall|i: int| 0 <= i < visited.len() ==> reached(g, pending, visited).contains(#[trigger] visited[i]),
        forall|i: int| 0 <= i < pending.len() && declares(g, pending[i]) ==> reached(g, pending, visited).contains(#[trigger] pending[i]),
        forall|n: Seq<char>, t: Seq<char>| #![trigger reached(g, pending, visited).contains(n), next_of(g, n).contains(t)]
            reached(g, pending, visited).contains(n) && !visited.contains(n) && next_of(g, n).contains(t) && declares(g, t)
            ==> reached(g, pending, visited).contains(t),
    decreases unvisited(node_names(g), visited), pending.len(),
{
    let found = reached(g, pending, visited);
    if pending.len() == 0 {
        assert(found == visited);
    } else {
        let cur = pending.last();
        let rest = pending.drop_last();
        if !declares(g, cur) || visited.contains(cur) {
            lemma_reached_is_closed(g, rest, visited);
            assert forall|i: int| 0 <= i < pending.len() && declares(g, pending[i]) implies found.contains(#[trigger] pending[i]) by {
                if i < rest.len() {
                    assert(pending[i] == rest[i]);
                } else {
                    let k = choose|k: int| 0 <= k < visited.len() && visited[k] == cur;
                    assert(found.contains(visited[k]));
                }
            }
            assert(found == reached(g, rest, visited));
            assert forall|n: Seq<char>, t: Seq<char>|
                found.contains(n) && !visited.contains(n) && next_of(g, n).contains(t) && declares(g, t)
                implies found.contains(t) by {
                assert(reached(g, rest, visited).contains(n));
            }
        } else {
            lemma_declared_is_named(g, cur);
            lemma_visit_decreases(node_names(g), visited, cur);
            let more = visited.push(cur);
            let next = rest + next_of(g, cur);
            lemma_reached_is_closed(g, next, more);
            assert(more[visited.len() as int] == cur);
            assert(found.contains(cur));
            assert forall|i: int| 0 <= i < visited.len() implies found.contains(#[trigger] visited[i]) by {
                assert(more[i] == visited[i]);
            }
            assert forall|i: int| 0 <= i < pending.len() && declares(g, pending[i]) implies found.contains(#[trigger] pending[i]) by {
                if i < rest.len() {
                    assert(next[i] == pending[i]);
                }
            }
            assert forall|n: Seq<char>, t: Seq<char>|
                found.contains(n) && !visited.contains(n) && next_of(g, n).contains(t) && declares(g, t)
                implies found.contains(t) by {
                if n == cur {
                    let k = choose|k: int| 0 <= k < next_of(g, cur).len() && next_of(g, cur)[k] == t;
                    assert(next[rest.len() + k] == t);
                } else {
                    assert(!more.contains(n)) by {
                        if more.contains(n) {
                            let k = choose|k: int| 0 <= k < more.len() && more[k] == n;
                            if k < visited.len() {
                                assert(visited[k] == n);
                            }
                        }
                    }
                }
            }
        }
    }
}

/// What the search finds holds each node once and holds declared nodes only,
/// where that holds of the nodes that were found before.
pub proof fn lemma_reached_is_simple(g: GraphModel, pending: Seq<Seq<char>>, visited: Seq<Seq<char>>)
    requires
        visited.no_duplicates(),
        forall|i: int| 0 <= i < visited.len() ==> declares(g, #[trigger] visited[i]),
    ensures
        reached(g, pending, visited).no_duplicates(),
        forall|i: int| 0 <= i < reached(g, pending, visited).len() ==> declares(g, #[trigger] reached(g, pending, visited)[i]),
    decreases unvisited(node_names(g), visited), pending.len(),
{
    if pending.len() > 0 {
        let cur = pending.last();
        let rest = pending.drop_last();
        if !declares(g, cur) || visited.contains(cur) {
            lemma_reached_is_simple(g, rest, visited);
        } else {
            lemma_declared_is_named(g, cur);
            lemma_visit_decreases(node_names(g), visited, cur);
            let more = visited.push(cur);
            assert forall|i: int, j: int| 0 <= i < more.len() && 0 <= j < more.len() && i != j implies more[i] != more[j] by {
                if i < visited.len() && j < visited.len() {
                    assert(more[i] == visited[i] && more[j] == visited[j]);
                } else if i < visited.len() {
                    assert(visited[i] != cur);
                } else {
                    assert(visited[j] != cur);
                }
            }
            assert forall|i: int| 0 <= i < more.len() implies declares(g, #[trigger] more[i]) by {
                if i < visited.len() {
                    assert(more[i] == visited[i]);
                }
            }
            lemma_reached_is_simple(g, rest + next_of(g, cur), more);
        }
    }
}

/// What the search finds starts with the nodes that were found before.
pub proof fn lemma_reached_extends(g: GraphModel, pending: Seq<Seq<char>>, visited: Seq<Seq<char>>)
    ensures
        visited.len() <= reached(g, pending, visited).len(),
        forall|i: int| 0 <= i < visited.len() ==> reached(g, pending, visited)[i] == visited[i],
    decreases unvisited(node_names(g), visited), pending.len(),
{
    if pending.len() > 0 {
        let cur = pending.last();
        let rest = pending.drop_last();
        if !declares(g, cur) || visited.contains(cur) {
            lemma_reached_extends(g, rest, visited);
        } else {
            lemma_declared_is_named(g, cur);
            lemma_visit_decreases(node_names(g), visited, cur);
            let more = visited.push(cur);
            lemma_reached_extends(g, rest + next_of(g, cur), more);
            assert forall|i: int| 0 <= i < visited.len() implies reached(g, pending, visited)[i]
                == visited[i] by {
                assert(more[i] == visited[i]);
            }
        }
    }
}

/// Each node that the search newly finds is one of `pending`, or one that the
/// workflow can go on to from a node that the search found earlier: the search
/// finds no node that cannot be reached.
pub proof fn lemma_reached_has_origin(g: GraphModel, pending: Seq<Seq<char>>, visited: Seq<Seq<char>>, i: int)
    requires
        visited.len() <= i < reached(g, pending, visited).len(),
    ensures
        pending.contains(reached(g, pending, visited)[i]) || exists|j: int|
            visited.len() <= j < i && #[trigger] next_of(g, reached(g, pending, visited)[j]).contains(
                reached(g, pending, visited)[i],
            ),
    decreases unvisited(node_names(g), visited), pending.len(),
{
    let found = reached(g, pending, visited);
    if pending.len() > 0 {
        let cur = pending.last();
        let rest = pending.drop_last();
        if !declares(g, cur) || visited.contains(cur) {
            lemma_reached_has_origin(g, rest, visited, i);
            if rest.contains(found[i]) {
                let k = choose|k: int| 0 <= k < rest.len() && rest[k] == found[i];
                assert(pending[k] == found[i]);
            }
        } else {
            lemma_declared_is_named(g, cur);
            lemma_visit_decreases(node_names(g), visited, cur);
            let more = visited.push(cur);
            let next = rest + next_of(g, cur);
            lemma_reached_extends(g, next, more);
            assert(found[visited.len() as int] == more[visited.len() as int]);
            if i == visited.len() {
                assert(pending[pending.len() - 1] == cur);
            } else {
                lemma_reached_has_origin(g, next, more, i);
                if next.contains(found[i]) {
                    let k = choose|k: int| 0 <= k < next.len() && next[k] == found[i];
                    if k < rest.len() {
                        assert(pending[k] == found[i]);
                    } else {
                        assert(next_of(g, cur)[k - rest.len()] == found[i]);
                        assert(next_of(g, found[visited.len() as int]).contains(found[i]));
                    }
                } else {
                    let j = choose|j: int|
                        more.len() <= j < i && #[trigger] next_of(g, found[j]).contains(found[i]);
                    assert(visited.len() <= j < i && next_of(g, found[j]).contains(found[i]));
                }
            }
        }
    }
}

/// Every spelling of the end leaves the loop in the same way: the arm of a
/// branch that leads to the end, and the step of a node whose edge leads to the
/// end, do not depend on how the end is spelled, nor on what the graph
/// declares.
pub proof fn lemma_end_spellings_agree(g: GraphModel, name: Seq<char>, label: Seq<char>, target: Seq<char>)
    requires
        is_end_name(target),
    ensures
        branch_arm(label, target) == "                    \""@ + label + "\" => break,\n"@,
        successor(g, name) == Some(target) ==> edge_step(g, name)
            == "                break;\n            }\n"@,
{
}

/// The dispatch loop sets the cursor to the entry point as it is written,
/// before anything else.
pub proof fn lemma_cursor_starts_at_entry(g: GraphModel)
    ensures
        ({
            let opening = "    // Start with entry point\n    let mut current_node = \""@
                + g.entry_point + "\";\n\n    loop {\n        match current_node {\n"@;
            opening.len() <= dispatch_loop(g).len() && dispatch_loop(g).subrange(
                0,
                opening.len() as int,
            ) == opening
        }),
{
    let opening = "    // Start with entry point\n    let mut current_node = \""@ + g.entry_point
        + "\";\n\n    loop {\n        match current_node {\n"@;
    let rest = concat(node_arms(g)) + start_arm(g)
        + "            \"__end__\" | \"END\" => break,\n            _ => anyhow::bail!(\"Unknown node: {}\", current_node),\n        }\n    }\n"@;
    assert(dispatch_loop(g) =~= opening + rest);
    assert((opening + rest).subrange(0, opening.len() as int) =~= opening);
}

/// A graph that refers to a name that is neither a declared node nor a sentinel
/// gets no routine of either kind: each of them fails with the first such name.
pub proof fn lemma_dangling_is_refused(g: GraphModel)
    requires
        dangling(g) is Some,
    ensures
        conditional_execution(g) == Err::<Seq<char>, ErrorModel>(
            ErrorModel::DanglingReference(dangling(g)->0),
        ),
        linear_execution(g) == Err::<Seq<char>, ErrorModel>(
            ErrorModel::DanglingReference(dangling(g)->0),
        ),
        execution_logic(g) == Err::<Seq<char>, ErrorModel>(
            ErrorModel::DanglingReference(dangling(g)->0),
        ),
{
}

/// A graph whose every reference resolves always gets a dispatch loop.
pub proof fn lemma_resolved_graph_gets_a_loop(g: GraphModel)
    requires
        dangling(g) is None,
    ensures
        conditional_execution(g) == Ok::<Seq<char>, ErrorModel>(dispatch_loop(g)),
{
}

/// Whether two targets are the same but for the spelling of the end.
pub open spec fn same_target(a: Seq<char>, b: Seq<char>) -> bool {
    a == b || (is_end_name(a) && is_end_name(b))
}

/// Whether two graphs are the same but for the spelling of the end where an
/// edge or a branch leads to it.
pub open spec fn same_but_end_spelling(a: GraphModel, b: GraphModel) -> bool {
    &&& a.nodes == b.nodes
    &&& a.fields == b.fields
    &&& a.entry_point == b.entry_point
    &&& a.edges.len() == b.edges.len()
    &&& forall|i: int|
        0 <= i < a.edges.len() ==> (#[trigger] a.edges[i]).from == b.edges[i].from && same_target(
            a.edges[i].to,
            b.edges[i].to,
        )
    &&& a.dispatch.len() == b.dispatch.len()
    &&& forall|d: int|
        0 <= d < a.dispatch.len() ==> {
            &&& (#[trigger] a.dispatch[d]).source == b.dispatch[d].source
            &&& a.dispatch[d].condition_func == b.dispatch[d].condition_func
            &&& a.dispatch[d].branches.len() == b.dispatch[d].branches.len()
        }
    &&& forall|d: int, k: int|
        0 <= d < a.dispatch.len() && 0 <= k < a.dispatch[d].branches.len() ==> (
        #[trigger] a.dispatch[d].branches[k]).0 == b.dispatch[d].branches[k].0 && same_target(
            a.dispatch[d].branches[k].1,
            b.dispatch[d].branches[k].1,
        )
}

proof fn lemma_same_lookups(a: GraphModel, b: GraphModel, name: Seq<char>, i: int)
    requires
        same_but_end_spelling(a, b),
        0 <= i,
    ensures
        node_from(a, name, i) == node_from(b, name, i),
        edge_from(a, name, i) == edge_from(b, name, i),
        dispatch_from(a, name, i) == dispatch_from(b, name, i),
    decreases a.nodes.len() + a.edges.len() + a.dispatch.len() - i,
{
    if i < a.nodes.len() + a.edges.len() + a.dispatch.len() {
        lemma_same_lookups(a, b, name, i + 1);
        if i < a.edges.len() {
            assert(a.edges[i].from == b.edges[i].from);
        }
        if i < a.dispatch.len() {
            assert(a.dispatch[i].source == b.dispatch[i].source);
        }
    }
}

proof fn lemma_same_arm(a: GraphModel, b: GraphModel, name: Seq<char>)
    requires
        same_but_end_spelling(a, b),
    ensures
        node_arm(a, name) == node_arm(b, name),
        edge_step(a, name) == edge_step(b, name),
{
    lemma_same_lookups(a, b, name, 0);
    lemma_edge_from(a, name, 0);
    lemma_dispatch_from(a, name, 0);
    let e = edge_from(a, name, 0);
    if e < a.edges.len() {
        assert(a.edges[e].from == b.edges[e].from);
    }
    if dispatches(a, name) {
        let d = dispatch_from(a, name, 0);
        assert(a.dispatch[d].source == b.dispatch[d].source);
        let x = a.dispatch[d].branches;
        let y = b.dispatch[d].branches;
        assert forall|k: int| 0 <= k < x.len() implies branch_arms(x)[k] == branch_arms(y)[k] by {
            assert(a.dispatch[d].branches[k].0 == b.dispatch[d].branches[k].0);
        }
        assert(branch_arms(x) =~= branch_arms(y));
    }
}

proof fn lemma_same_dispatch_targets(a: GraphModel, b: GraphModel, n: nat)
    requires
        same_but_end_spelling(a, b),
        n <= a.dispatch.len(),
    ensures
        dispatch_targets(a, n).len() == dispatch_targets(b, n).len(),
        forall|i: int|
            0 <= i < dispatch_targets(a, n).len() ==> same_target(
                #[trigger] dispatch_targets(a, n)[i],
                dispatch_targets(b, n)[i],
            ),
    decreases n,
{
    if n > 0 {
        lemma_same_dispatch_targets(a, b, (n - 1) as nat);
        let before = dispatch_targets(a, (n - 1) as nat);
        let x = branch_targets(a.dispatch[n - 1]);
        let y = branch_targets(b.dispatch[n - 1]);
        assert(a.dispatch[n - 1].source == b.dispatch[n - 1].source);
        assert forall|i: int| 0 <= i < dispatch_targets(a, n).len() implies same_target(
            #[trigger] dispatch_targets(a, n)[i],
            dispatch_targets(b, n)[i],
        ) by {
            if i >= before.len() {
                let k = i - before.len();
                assert(dispatch_targets(a, n)[i] == x[k]);
                assert(dispatch_targets(b, n)[i] == y[k]);
                assert(a.dispatch[n - 1].branches[k].0 == b.dispatch[n - 1].branches[k].0);
            } else {
                assert(dispatch_targets(a, n)[i] == before[i]);
                assert(dispatch_targets(b, n)[i] == dispatch_targets(b, (n - 1) as nat)[i]);
            }
        }
    }
}

proof fn lemma_same_unresolved(a: GraphModel, b: GraphModel, x: Seq<Seq<char>>, y: Seq<Seq<char>>, i: int)
    requires
        same_but_end_spelling(a, b),
        x.len() == y.len(),
        forall|k: int| 0 <= k < x.len() ==> same_target(#[trigger] x[k], y[k]),
        0 <= i <= x.len(),
    ensures
        unresolved_from(a, x, i) == unresolved_from(b, y, i),
        unresolved_from(a, x, i) < x.len() ==> x[unresolved_from(a, x, i)] == y[unresolved_from(
            a,
            x,
            i,
        )],
    decreases x.len() - i,
{
    if i < x.len() {
        lemma_same_lookups(a, b, x[i], 0);
        lemma_same_lookups(a, b, y[i], 0);
        assert(same_target(x[i], y[i]));
        if resolves(a, x[i]) {
            lemma_same_unresolved(a, b, x, y, i + 1);
        }
    }
}

/// Two graphs that are the same but for the spelling of the end get the same
/// dispatch loop, and the same answer from the routine that makes it: every
/// spelling of the end ends the workflow, whatever the graphs declare.
pub proof fn lemma_end_spelling_is_immaterial(a: GraphModel, b: GraphModel)
    requires
        same_but_end_spelling(a, b),
    ensures
        dispatch_loop(a) == dispatch_loop(b),
        conditional_execution(a) == conditional_execution(b),
{
    assert forall|i: int| 0 <= i < a.nodes.len() implies node_arms(a)[i] == node_arms(b)[i] by {
        lemma_same_arm(a, b, a.nodes[i].name);
    }
    assert(node_arms(a) =~= node_arms(b));
    lemma_same_lookups(a, b, a.entry_point, 0);
    lemma_same_arm(a, b, a.entry_point);
    lemma_same_dispatch_targets(a, b, a.dispatch.len());
    let x = references(a);
    let y = references(b);
    assert forall|k: int| 0 <= k < x.len() implies same_target(#[trigger] x[k], y[k]) by {
        if 1 <= k < 1 + a.edges.len() {
            assert(x[k] == a.edges[k - 1].to);
            assert(y[k] == b.edges[k - 1].to);
            assert(a.edges[k - 1].from == b.edges[k - 1].from);
        } else if k >= 1 + a.edges.len() {
            let j = k - 1 - a.edges.len();
            assert(x[k] == dispatch_targets(a, a.dispatch.len())[j]);
            assert(y[k] == dispatch_targets(b, b.dispatch.len())[j]);
        }
    }
    lemma_same_unresolved(a, b, x, y, 0);
}

} // verus!
