//! Turns a graph into a program: synthesizes the parts, and assembles them
//! into one text.

use crate::control_flow::{
    conditional_execution, dangling, execution_logic, executor_text, generate_execution_logic,
    generate_executor, is_degraded, lemma_branch_is_reference, lemma_unresolved_is_dangling,
    linear_execution, linear_order, reachable, reachable_nodes,
};
use crate::diagnostics::{diagnostics, Diagnostic, DiagnosticModel, ErrorModel, SynthesisError};
use crate::document::{
    graph_from_json, graph_from_value, graph_of, graph_of_text, tree_of, JsonModel,
};
use crate::graph::{
    dispatch_from, dispatches, resolves, successor, EdgeInfo, GraphInfo, GraphModel,
};
use crate::scaffold::{
    generate_node_function, generate_routing_function, node_scaffold, routing_stub,
};
use crate::state_model::{collect_imports, generate_state_record, required_imports, state_record};
use crate::text::{concat, concat_all, holds, opt_str, prefix_lines, prefixed, strings};
use crate::type_mapping::{TargetType, TypeMapper};
use vstd::prelude::*;
use vstd::string::StringExecFns;

verus! {

/// A synthesized program, as a value of the mathematical model.
pub ghost struct ProgramModel {
    pub imports: Seq<Seq<char>>,
    pub state_record: Seq<char>,
    pub node_scaffolds: Seq<Seq<char>>,
    pub routing_stubs: Seq<Seq<char>>,
    pub dispatch_routine: Seq<char>,
    pub entry_function: Seq<char>,
    pub warnings: Seq<DiagnosticModel>,
}

/// The parts of the program that a graph is turned into, and what the synthesis
/// warns of.
#[derive(Debug)]
pub struct SynthesizedProgram {
    /// The paths that the state record needs imported.
    pub imports: Vec<String>,
    pub state_record: String,
    /// One action routine per node, in the order of the nodes.
    pub node_scaffolds: Vec<String>,
    /// One routing routine per conditional dispatch, in the order of the table.
    pub routing_stubs: Vec<String>,
    /// The routine that runs the graph.
    pub dispatch_routine: String,
    /// The public routine through which the program is entered.
    pub entry_function: String,
    pub warnings: Vec<Diagnostic>,
}

impl View for SynthesizedProgram {
    type V = ProgramModel;

    open spec fn view(&self) -> ProgramModel {
        ProgramModel {
            imports: strings(self.imports@),
            state_record: self.state_record@,
            node_scaffolds: strings(self.node_scaffolds@),
            routing_stubs: strings(self.routing_stubs@),
            dispatch_routine: self.dispatch_routine@,
            entry_function: self.entry_function@,
            warnings: diagnostics(self.warnings@),
        }
    }
}

/// The action routines of the nodes, in the order of the nodes.
pub open spec fn node_scaffolds(g: GraphModel) -> Seq<Seq<char>> {
    Seq::new(g.nodes.len(), |i: int| node_scaffold(g.nodes[i]))
}

/// Whether the dispatch at place `i` of the table is the first of its node: the
/// one that counts.
pub open spec fn is_first_dispatch(g: GraphModel, i: int) -> bool {
    dispatch_from(g, g.dispatch[i].source, 0) == i
}

/// The routing routines of the first `n` entries of the dispatch table: one for
/// each entry that is the first of its node, in the order of the table.
pub open spec fn stubs_upto(g: GraphModel, n: nat) -> Seq<Seq<char>>
    decreases n,
{
    if n == 0 {
        Seq::empty()
    } else if is_first_dispatch(g, n - 1) {
        stubs_upto(g, (n - 1) as nat).push(routing_stub(g.dispatch[n - 1]))
    } else {
        stubs_upto(g, (n - 1) as nat)
    }
}

/// The routing routines of the graph: one for each node that has a conditional
/// dispatch, in the order of the table.
pub open spec fn routing_stubs(g: GraphModel) -> Seq<Seq<char>> {
    stubs_upto(g, g.dispatch.len())
}

/// Whether the node called `name` has both a conditional dispatch and an
/// unconditional edge.
pub open spec fn is_ambiguous(g: GraphModel, name: Seq<char>) -> bool {
    dispatches(g, name) && successor(g, name) is Some
}

/// One warning for each of the first `n` nodes that has both a conditional
/// dispatch and an unconditional edge, in the order of the nodes.
pub open spec fn ambiguity_upto(g: GraphModel, n: nat) -> Seq<DiagnosticModel>
    decreases n,
{
    if n == 0 {
        Seq::empty()
    } else if is_ambiguous(g, g.nodes[n - 1].name) {
        ambiguity_upto(g, (n - 1) as nat).push(
            DiagnosticModel::AmbiguousNodeRouting(g.nodes[n - 1].name),
        )
    } else {
        ambiguity_upto(g, (n - 1) as nat)
    }
}

/// One warning for each of the first `n` nodes that is not among `seen`, in the
/// order of the nodes.
pub open spec fn unreachable_upto(g: GraphModel, seen: Seq<Seq<char>>, n: nat) -> Seq<
    DiagnosticModel,
>
    decreases n,
{
    if n == 0 {
        Seq::empty()
    } else if !seen.contains(g.nodes[n - 1].name) {
        unreachable_upto(g, seen, (n - 1) as nat).push(
            DiagnosticModel::UnreachableNode(g.nodes[n - 1].name),
        )
    } else {
        unreachable_upto(g, seen, (n - 1) as nat)
    }
}

/// What the synthesis of a graph warns of: each node with both kinds of routing,
/// then the lack of any ordering, then each node that the program cannot run.
pub open spec fn warnings_of(g: GraphModel) -> Seq<DiagnosticModel> {
    ambiguity_upto(g, g.nodes.len()) + if is_degraded(g) {
        seq![DiagnosticModel::DegradedOrdering]
    } else {
        Seq::empty()
    } + unreachable_upto(g, reachable(g), g.nodes.len())
}

/// The public routine through which the generated program is entered.
pub open spec fn entry_function_text() -> Seq<char> {
    "/// Run the graph on the given state\npub async fn run_graph(state: GraphState) -> Result<GraphState> {\n    execute_graph(state).await\n}"@
}

/// The program that a graph is turned into, with the types of its state taken
/// from the table of chosen types before the rules. There is none where the
/// graph refers to a name that is neither a declared node nor a sentinel, nor
/// where its nodes are to run one after another and its edges close a cycle.
pub open spec fn synthesized(g: GraphModel, registry: Map<Seq<char>, TargetType>) -> Result<
    ProgramModel,
    ErrorModel,
> {
    match execution_logic(g) {
        Err(e) => Err(e),
        Ok(logic) => Ok(
            ProgramModel {
                imports: required_imports(registry, g.fields),
                state_record: state_record(registry, g.fields),
                node_scaffolds: node_scaffolds(g),
                routing_stubs: routing_stubs(g),
                dispatch_routine: executor_text(g.entry_point, logic),
                entry_function: entry_function_text(),
                warnings: warnings_of(g),
            },
        ),
    }
}

/// The line that imports `path`.
pub open spec fn import_line(path: Seq<char>) -> Seq<char> {
    "use "@ + path + ";\n"@
}

/// The lines that import the paths, in order.
pub open spec fn import_lines(paths: Seq<Seq<char>>) -> Seq<Seq<char>> {
    Seq::new(paths.len(), |i: int| import_line(paths[i]))
}

/// Each item followed by an empty line.
pub open spec fn sections(items: Seq<Seq<char>>) -> Seq<Seq<char>> {
    Seq::new(items.len(), |i: int| items[i] + "\n\n"@)
}

/// What stands at the head of the program text: a note on where it comes from
/// and, where the source program is given, that program as a comment.
pub open spec fn header(original: Option<Seq<char>>) -> Seq<char> {
    match original {
        Some(source) => "// Generated from a workflow graph descriptor.\n//\n// Original Python source:\n"@
            + prefixed(source, "// "@) + "\n\n"@,
        None => "// Generated from a workflow graph descriptor.\n\n"@,
    }
}

/// The text of the program: the header, the imports, the state record, the
/// action routines, the routing routines, the routine that runs the graph and
/// the routine through which the program is entered, in this order.
pub open spec fn assembled(p: ProgramModel, original: Option<Seq<char>>) -> Seq<char> {
    header(original) + "use anyhow::{Context, Result};\nuse serde::{Deserialize, Serialize};\n"@
        + concat(import_lines(p.imports)) + "\n"@ + p.state_record + "\n\n"@ + concat(
        sections(p.node_scaffolds),
    ) + concat(sections(p.routing_stubs)) + p.dispatch_routine + "\n\n"@ + p.entry_function
        + "\n"@
}

/// The text of a program with the warnings of its synthesis, as a value of the
/// mathematical model.
pub ghost struct GeneratedModel {
    pub code: Seq<char>,
    pub warnings: Seq<DiagnosticModel>,
}

/// The text of a program, and beside it what its synthesis warns of.
#[derive(Debug)]
pub struct GeneratedCode {
    pub code: String,
    pub warnings: Vec<Diagnostic>,
}

impl View for GeneratedCode {
    type V = GeneratedModel;

    open spec fn view(&self) -> GeneratedModel {
        GeneratedModel { code: self.code@, warnings: diagnostics(self.warnings@) }
    }
}

/// The text of the program that a graph is turned into, with the warnings of
/// the synthesis beside it.
pub open spec fn generated(
    g: GraphModel,
    registry: Map<Seq<char>, TargetType>,
    original: Option<Seq<char>>,
) -> Result<GeneratedModel, ErrorModel> {
    match synthesized(g, registry) {
        Ok(p) => Ok(GeneratedModel { code: assembled(p, original), warnings: p.warnings }),
        Err(e) => Err(e),
    }
}

/// The text of the program that a graph is turned into.
pub open spec fn program_text(
    g: GraphModel,
    registry: Map<Seq<char>, TargetType>,
    original: Option<Seq<char>>,
) -> Result<Seq<char>, ErrorModel> {
    match synthesized(g, registry) {
        Ok(p) => Ok(assembled(p, original)),
        Err(e) => Err(e),
    }
}

/// The same graph always gives the same program: the parts, the warnings and
/// the text depend on nothing but what the graph and the table of chosen types
/// hold.
pub proof fn lemma_synthesis_is_deterministic(
    a: CodeGenerator,
    b: CodeGenerator,
    original: Option<Seq<char>>,
)
    requires
        a@ == b@,
        a.registry() == b.registry(),
    ensures
        synthesized(a@, a.registry()) == synthesized(b@, b.registry()),
        program_text(a@, a.registry(), original) == program_text(b@, b.registry(), original),
{
}

/// A synthesis succeeds exactly where every reference resolves and, with no
/// conditional dispatch, the edges close no cycle. Where a reference does not
/// resolve it fails with the first such reference; else it fails with the node
/// at which the cycle closes.
pub proof fn lemma_synthesis_outcome(g: GraphModel, registry: Map<Seq<char>, TargetType>)
    ensures
        synthesized(g, registry) is Ok <==> dangling(g) is None && (g.dispatch.len() > 0
            || linear_order(g) is Ok),
        dangling(g) is Some ==> synthesized(g, registry) == Err::<ProgramModel, ErrorModel>(
            ErrorModel::DanglingReference(dangling(g)->0),
        ),
        dangling(g) is None && g.dispatch.len() == 0 && linear_order(g) is Err ==> synthesized(
            g,
            registry,
        ) == Err::<ProgramModel, ErrorModel>(
            ErrorModel::NonTerminatingLinearCycle(linear_order(g)->Err_0),
        ),
{
}

/// A branch that leads to a name that is neither a declared node nor a sentinel
/// makes the synthesis fail with a dangling reference, whatever else the graph
/// holds; so does every routine of the control flow.
pub proof fn lemma_dangling_branch_is_fatal(
    g: GraphModel,
    registry: Map<Seq<char>, TargetType>,
    d: int,
    b: int,
)
    requires
        0 <= d < g.dispatch.len(),
        0 <= b < g.dispatch[d].branches.len(),
        !resolves(g, g.dispatch[d].branches[b].1),
    ensures
        synthesized(g, registry) is Err,
        synthesized(g, registry)->Err_0 is DanglingReference,
        !resolves(g, synthesized(g, registry)->Err_0->DanglingReference_0),
        conditional_execution(g) is Err,
        conditional_execution(g)->Err_0 is DanglingReference,
        execution_logic(g) is Err,
        execution_logic(g)->Err_0 is DanglingReference,
{
    lemma_branch_is_reference(g, d, b);
    lemma_unresolved_is_dangling(g, g.dispatch[d].branches[b].1);
}

/// A graph with a conditional dispatch whose every reference resolves is always
/// synthesized. It warns once of each declared node that has both a conditional
/// dispatch and an unconditional edge, then once of each declared node that
/// cannot be reached, and of nothing else.
pub proof fn lemma_dispatch_graph_is_synthesized(g: GraphModel, registry: Map<Seq<char>, TargetType>)
    requires
        g.dispatch.len() > 0,
        dangling(g) is None,
    ensures
        synthesized(g, registry) is Ok,
        synthesized(g, registry)->Ok_0.warnings == ambiguity_upto(g, g.nodes.len()) + unreachable_upto(
            g,
            reachable(g),
            g.nodes.len(),
        ),
{
    assert(ambiguity_upto(g, g.nodes.len()) + Seq::<DiagnosticModel>::empty()
        =~= ambiguity_upto(g, g.nodes.len()));
}

impl SynthesizedProgram {
    /// The text of the program, under the source program as a comment where one
    /// is given.
    pub fn assemble(&self, original_python: Option<&str>) -> (out: String)
        ensures
            out@ == assembled(self@, opt_str(original_python)),
    {
        let mut out = match original_python {
            Some(source) => {
                let mut head = String::from_str(
                    "// Generated from a workflow graph descriptor.\n//\n// Original Python source:\n",
                );
                head.append(prefix_lines(source, "// ").as_str());
                head.append("\n\n");
                head
            },
            None => String::from_str("// Generated from a workflow graph descriptor.\n\n"),
        };
        out.append("use anyhow::{Context, Result};\nuse serde::{Deserialize, Serialize};\n");
        let mut lines: Vec<String> = Vec::new();
        let mut i: usize = 0;
        while i < self.imports.len()
            invariant
                i <= self.imports.len(),
                lines.len() == i,
                forall|k: int| 0 <= k < i ==> (#[trigger] lines@[k])@ == import_line(self.imports@[k]@),
            decreases self.imports.len() - i,
        {
            let mut line = String::from_str("use ");
            line.append(self.imports[i].as_str());
            line.append(";\n");
            lines.push(line);
            i += 1;
        }
        assert(strings(lines@) =~= import_lines(strings(self.imports@)));
        out.append(concat_all(&lines).as_str());
        out.append("\n");
        out.append(self.state_record.as_str());
        out.append("\n\n");
        out.append(spaced(&self.node_scaffolds).as_str());
        out.append(spaced(&self.routing_stubs).as_str());
        out.append(self.dispatch_routine.as_str());
        out.append("\n\n");
        out.append(self.entry_function.as_str());
        out.append("\n");
        out
    }
}

/// The items one after another, each followed by an empty line.
fn spaced(items: &Vec<String>) -> (out: String)
    ensures
        out@ == concat(sections(strings(items@))),
{
    let mut parts: Vec<String> = Vec::new();
    let mut i: usize = 0;
    while i < items.len()
        invariant
            i <= items.len(),
            parts.len() == i,
            forall|k: int| 0 <= k < i ==> (#[trigger] parts@[k])@ == items@[k]@ + "\n\n"@,
        decreases items.len() - i,
    {
        let mut part = items[i].clone();
        part.append("\n\n");
        parts.push(part);
        i += 1;
    }
    assert(strings(parts@) =~= sections(strings(items@)));
    concat_all(&parts)
}

/// Turns the description of a workflow graph into a program.
pub struct CodeGenerator {
    graph_info: GraphInfo,
    type_mapper: TypeMapper,
}

impl View for CodeGenerator {
    type V = GraphModel;

    /// The graph that the generator works on.
    closed spec fn view(&self) -> GraphModel {
        self.graph_info@
    }
}

impl CodeGenerator {
    /// The table of types that the caller has chosen, which is asked for the
    /// type of a field before the rules.
    pub closed spec fn registry(&self) -> Map<Seq<char>, TargetType> {
        self.type_mapper@
    }

    /// A generator for the given graph, with no type chosen by the caller.
    pub fn new(graph_info: GraphInfo) -> (generator: Self)
        ensures
            generator@ == graph_info@,
            generator.registry() == Map::<Seq<char>, TargetType>::empty(),
    {
        CodeGenerator { graph_info, type_mapper: TypeMapper::new() }
    }

    /// A generator for the given graph that takes the types of the fields from
    /// `type_mapper`.
    pub fn with_type_mapper(graph_info: GraphInfo, type_mapper: TypeMapper) -> (generator: Self)
        ensures
            generator@ == graph_info@,
            generator.registry() == type_mapper@,
    {
        CodeGenerator { graph_info, type_mapper }
    }

    /// The text of the program that the graph is turned into, and beside it
    /// what the synthesis warns of. The source program is put above the text as
    /// a comment where one is given.
    pub fn generate_with_warnings(&self, original_python: Option<&str>) -> (r: Result<
        GeneratedCode,
        SynthesisError,
    >)
        ensures
            match r {
                Ok(out) => generated(self@, self.registry(), opt_str(original_python)) == Ok::<
                    GeneratedModel,
                    ErrorModel,
                >(out@),
                Err(e) => generated(self@, self.registry(), opt_str(original_python)) == Err::<
                    GeneratedModel,
                    ErrorModel,
                >(e@),
            },
    {
        match self.synthesize() {
            Ok(program) => {
                let code = program.assemble(original_python);
                Ok(GeneratedCode { code, warnings: program.warnings })
            },
            Err(e) => Err(e),
        }
    }

    /// The text of the program that the graph is turned into. The warnings of
    /// the synthesis are not part of it: `generate_with_warnings` hands them
    /// out beside the text.
    pub fn generate_rust_code(&self) -> (r: Result<String, SynthesisError>)
        ensures
            match r {
                Ok(code) => program_text(self@, self.registry(), None) == Ok::<
                    Seq<char>,
                    ErrorModel,
                >(code@),
                Err(e) => program_text(self@, self.registry(), None) == Err::<
                    Seq<char>,
                    ErrorModel,
                >(e@),
            },
    {
        self.generate_rust_code_with_python(None)
    }

    /// The text of the program that the graph is turned into, under the source
    /// program as a comment where one is given.
    pub fn generate_rust_code_with_python(&self, original_python: Option<&str>) -> (r: Result<
        String,
        SynthesisError,
    >)
        ensures
            match r {
                Ok(code) => program_text(self@, self.registry(), opt_str(original_python)) == Ok::<
                    Seq<char>,
                    ErrorModel,
                >(code@),
                Err(e) => program_text(self@, self.registry(), opt_str(original_python)) == Err::<
                    Seq<char>,
                    ErrorModel,
                >(e@),
            },
    {
        match self.synthesize() {
            Ok(program) => Ok(program.assemble(original_python)),
            Err(e) => Err(e),
        }
    }

    /// The parts of the program that the graph is turned into, and what the
    /// synthesis warns of.
    pub fn synthesize(&self) -> (r: Result<SynthesizedProgram, SynthesisError>)
        ensures
            match r {
                Ok(program) => synthesized(self@, self.registry()) == Ok::<
                    ProgramModel,
                    ErrorModel,
                >(program@),
                Err(e) => synthesized(self@, self.registry()) == Err::<ProgramModel, ErrorModel>(e@),
            },
    {
        let dispatch_routine = match self.generate_graph_executor() {
            Ok(text) => text,
            Err(e) => {
                return Err(e);
            },
        };
        Ok(
            SynthesizedProgram {
                imports: self.get_required_imports(),
                state_record: self.generate_state_struct(),
                node_scaffolds: self.generate_node_functions(),
                routing_stubs: self.generate_routing_functions(),
                dispatch_routine,
                entry_function: String::from_str(
                    "/// Run the graph on the given state\npub async fn run_graph(state: GraphState) -> Result<GraphState> {\n    execute_graph(state).await\n}",
                ),
                warnings: self.collect_warnings(),
            },
        )
    }

    /// The state record of the program.
    pub fn generate_state_struct(&self) -> (out: String)
        ensures
            out@ == state_record(self.registry(), self@.fields),
    {
        generate_state_record(&self.type_mapper, &self.graph_info.state_schema)
    }

    /// The paths that the state record needs imported, each once, in the order
    /// in which the fields first need them.
    pub fn get_required_imports(&self) -> (out: Vec<String>)
        ensures
            strings(out@) == required_imports(self.registry(), self@.fields),
    {
        collect_imports(&self.type_mapper, &self.graph_info.state_schema)
    }

    /// The action routines of the nodes, in the order of the nodes.
    pub fn generate_node_functions(&self) -> (out: Vec<String>)
        ensures
            strings(out@) == node_scaffolds(self@),
    {
        let g = &self.graph_info;
        let mut out: Vec<String> = Vec::new();
        let mut i: usize = 0;
        while i < g.nodes.len()
            invariant
                i <= g.nodes.len(),
                out.len() == i,
                forall|k: int| 0 <= k < i ==> (#[trigger] out@[k])@ == node_scaffold(g@.nodes[k]),
            decreases g.nodes.len() - i,
        {
            out.push(generate_node_function(&g.nodes[i]));
            i += 1;
        }
        assert(strings(out@) =~= node_scaffolds(g@));
        out
    }

    /// The routing routines of the graph: one for each node that has a
    /// conditional dispatch, in the order of the table.
    pub fn generate_routing_functions(&self) -> (out: Vec<String>)
        ensures
            strings(out@) == routing_stubs(self@),
    {
        let g = &self.graph_info;
        let mut out: Vec<String> = Vec::new();
        let mut i: usize = 0;
        assert(strings(out@) =~= stubs_upto(g@, 0));
        while i < g.conditional_edges.len()
            invariant
                i <= g.conditional_edges.len(),
                strings(out@) == stubs_upto(g@, i as nat),
            decreases g.conditional_edges.len() - i,
        {
            let source = g.conditional_edges[i].0.as_str();
            if g.find_dispatch(source) == i {
                let ghost before = strings(out@);
                let stub = generate_routing_function(source, &g.conditional_edges[i].1);
                out.push(stub);
                assert(strings(out@) =~= before.push(routing_stub(g@.dispatch[i as int])));
            }
            i += 1;
        }
        out
    }

    /// The body of the routine that runs the graph.
    pub fn generate_execution_logic(&self) -> (r: Result<String, SynthesisError>)
        ensures
            match r {
                Ok(out) => execution_logic(self@) == Ok::<Seq<char>, ErrorModel>(out@),
                Err(e) => execution_logic(self@) == Err::<Seq<char>, ErrorModel>(e@),
            },
    {
        generate_execution_logic(&self.graph_info)
    }

    /// The body of the routine that runs the nodes one after another, as it is
    /// for a graph without conditional dispatch.
    pub fn generate_linear_execution(&self) -> (r: Result<String, SynthesisError>)
        ensures
            match r {
                Ok(out) => linear_execution(self@) == Ok::<Seq<char>, ErrorModel>(out@),
                Err(e) => linear_execution(self@) == Err::<Seq<char>, ErrorModel>(e@),
            },
    {
        crate::control_flow::generate_linear_execution(&self.graph_info)
    }

    /// The body of the routine that runs the nodes in a loop over a cursor, as
    /// it is for a graph with conditional dispatch.
    pub fn generate_conditional_execution(&self) -> (r: Result<String, SynthesisError>)
        ensures
            match r {
                Ok(out) => conditional_execution(self@) == Ok::<Seq<char>, ErrorModel>(out@),
                Err(e) => conditional_execution(self@) == Err::<Seq<char>, ErrorModel>(e@),
            },
    {
        crate::control_flow::generate_conditional_execution(&self.graph_info)
    }

    /// The routine that runs the graph.
    pub fn generate_graph_executor(&self) -> (r: Result<String, SynthesisError>)
        ensures
            match r {
                Ok(out) => execution_logic(self@) is Ok && out@ == executor_text(
                    self@.entry_point,
                    execution_logic(self@)->Ok_0,
                ),
                Err(e) => execution_logic(self@) == Err::<Seq<char>, ErrorModel>(e@),
            },
    {
        match generate_execution_logic(&self.graph_info) {
            Ok(logic) => Ok(generate_executor(self.graph_info.entry_point.as_str(), logic.as_str())),
            Err(e) => Err(e),
        }
    }

    /// The first unconditional edge that leaves the node called `from`.
    pub fn find_edge_from(&self, from: &str) -> (r: Option<&EdgeInfo>)
        ensures
            match r {
                Some(edge) => successor(self@, from@) == Some(edge.to@),
                None => successor(self@, from@) is None,
            },
    {
        let k = self.graph_info.find_edge(from);
        if k < self.graph_info.edges.len() {
            Some(&self.graph_info.edges[k])
        } else {
            None
        }
    }

    /// What the synthesis warns of.
    pub fn collect_warnings(&self) -> (out: Vec<Diagnostic>)
        ensures
            diagnostics(out@) == warnings_of(self@),
    {
        let g = &self.graph_info;
        let mut out: Vec<Diagnostic> = Vec::new();
        let mut i: usize = 0;
        assert(diagnostics(out@) =~= ambiguity_upto(g@, 0));
        while i < g.nodes.len()
            invariant
                i <= g.nodes.len(),
                diagnostics(out@) == ambiguity_upto(g@, i as nat),
            decreases g.nodes.len() - i,
        {
            let name = g.nodes[i].name.as_str();
            if g.find_dispatch(name) < g.conditional_edges.len() && g.find_edge(name)
                < g.edges.len() {
                let ghost before = diagnostics(out@);
                let warning = Diagnostic::AmbiguousNodeRouting(g.nodes[i].name.clone());
                out.push(warning);
                assert(diagnostics(out@) =~= before.push(
                    DiagnosticModel::AmbiguousNodeRouting(g@.nodes[i as int].name),
                ));
            }
            i += 1;
        }
        let ghost ambiguous = diagnostics(out@);
        if g.conditional_edges.len() == 0 && g.edges.len() == 0 {
            out.push(Diagnostic::DegradedOrdering);
            assert(diagnostics(out@) =~= ambiguous + seq![DiagnosticModel::DegradedOrdering]);
        } else {
            assert(diagnostics(out@) =~= ambiguous + Seq::<DiagnosticModel>::empty());
        }
        let ghost base = diagnostics(out@);
        let seen = reachable_nodes(g);
        let mut j: usize = 0;
        assert(diagnostics(out@) =~= base + unreachable_upto(g@, reachable(g@), 0));
        while j < g.nodes.len()
            invariant
                j <= g.nodes.len(),
                strings(seen@) == reachable(g@),
                diagnostics(out@) == base + unreachable_upto(g@, reachable(g@), j as nat),
            decreases g.nodes.len() - j,
        {
            if !holds(&seen, g.nodes[j].name.as_str()) {
                let ghost before = diagnostics(out@);
                out.push(Diagnostic::UnreachableNode(g.nodes[j].name.clone()));
                assert(diagnostics(out@) =~= before.push(
                    DiagnosticModel::UnreachableNode(g@.nodes[j as int].name),
                ));
                assert(diagnostics(out@) =~= base + unreachable_upto(
                    g@,
                    reachable(g@),
                    (j + 1) as nat,
                ));
            }
            j += 1;
        }
        out
    }
}

/// The text of the program that the graph described by a document is turned
/// into: the error of the descriptor where the text describes no graph, else
/// what the synthesis of the graph gives.
pub open spec fn program_of_document(j: JsonModel) -> Result<Seq<char>, ErrorModel> {
    match graph_of(j) {
        Err(e) => Err(e),
        Ok(g) => program_text(g, Map::empty(), None),
    }
}

/// The text of the program that the graph described by the JSON value is turned
/// into.
pub fn generate_from_value(v: &serde_json::Value) -> (r: Result<String, SynthesisError>)
    ensures
        match r {
            Ok(code) => program_of_document(tree_of(*v)) == Ok::<Seq<char>, ErrorModel>(code@),
            Err(e) => program_of_document(tree_of(*v)) == Err::<Seq<char>, ErrorModel>(e@),
        },
{
    match graph_from_value(v) {
        Ok(graph) => CodeGenerator::new(graph).generate_rust_code(),
        Err(e) => Err(e),
    }
}

/// The text of the program that the graph described by a JSON text is turned
/// into, with the warnings of the synthesis beside it.
pub open spec fn generated_of_text(text: Seq<char>) -> Result<GeneratedModel, ErrorModel> {
    match graph_of_text(text) {
        Err(e) => Err(e),
        Ok(g) => generated(g, Map::empty(), None),
    }
}

/// The text of the program that the graph described by the JSON text is turned
/// into, and beside it what the synthesis warns of. A text that is no JSON
/// document is a malformed descriptor.
pub fn generate_from_json_with_warnings(json: &str) -> (r: Result<GeneratedCode, SynthesisError>)
    ensures
        match r {
            Ok(out) => generated_of_text(json@) == Ok::<GeneratedModel, ErrorModel>(out@),
            Err(e) => generated_of_text(json@) == Err::<GeneratedModel, ErrorModel>(e@),
        },
{
    match graph_from_json(json) {
        Ok(graph) => CodeGenerator::new(graph).generate_with_warnings(None),
        Err(e) => Err(e),
    }
}

/// The text of the program that the graph described by a JSON text is turned
/// into.
pub open spec fn program_of_text(text: Seq<char>) -> Result<Seq<char>, ErrorModel> {
    match graph_of_text(text) {
        Err(e) => Err(e),
        Ok(g) => program_text(g, Map::empty(), None),
    }
}

/// The text of the program that the graph described by the JSON text is turned
/// into. A text that is no JSON document is a malformed descriptor. The warnings
/// of the synthesis are not part of the text: `generate_from_json_with_warnings`
/// hands them out beside it.
pub fn generate_from_json(json: &str) -> (r: Result<String, SynthesisError>)
    ensures
        match r {
            Ok(code) => program_of_text(json@) == Ok::<Seq<char>, ErrorModel>(code@),
            Err(e) => program_of_text(json@) == Err::<Seq<char>, ErrorModel>(e@),
        },
{
    match graph_from_json(json) {
        Ok(graph) => CodeGenerator::new(graph).generate_rust_code(),
        Err(e) => Err(e),
    }
}

} // verus!
