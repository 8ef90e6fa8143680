use langgraph_rs::diagnostics::{Diagnostic, SynthesisError};
use langgraph_rs::generator::{
    generate_from_json, generate_from_json_with_warnings, CodeGenerator,
};
use langgraph_rs::graph::{ConditionalEdge, EdgeInfo, FieldInfo, GraphInfo, NodeInfo, StateSchema};
use langgraph_rs::state_model::{default_value_of, field_rust_type, field_to_rust};
use langgraph_rs::type_mapping::{RustType, TypeMapper};

fn node(name: &str) -> NodeInfo {
    NodeInfo {
        name: name.to_string(),
        func_name: format!("{}_impl", name),
        signature: "(state: State) -> State".to_string(),
        docstring: None,
        source_hint: None,
    }
}

fn edge(from: &str, to: &str) -> EdgeInfo {
    EdgeInfo { from: from.to_string(), to: to.to_string(), condition: None }
}

fn field(name: &str, declared_type: &str, is_optional: bool) -> FieldInfo {
    FieldInfo {
        name: name.to_string(),
        declared_type: declared_type.to_string(),
        is_optional,
        default_value: None,
    }
}

fn dispatch(source: &str, func: &str, branches: &[(&str, &str)]) -> (String, ConditionalEdge) {
    (
        source.to_string(),
        ConditionalEdge {
            condition_func: func.to_string(),
            branches: branches.iter().map(|(l, t)| (l.to_string(), t.to_string())).collect(),
        },
    )
}

fn graph(
    nodes: &[&str],
    edges: &[(&str, &str)],
    entry: &str,
    table: Vec<(String, ConditionalEdge)>,
) -> GraphInfo {
    GraphInfo {
        nodes: nodes.iter().map(|n| node(n)).collect(),
        edges: edges.iter().map(|(f, t)| edge(f, t)).collect(),
        state_schema: StateSchema { fields: vec![field("counter", "int", false)] },
        entry_point: entry.to_string(),
        conditional_edges: table,
    }
}

fn count(text: &str, needle: &str) -> usize {
    text.matches(needle).count()
}

fn position(text: &str, needle: &str) -> usize {
    match text.find(needle) {
        Some(p) => p,
        None => panic!("missing: {}", needle),
    }
}

#[test]
fn test_linear_workflow_conversion() {
    // This test would require Python to be available
    // For now, we'll test with mock data

    let mock_graph_json = r#"{
        "nodes": [
            {
                "name": "a",
                "func_name": "node_a",
                "signature": "(state: SimpleState) -> SimpleState",
                "docstring": "First node in the chain.",
                "source_hint": "tests/fixtures/linear_workflow.py:15"
            },
            {
                "name": "b",
                "func_name": "node_b",
                "signature": "(state: SimpleState) -> SimpleState",
                "docstring": "Second node in the chain.",
                "source_hint": "tests/fixtures/linear_workflow.py:21"
            },
            {
                "name": "c",
                "func_name": "node_c",
                "signature": "(state: SimpleState) -> SimpleState",
                "docstring": "Final node in the chain.",
                "source_hint": "tests/fixtures/linear_workflow.py:27"
            }
        ],
        "edges": [
            {"from": "a", "to": "b", "condition": null},
            {"from": "b", "to": "c", "condition": null},
            {"from": "c", "to": "END", "condition": null}
        ],
        "state_schema": {
            "fields": [
                {"name": "counter", "type_name": "int", "is_optional": false, "default_value": null},
                {"name": "messages", "type_name": "list[str]", "is_optional": false, "default_value": null}
            ]
        },
        "entry_point": "a",
        "conditional_edges": {}
    }"#;

    let result = generate_from_json(mock_graph_json);
    assert!(result.is_ok(), "Code generation should succeed");

    let generated_code = result.unwrap();

    // Verify generated code contains expected elements
    assert!(generated_code.contains("struct GraphState"));
    assert!(generated_code.contains("counter: i64"));
    assert!(generated_code.contains("messages: Vec<String>"));
    assert!(generated_code.contains("async fn a_node"));
    assert!(generated_code.contains("async fn b_node"));
    assert!(generated_code.contains("async fn c_node"));
    assert!(generated_code.contains("execute_graph"));
}

#[test]
fn test_generated_code_compiles() {
    // Test that generated code is syntactically valid Rust
    // This would require actually compiling the generated code
    // For now, we just verify structure

    let mock_graph_json = r#"{
        "nodes": [{"name": "test", "func_name": "test_node", "signature": "", "docstring": null, "source_hint": null}],
        "edges": [],
        "state_schema": {"fields": [{"name": "value", "type_name": "int", "is_optional": false, "default_value": null}]},
        "entry_point": "test",
        "conditional_edges": {}
    }"#;

    let result = generate_from_json(mock_graph_json);
    assert!(result.is_ok());
}

#[test]
fn test_conditional_routing_generation() {
    let mock_graph_json = r#"{
        "nodes": [
            {"name": "start", "func_name": "start_node", "signature": "", "docstring": "Initialize", "source_hint": null},
            {"name": "high", "func_name": "process_high", "signature": "", "docstring": "Process high", "source_hint": null},
            {"name": "low", "func_name": "process_low", "signature": "", "docstring": "Process low", "source_hint": null},
            {"name": "end", "func_name": "end_node", "signature": "", "docstring": "Finalize", "source_hint": null}
        ],
        "edges": [],
        "state_schema": {
            "fields": [
                {"name": "value", "type_name": "int", "is_optional": false, "default_value": null},
                {"name": "path_taken", "type_name": "list[str]", "is_optional": false, "default_value": null}
            ]
        },
        "entry_point": "start",
        "conditional_edges": {
            "start": {
                "condition_func": "route_based_on_value",
                "branches": {
                    "high": "high",
                    "low": "low"
                }
            }
        }
    }"#;

    let result = generate_from_json(mock_graph_json);
    assert!(result.is_ok());

    let code = result.unwrap();

    // Verify conditional routing is generated
    assert!(code.contains("match current_node"));
    assert!(code.contains("start_route"));
    assert!(code.contains("route_based_on_value"));
}

#[test]
fn test_loop_detection() {
    let mock_graph_json = r#"{
        "nodes": [
            {"name": "loop_body", "func_name": "loop_body", "signature": "", "docstring": "Loop", "source_hint": null}
        ],
        "edges": [],
        "state_schema": {
            "fields": [{"name": "counter", "type_name": "int", "is_optional": false, "default_value": null}]
        },
        "entry_point": "loop_body",
        "conditional_edges": {
            "loop_body": {
                "condition_func": "should_continue",
                "branches": {
                    "loop_body": "loop_body",
                    "end": "END"
                }
            }
        }
    }"#;

    let result = generate_from_json(mock_graph_json);
    assert!(result.is_ok());

    let code = result.unwrap();
    assert!(code.contains("loop"));
    assert!(code.contains("break"));
}

fn generate_large_graph_json(num_nodes: usize) -> String {
    let mut nodes = Vec::new();
    let mut edges = Vec::new();

    for i in 0..num_nodes {
        nodes.push(format!(
            r#"{{"name": "node_{}", "func_name": "node_{}", "signature": "", "docstring": null, "source_hint": null}}"#,
            i, i
        ));

        if i > 0 {
            edges.push(format!(
                r#"{{"from": "node_{}", "to": "node_{}", "condition": null}}"#,
                i - 1, i
            ));
        }
    }

    format!(
        r#"{{
            "nodes": [{}],
            "edges": [{}],
            "state_schema": {{"fields": [{{"name": "value", "type_name": "int", "is_optional": false, "default_value": null}}]}},
            "entry_point": "node_0",
            "conditional_edges": {{}}
        }}"#,
        nodes.join(","),
        edges.join(",")
    )
}

#[test]
fn bench_small_graph() {
    let json = generate_large_graph_json(5);
    let start = std::time::Instant::now();

    for _ in 0..100 {
        let _ = generate_from_json(&json);
    }

    let duration = start.elapsed();
    println!("Small graph (5 nodes) x100: {:?}", duration);

    // Should be fast
    assert!(duration.as_millis() < 1000, "Generation too slow");
}

#[test]
fn bench_medium_graph() {
    let json = generate_large_graph_json(20);
    let start = std::time::Instant::now();

    for _ in 0..100 {
        let _ = generate_from_json(&json);
    }

    let duration = start.elapsed();
    println!("Medium graph (20 nodes) x100: {:?}", duration);

    assert!(duration.as_secs() < 5, "Generation too slow");
}

#[test]
fn bench_large_graph() {
    let json = generate_large_graph_json(100);
    let start = std::time::Instant::now();

    for _ in 0..10 {
        let _ = generate_from_json(&json);
    }

    let duration = start.elapsed();
    println!("Large graph (100 nodes) x10: {:?}", duration);

    assert!(duration.as_secs() < 10, "Generation too slow");
}

#[test]
fn large_graph_runs_every_node_once() {
    let code = generate_from_json(&generate_large_graph_json(100)).unwrap();
    assert_eq!(count(&code, "_node(state).await"), 100);
    assert!(position(&code, "node_98_node(state)") < position(&code, "node_99_node(state)"));
}

#[test]
fn linear_scenario_runs_a_b_c_then_ends() {
    let g = graph(&["a", "b", "c"], &[("a", "b"), ("b", "c"), ("c", "END")], "a", vec![]);
    let program = CodeGenerator::new(g).synthesize().unwrap();
    let routine = &program.dispatch_routine;
    assert_eq!(count(routine, "_node(state).await"), 3);
    let a = position(routine, "state = a_node(state).await");
    let b = position(routine, "state = b_node(state).await");
    let c = position(routine, "state = c_node(state).await");
    let end = position(routine, "Graph execution completed successfully");
    assert!(a < b && b < c && c < end);
    assert!(!routine.contains("loop {"));
    assert!(routine.ends_with("    Ok(state)\n}"));
    assert!(program.warnings.is_empty());
    assert!(program.routing_stubs.is_empty());
}

#[test]
fn linear_routine_text_is_exact() {
    let g = graph(&["a", "b"], &[("a", "b")], "a", vec![]);
    let program = CodeGenerator::new(g).synthesize().unwrap();
    assert_eq!(
        program.dispatch_routine,
        "/// Execute the compiled graph\n\
async fn execute_graph(mut state: GraphState) -> Result<GraphState> {\n    \
tracing::info!(\"Starting graph execution from entry point: a\");\n\n    \
// Execute node: a\n    state = a_node(state).await\n        \
.context(\"Failed to execute node 'a'\")?;\n\n    \
// Execute node: b\n    state = b_node(state).await\n        \
.context(\"Failed to execute node 'b'\")?;\n\n    \
tracing::info!(\"Graph execution completed successfully\");\n    Ok(state)\n}"
    );
}

#[test]
fn linear_chain_follows_edges_not_declaration_order() {
    let g = graph(&["c", "a", "b"], &[("b", "c"), ("a", "b")], "a", vec![]);
    let routine = CodeGenerator::new(g).synthesize().unwrap().dispatch_routine;
    let a = position(&routine, "a_node(state)");
    let b = position(&routine, "b_node(state)");
    let c = position(&routine, "c_node(state)");
    assert!(a < b && b < c);
}

#[test]
fn linear_chain_uses_the_first_edge_of_a_node() {
    let g = graph(&["a", "b", "c"], &[("a", "c"), ("a", "b")], "a", vec![]);
    let program = CodeGenerator::new(g).synthesize().unwrap();
    assert_eq!(count(&program.dispatch_routine, "_node(state).await"), 2);
    assert!(program.dispatch_routine.contains("c_node(state)"));
    assert_eq!(program.warnings, vec![Diagnostic::UnreachableNode("b".to_string())]);
}

#[test]
fn linear_chain_starts_after_the_start_sentinel() {
    let g = graph(&["a", "b"], &[("__start__", "a"), ("a", "b"), ("b", "__end__")], "START", vec![]);
    let program = CodeGenerator::new(g).synthesize().unwrap();
    assert_eq!(count(&program.dispatch_routine, "_node(state).await"), 2);
    assert!(program.warnings.is_empty());
}

#[test]
fn linear_cycle_is_an_error() {
    let g = graph(&["a", "b", "c"], &[("a", "b"), ("b", "c"), ("c", "b")], "a", vec![]);
    let generator = CodeGenerator::new(g);
    assert_eq!(
        generator.synthesize().err(),
        Some(SynthesisError::NonTerminatingLinearCycle("b".to_string()))
    );
    assert_eq!(
        generator.generate_rust_code(),
        Err(SynthesisError::NonTerminatingLinearCycle("b".to_string()))
    );
}

#[test]
fn linear_self_loop_is_an_error() {
    let g = graph(&["a"], &[("a", "a")], "a", vec![]);
    assert_eq!(
        CodeGenerator::new(g).generate_rust_code(),
        Err(SynthesisError::NonTerminatingLinearCycle("a".to_string()))
    );
}

#[test]
fn no_edges_falls_back_to_declaration_order_with_a_warning() {
    let g = graph(&["x", "y", "z"], &[], "y", vec![]);
    let program = CodeGenerator::new(g).synthesize().unwrap();
    let routine = &program.dispatch_routine;
    let x = position(routine, "x_node(state)");
    let y = position(routine, "y_node(state)");
    let z = position(routine, "z_node(state)");
    assert!(x < y && y < z);
    assert_eq!(program.warnings, vec![Diagnostic::DegradedOrdering]);
}

#[test]
fn branch_and_loop_back_scenario() {
    let g = graph(
        &["loop_body"],
        &[],
        "loop_body",
        vec![dispatch("loop_body", "should_continue", &[("again", "loop_body"), ("done", "END")])],
    );
    let program = CodeGenerator::new(g).synthesize().unwrap();
    let routine = &program.dispatch_routine;
    assert!(routine.contains("    loop {\n        match current_node {\n"));
    assert!(routine.contains("let mut current_node = \"loop_body\";"));
    assert!(routine.contains("                    \"again\" => \"loop_body\",\n"));
    assert!(routine.contains("                    \"done\" => break,\n"));
    assert!(routine.contains("_ => anyhow::bail!(\"Unknown routing condition\"),"));
    assert!(!routine.contains("                break;\n"));
    assert_eq!(program.routing_stubs.len(), 1);
    assert!(program.warnings.is_empty());
}

#[test]
fn dispatch_arm_text_is_exact() {
    let g = graph(
        &["n", "m"],
        &[("m", "__end__")],
        "n",
        vec![dispatch("n", "pick", &[("go", "m"), ("stop", "__end__")])],
    );
    let program = CodeGenerator::new(g).synthesize().unwrap();
    let expected = "    // Start with entry point\n    let mut current_node = \"n\";\n\n    loop {\n        match current_node {\n            \"n\" => {\n                tracing::debug!(\"Executing node: n\");\n                state = n_node(state).await\n                    .context(\"Failed to execute node 'n'\")?;\n\n                // Conditional routing from n\n                current_node = match n_route(&state) {\n                    \"go\" => \"m\",\n                    \"stop\" => break,\n                    _ => anyhow::bail!(\"Unknown routing condition\"),\n                };\n            }\n            \"m\" => {\n                tracing::debug!(\"Executing node: m\");\n                state = m_node(state).await\n                    .context(\"Failed to execute node 'm'\")?;\n\n                break;\n            }\n            \"__end__\" | \"END\" => break,\n            _ => anyhow::bail!(\"Unknown node: {}\", current_node),\n        }\n    }\n";
    assert!(program.dispatch_routine.contains(expected));
    assert_eq!(
        program.routing_stubs,
        vec![
            "/// Routing function for node: n\n/// Original function: pick\nfn n_route(state: &GraphState) -> &'static str {\n    // NOT IMPLEMENTED: the routing decision\n    // This should return one of: \"go\", \"stop\"\n    \"END\"\n}"
                .to_string()
        ]
    );
}

#[test]
fn node_without_edge_or_dispatch_leaves_the_loop() {
    let g = graph(
        &["a", "b"],
        &[("a", "b")],
        "a",
        vec![dispatch("zzz", "f", &[])],
    );
    let routine = CodeGenerator::new(g).synthesize().unwrap().dispatch_routine;
    assert!(routine.contains("                current_node = \"b\";\n            }\n"));
    assert!(routine.contains("?;\n\n                break;\n            }\n"));
}

#[test]
fn ambiguity_scenario() {
    let g = graph(
        &["a", "b", "c"],
        &[("a", "c"), ("b", "END"), ("c", "END")],
        "a",
        vec![dispatch("a", "route_a", &[("left", "b"), ("right", "END")])],
    );
    let program = CodeGenerator::new(g).synthesize().unwrap();
    let ambiguous: Vec<&Diagnostic> = program
        .warnings
        .iter()
        .filter(|w| matches!(w, Diagnostic::AmbiguousNodeRouting(_)))
        .collect();
    assert_eq!(ambiguous, vec![&Diagnostic::AmbiguousNodeRouting("a".to_string())]);
    let routine = &program.dispatch_routine;
    assert!(routine.contains("current_node = match a_route(&state) {"));
    assert!(routine.contains("\"left\" => \"b\","));
    assert!(!routine.contains("current_node = \"c\";"));
    assert_eq!(
        program.warnings,
        vec![
            Diagnostic::AmbiguousNodeRouting("a".to_string()),
            Diagnostic::UnreachableNode("c".to_string()),
        ]
    );
}

#[test]
fn dangling_branch_scenario() {
    let g = graph(
        &["a"],
        &[],
        "a",
        vec![dispatch("a", "route_a", &[("ok", "END"), ("bad", "ghost")])],
    );
    let generator = CodeGenerator::new(g);
    assert_eq!(
        generator.generate_rust_code(),
        Err(SynthesisError::DanglingReference("ghost".to_string()))
    );
    assert!(generator.synthesize().is_err());
}

#[test]
fn dangling_edge_and_entry_point() {
    let g = graph(&["a"], &[("a", "nowhere")], "a", vec![]);
    assert_eq!(
        CodeGenerator::new(g).generate_rust_code(),
        Err(SynthesisError::DanglingReference("nowhere".to_string()))
    );
    let g = graph(&["a"], &[("a", "END")], "missing", vec![]);
    assert_eq!(
        CodeGenerator::new(g).generate_rust_code(),
        Err(SynthesisError::DanglingReference("missing".to_string()))
    );
}

#[test]
fn first_dangling_reference_is_reported() {
    let g = graph(
        &["a"],
        &[("a", "e1"), ("a", "e2")],
        "a",
        vec![dispatch("a", "f", &[("x", "b1")])],
    );
    assert_eq!(
        CodeGenerator::new(g).generate_rust_code(),
        Err(SynthesisError::DanglingReference("e1".to_string()))
    );
}

#[test]
fn every_sentinel_spelling_resolves() {
    let g = graph(
        &["a", "b"],
        &[("b", "__end__")],
        "__start__",
        vec![dispatch("a", "f", &[("x", "END"), ("y", "b"), ("z", "START")])],
    );
    assert!(CodeGenerator::new(g).generate_rust_code().is_ok());
}

#[test]
fn unreachable_nodes_are_warned_of_in_dispatch_graphs() {
    let g = graph(
        &["a", "b", "island", "c"],
        &[("b", "c"), ("island", "a")],
        "a",
        vec![dispatch("a", "f", &[("x", "b"), ("y", "a")])],
    );
    let program = CodeGenerator::new(g).synthesize().unwrap();
    assert_eq!(program.warnings, vec![Diagnostic::UnreachableNode("island".to_string())]);
}

#[test]
fn same_descriptor_gives_the_same_program() {
    let make = || {
        graph(
            &["a", "b", "c"],
            &[("a", "c"), ("b", "END")],
            "a",
            vec![dispatch("a", "route_a", &[("left", "b"), ("right", "END")])],
        )
    };
    let first = CodeGenerator::new(make()).generate_rust_code().unwrap();
    let second = CodeGenerator::new(make()).generate_rust_code().unwrap();
    assert_eq!(first.as_bytes(), second.as_bytes());
    let generator = CodeGenerator::new(make());
    assert_eq!(generator.generate_rust_code(), generator.generate_rust_code());
}

#[test]
fn state_record_text_is_exact() {
    let mut g = graph(&["a"], &[], "a", vec![]);
    g.state_schema = StateSchema {
        fields: vec![
            field("counter", "int", false),
            field("messages", "list[str]", false),
            field("note", "str", true),
            field("maybe", "Optional[int]", true),
            field("ctx", "dict[str, Any]", false),
            field("ratio", "float", false),
            field("done", "bool", false),
            field("user", "UserProfile", false),
            field("type", "Any", false),
            field("nothing", "None", false),
        ],
    };
    let generator = CodeGenerator::new(g);
    assert_eq!(
        generator.generate_state_struct(),
        "#[derive(Debug, Clone, Serialize, Deserialize)]\npub struct GraphState {\n    pub counter: i64,\n    pub messages: Vec<String>,\n    pub note: Option<String>,\n    pub maybe: Option<i64>,\n    pub ctx: HashMap<String, serde_json::Value>,\n    pub ratio: f64,\n    pub done: bool,\n    pub user: UserProfile,\n    pub type_: serde_json::Value,\n    pub nothing: ()\n}\n\nimpl GraphState {\n    /// A state with every field at its starting value.\n    pub fn new() -> Self {\n        Self {\n            counter: 0,\n            messages: Vec::new(),\n            note: None,\n            maybe: None,\n            ctx: HashMap::new(),\n            ratio: 0.0,\n            done: false,\n            user: Default::default(),\n            type_: Default::default(),\n            nothing: (),\n        }\n    }\n}"
    );
    assert_eq!(
        generator.get_required_imports(),
        vec!["std::collections::HashMap".to_string(), "serde_json::Value".to_string()]
    );
}

#[test]
fn imports_are_listed_once_in_first_need_order() {
    let mut g = graph(&["a"], &[], "a", vec![]);
    g.state_schema = StateSchema {
        fields: vec![
            field("a", "Any", false),
            field("b", "dict[str, int]", false),
            field("c", "list[Any]", false),
            field("d", "dict[str, str]", false),
        ],
    };
    let program = CodeGenerator::new(g).synthesize().unwrap();
    assert_eq!(
        program.imports,
        vec!["serde_json::Value".to_string(), "std::collections::HashMap".to_string()]
    );
    let code = program.assemble(None);
    assert!(code.contains("use serde_json::Value;\nuse std::collections::HashMap;\n\n#[derive"));
}

#[test]
fn node_scaffold_text_is_exact() {
    let mut g = graph(&[], &[], "END", vec![]);
    g.nodes = vec![
        NodeInfo {
            name: "fetch data".to_string(),
            func_name: "fetch".to_string(),
            signature: "(state: S) -> S".to_string(),
            docstring: Some("Fetch the data.\n\nTwo paragraphs.".to_string()),
            source_hint: Some("flow.py:12".to_string()),
        },
        node("plain"),
    ];
    let scaffolds = CodeGenerator::new(g).generate_node_functions();
    assert_eq!(
        scaffolds[0],
        "/// Fetch the data.\n/// \n/// Two paragraphs.\n/// Original function: fetch\n/// Signature: (state: S) -> S\nasync fn fetch_data_node(mut state: GraphState) -> Result<GraphState> {\n    // Original source: flow.py:12\n\n    // NOT IMPLEMENTED: the logic of node fetch data\n    // Until it is written the state is handed on unchanged.\n\n    Ok(state)\n}"
    );
    assert_eq!(
        scaffolds[1],
        "/// Generated node function\n/// Original function: plain_impl\n/// Signature: (state: State) -> State\nasync fn plain_node(mut state: GraphState) -> Result<GraphState> {\n    // Source location not available\n\n    // NOT IMPLEMENTED: the logic of node plain\n    // Until it is written the state is handed on unchanged.\n\n    Ok(state)\n}"
    );
}

#[test]
fn assembly_order_is_fixed() {
    let g = graph(
        &["a", "b"],
        &[("b", "END")],
        "a",
        vec![dispatch("a", "route_a", &[("x", "b")])],
    );
    let program = CodeGenerator::new(g).synthesize().unwrap();
    let code = program.assemble(None);
    let order = [
        "// Generated from a workflow graph descriptor.",
        "use anyhow::{Context, Result};",
        "pub struct GraphState {",
        "impl GraphState {",
        "async fn a_node(",
        "async fn b_node(",
        "fn a_route(",
        "async fn execute_graph(",
        "pub async fn run_graph(",
    ];
    let mut last = 0;
    for part in order {
        let at = position(&code, part);
        assert!(at >= last, "out of order: {}", part);
        last = at;
    }
    assert!(code.ends_with("    execute_graph(state).await\n}\n"));
    let whole = format!(
        "// Generated from a workflow graph descriptor.\n\nuse anyhow::{{Context, Result}};\nuse serde::{{Deserialize, Serialize}};\n\n{}\n\n{}\n\n{}\n\n{}\n\n{}\n\n{}\n",
        program.state_record,
        program.node_scaffolds[0],
        program.node_scaffolds[1],
        program.routing_stubs[0],
        program.dispatch_routine,
        program.entry_function
    );
    assert_eq!(code, whole);
}

#[test]
fn original_source_is_kept_as_a_comment() {
    let g = graph(&["a"], &[], "a", vec![]);
    let generator = CodeGenerator::new(g);
    let plain = generator.generate_rust_code().unwrap();
    let with = generator
        .generate_rust_code_with_python(Some("graph = StateGraph(S)\napp = graph.compile()"))
        .unwrap();
    assert!(with.starts_with(
        "// Generated from a workflow graph descriptor.\n//\n// Original Python source:\n// graph = StateGraph(S)\n// app = graph.compile()\n\nuse anyhow"
    ));
    assert!(with.ends_with(&plain["// Generated from a workflow graph descriptor.\n\n".len()..]));
    assert_eq!(generator.generate_rust_code_with_python(None).unwrap(), plain);
}

#[test]
fn find_edge_from_gives_the_first_edge() {
    let g = graph(&["a", "b", "c"], &[("b", "c"), ("a", "b"), ("a", "c")], "a", vec![]);
    let generator = CodeGenerator::new(g);
    assert_eq!(generator.find_edge_from("a").map(|e| e.to.as_str()), Some("b"));
    assert_eq!(generator.find_edge_from("b").map(|e| e.to.as_str()), Some("c"));
    assert!(generator.find_edge_from("c").is_none());
}

#[test]
fn messages_of_errors_and_warnings() {
    assert_eq!(
        SynthesisError::DanglingReference("x".to_string()).message(),
        "dangling reference: 'x' is neither a declared node nor a sentinel"
    );
    assert_eq!(
        SynthesisError::NonTerminatingLinearCycle("x".to_string()).message(),
        "non-terminating linear cycle through node 'x'"
    );
    assert_eq!(
        SynthesisError::MalformedDescriptor("nodes".to_string()).message(),
        "malformed descriptor: nodes"
    );
    assert_eq!(
        Diagnostic::AmbiguousNodeRouting("n".to_string()).message(),
        "ambiguous routing: node 'n' has a conditional dispatch and an unconditional edge; the edge is ignored"
    );
    assert_eq!(
        Diagnostic::DegradedOrdering.message(),
        "degraded ordering: no edges; the nodes run in the order of their declaration"
    );
    assert_eq!(
        Diagnostic::UnreachableNode("n".to_string()).message(),
        "unreachable node: no path leads to node 'n'"
    );
}

#[test]
fn chosen_types_come_before_the_rules() {
    let mut g = graph(&["a"], &[], "a", vec![]);
    g.state_schema = StateSchema {
        fields: vec![
            field("amount", "Money", false),
            field("n", "int", false),
            field("xs", "list[int]", false),
            field("maybe", "int", true),
            field("blob", "Blob", false),
        ],
    };
    let mut mapper = TypeMapper::new();
    mapper.add_mapping("int".to_string(), RustType::I32);
    mapper.add_mapping("Money".to_string(), RustType::F64);
    mapper.add_mapping("Blob".to_string(), RustType::JsonValue);
    let generator = CodeGenerator::with_type_mapper(g, mapper);
    let record = generator.generate_state_struct();
    assert!(record.starts_with(
        "#[derive(Debug, Clone, Serialize, Deserialize)]\npub struct GraphState {\n    pub amount: f64,\n    pub n: i32,\n    pub xs: Vec<i64>,\n    pub maybe: Option<i32>,\n    pub blob: serde_json::Value\n}"
    ));
    assert!(record.contains("            amount: 0.0,\n            n: 0,\n            xs: Vec::new(),\n            maybe: None,\n            blob: Default::default(),\n"));
    assert_eq!(generator.get_required_imports(), vec!["serde_json::Value".to_string()]);
    assert!(generator.generate_rust_code().unwrap().contains("    pub n: i32,\n"));
}

#[test]
fn field_types_and_defaults() {
    let mapper = TypeMapper::new();
    let opt = |t: RustType| RustType::Option(Box::new(t));
    assert_eq!(field_rust_type(&mapper, &field("a", "int", false)), RustType::I64);
    assert_eq!(field_rust_type(&mapper, &field("a", "int", true)), opt(RustType::I64));
    assert_eq!(field_rust_type(&mapper, &field("a", "Optional[int]", true)), opt(RustType::I64));
    assert_eq!(field_rust_type(&mapper, &field("a", "int | None", false)), opt(RustType::I64));
    assert_eq!(field_to_rust(&mapper, &field("my field", "str", true)), "    pub my_field: Option<String>");
    assert_eq!(field_to_rust(&mapper, &field("fn", "bool", false)), "    pub fn_: bool");
    assert_eq!(default_value_of(&RustType::String), "String::new()");
    assert_eq!(default_value_of(&RustType::I32), "0");
    assert_eq!(default_value_of(&RustType::I64), "0");
    assert_eq!(default_value_of(&RustType::F32), "0.0");
    assert_eq!(default_value_of(&RustType::F64), "0.0");
    assert_eq!(default_value_of(&RustType::Bool), "false");
    assert_eq!(default_value_of(&RustType::Vec(Box::new(RustType::Bool))), "Vec::new()");
    assert_eq!(
        default_value_of(&RustType::HashMap(Box::new(RustType::String), Box::new(RustType::Bool))),
        "HashMap::new()"
    );
    assert_eq!(default_value_of(&opt(RustType::Bool)), "None");
    assert_eq!(default_value_of(&RustType::JsonValue), "Default::default()");
    assert_eq!(default_value_of(&RustType::Custom("T".to_string())), "Default::default()");
    assert_eq!(default_value_of(&RustType::Unit), "()");
}

#[test]
fn errors_and_warnings_can_be_copied() {
    for e in [
        SynthesisError::MalformedDescriptor("nodes".to_string()),
        SynthesisError::DanglingReference("x".to_string()),
        SynthesisError::NonTerminatingLinearCycle("y".to_string()),
    ] {
        assert_eq!(e.clone(), e);
    }
    for w in [
        Diagnostic::AmbiguousNodeRouting("n".to_string()),
        Diagnostic::DegradedOrdering,
        Diagnostic::UnreachableNode("m".to_string()),
    ] {
        assert_eq!(w.clone(), w);
    }
}

#[test]
fn one_routing_stub_per_node() {
    let g = graph(
        &["a", "b"],
        &[],
        "a",
        vec![
            dispatch("a", "first", &[("x", "b")]),
            dispatch("b", "other", &[("y", "END")]),
            dispatch("a", "second", &[("z", "END")]),
        ],
    );
    let program = CodeGenerator::new(g).synthesize().unwrap();
    assert_eq!(program.routing_stubs.len(), 2);
    assert!(program.routing_stubs[0].contains("fn a_route(") && program.routing_stubs[0].contains("first"));
    assert!(program.routing_stubs[1].contains("fn b_route("));
    let code = program.assemble(None);
    assert_eq!(count(&code, "fn a_route("), 1);
    assert!(!code.contains("second"));
    assert!(program.dispatch_routine.contains("\"x\" => \"b\","));
    assert!(!program.dispatch_routine.contains("\"z\""));
}

#[test]
fn routing_stub_of_a_sentinel_spelling() {
    let g = graph(
        &["START", "a"],
        &[],
        "START",
        vec![dispatch("__start__", "pick", &[("x", "a")]), dispatch("START", "late", &[])],
    );
    let program = CodeGenerator::new(g).synthesize().unwrap();
    assert_eq!(program.routing_stubs.len(), 1);
    assert!(program.routing_stubs[0].contains("fn __start___route("));
    assert!(program.dispatch_routine.contains("current_node = match __start___route(&state) {"));
}

#[test]
fn warnings_come_beside_the_text() {
    let make = || {
        graph(
            &["a", "b", "c"],
            &[("a", "c"), ("b", "END"), ("c", "END")],
            "a",
            vec![dispatch("a", "route_a", &[("left", "b"), ("right", "END")])],
        )
    };
    let generator = CodeGenerator::new(make());
    let out = generator.generate_with_warnings(None).unwrap();
    assert_eq!(out.code, generator.generate_rust_code().unwrap());
    assert_eq!(
        out.warnings,
        vec![
            Diagnostic::AmbiguousNodeRouting("a".to_string()),
            Diagnostic::UnreachableNode("c".to_string()),
        ]
    );
    let with = generator.generate_with_warnings(Some("src")).unwrap();
    assert_eq!(with.code, generator.generate_rust_code_with_python(Some("src")).unwrap());
    assert_eq!(with.warnings, out.warnings);
    let bad = CodeGenerator::new(graph(&["a"], &[("a", "ghost")], "a", vec![]));
    assert_eq!(
        bad.generate_with_warnings(None).err(),
        Some(SynthesisError::DanglingReference("ghost".to_string()))
    );
}

#[test]
fn warnings_come_beside_the_text_of_a_document() {
    let json = r#"{"nodes": [{"name": "x", "func_name": "f", "signature": ""}, {"name": "y", "func_name": "g", "signature": ""}],
        "edges": [], "state_schema": {"fields": []}, "entry_point": "x", "conditional_edges": {}}"#;
    let out = generate_from_json_with_warnings(json).unwrap();
    assert_eq!(out.code, generate_from_json(json).unwrap());
    assert_eq!(out.warnings, vec![Diagnostic::DegradedOrdering]);
    assert_eq!(
        generate_from_json_with_warnings("{").err(),
        generate_from_json("{").err()
    );
    assert_eq!(
        generate_from_json_with_warnings("{}").err(),
        Some(SynthesisError::MalformedDescriptor("nodes".to_string()))
    );
}

#[test]
fn generator_methods_of_the_control_flow() {
    let linear = CodeGenerator::new(graph(&["a", "b"], &[("a", "b")], "a", vec![]));
    let text = linear.generate_linear_execution().unwrap();
    assert_eq!(linear.generate_execution_logic(), Ok(text.clone()));
    assert_eq!(count(&text, "_node(state).await"), 2);
    assert!(linear.generate_conditional_execution().unwrap().contains("loop {"));
    let looped = CodeGenerator::new(graph(&["a"], &[], "a", vec![dispatch("a", "r", &[("x", "a")])]));
    assert_eq!(looped.generate_execution_logic(), looped.generate_conditional_execution());
    let ghost = CodeGenerator::new(graph(&["a"], &[], "a", vec![dispatch("a", "r", &[("go", "ghost")])]));
    let refused = Err(SynthesisError::DanglingReference("ghost".to_string()));
    assert_eq!(ghost.generate_conditional_execution(), refused);
    assert_eq!(ghost.generate_execution_logic(), refused);
    assert_eq!(ghost.generate_linear_execution(), refused);
    assert_eq!(ghost.generate_graph_executor(), refused);
}
