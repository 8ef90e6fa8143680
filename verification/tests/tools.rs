use langgraph_rs::diagram::{generate_diagram, generate_dot, generate_mermaid};
use langgraph_rs::document::graph_from_json;
use langgraph_rs::graph::{EdgeInfo, GraphInfo, NodeInfo, StateSchema};
use langgraph_rs::cli::{inspection_output, log_filter};
use langgraph_rs::inspection::{
    annotated_field, channel_field, condition_function_name_of, edges_of, entry_point_of,
    fields_of, function_name_of, is_optional_annotation, source_hint,
};
use langgraph_rs::packaging::{generate_cargo_toml, generate_test_code};
use langgraph_rs::runtime::{
    assistant_message, completion_text, Arrival, Edge, GraphExecutor, GraphMetadata, Message,
};

fn small_graph() -> GraphInfo {
    GraphInfo {
        nodes: ["start", "process"]
            .iter()
            .map(|n| NodeInfo {
                name: n.to_string(),
                func_name: n.to_string(),
                signature: String::new(),
                docstring: None,
                source_hint: None,
            })
            .collect(),
        edges: vec![
            EdgeInfo { from: "start".to_string(), to: "process".to_string(), condition: None },
            EdgeInfo { from: "process".to_string(), to: "__end__".to_string(), condition: None },
        ],
        state_schema: StateSchema { fields: vec![] },
        entry_point: "start".to_string(),
        conditional_edges: vec![],
    }
}

#[test]
fn mermaid_text_is_exact() {
    assert_eq!(
        generate_mermaid(&small_graph()),
        "graph TD\n    start[start]\n    process[process]\n    start --> process\n    process --> __end__\n"
    );
}

#[test]
fn dot_text_is_exact() {
    assert_eq!(
        generate_dot(&small_graph()),
        "digraph G {\n    \"start\";\n    \"process\";\n    \"start\" -> \"process\";\n    \"process\" -> \"__end__\";\n}\n"
    );
}

#[test]
fn empty_graph_diagrams() {
    let g = graph_from_json(
        r#"{"nodes": [], "edges": [], "state_schema": {"fields": []}, "entry_point": "END", "conditional_edges": {}}"#,
    )
    .unwrap();
    assert_eq!(generate_mermaid(&g), "graph TD\n");
    assert_eq!(generate_dot(&g), "digraph G {\n}\n");
}

#[test]
fn diagram_format_is_chosen_by_name() {
    let g = small_graph();
    assert_eq!(generate_diagram(&g, "mermaid"), Some(generate_mermaid(&g)));
    assert_eq!(generate_diagram(&g, "dot"), Some(generate_dot(&g)));
    assert_eq!(generate_diagram(&g, "svg"), None);
    assert_eq!(generate_diagram(&g, "Mermaid"), None);
    assert_eq!(generate_diagram(&g, ""), None);
}

#[test]
fn cargo_toml_text_is_exact() {
    let expected = |name: &str| {
        format!(
            "[package]\nname = \"{}\"\nversion = \"0.1.0\"\nedition = \"2021\"\n\n[dependencies]\ntokio = {{ version = \"1.40\", features = [\"full\"] }}\nserde = {{ version = \"1.0\", features = [\"derive\"] }}\nserde_json = \"1.0\"\nanyhow = \"1.0\"\nasync-trait = \"0.1\"\n# Use workspace path dependency until crate is published\nlanggraph-runtime = {{ path = \"../langgraph-runtime\" }}\n",
            name
        )
    };
    assert_eq!(generate_cargo_toml(Some("simple_workflow")), expected("simple_workflow"));
    assert_eq!(generate_cargo_toml(None), expected("generated_graph"));
}

#[test]
fn test_code_is_the_same_for_every_graph() {
    let code = generate_test_code("{}");
    assert_eq!(code, generate_test_code("anything"));
    assert!(code.starts_with("#[cfg(test)]\nmod tests {\n    use super::*;\n"));
    assert!(code.contains("let initial_state = GraphState::new();"));
    assert!(code.contains("run_graph(initial_state).await.unwrap();"));
    assert!(code.ends_with("    }\n}\n"));
}

#[test]
fn optional_annotations() {
    assert!(is_optional_annotation("Optional[int]"));
    assert!(is_optional_annotation("str | None"));
    assert!(is_optional_annotation("NoneType"));
    assert!(is_optional_annotation("None"));
    assert!(is_optional_annotation("Union[int, None]"));
    assert!(!is_optional_annotation("int"));
    assert!(!is_optional_annotation(""));
    assert!(!is_optional_annotation("none"));
    assert!(!is_optional_annotation("list[Optional[int]]"));
    assert!(!is_optional_annotation("Non"));
    assert!(!is_optional_annotation("Optional"));
}

#[test]
fn source_hints() {
    assert_eq!(source_hint("flow.py", 0), "flow.py:0");
    assert_eq!(source_hint("flow.py", 7), "flow.py:7");
    assert_eq!(source_hint("a/b/c.py", 10), "a/b/c.py:10");
    assert_eq!(source_hint("", 1234567890), ":1234567890");
    assert_eq!(source_hint("x", usize::MAX), format!("x:{}", usize::MAX));
}

#[test]
fn metadata_starts_at_the_start() {
    let m = GraphMetadata::new();
    assert_eq!(m.current_node, "__start__");
    assert!(m.execution_path.is_empty());
    assert!(m.errors.is_empty());
}

#[test]
fn metadata_records_the_path() {
    let mut m = GraphMetadata::new();
    m.errors.push("kept".to_string());
    assert!(!m.enter("a"));
    assert!(!m.enter("END"));
    assert!(m.enter("__end__"));
    assert_eq!(m.current_node, "__end__");
    assert_eq!(m.execution_path, vec!["a", "END", "__end__"]);
    assert_eq!(m.errors, vec!["kept"]);
}

#[test]
fn executor_is_built_step_by_step() {
    let mut ex = GraphExecutor::new();
    assert_eq!(ex.entry_point, "__start__");
    assert!(ex.nodes.is_empty() && ex.edges.is_empty());
    ex.add_node("a");
    ex.add_node("b");
    ex.add_edge("a", "b");
    ex.add_edge("b", "__end__");
    ex.set_entry_point("a");
    assert_eq!(ex.entry_point, "a");
    assert_eq!(ex.nodes, vec!["a", "b"]);
    assert_eq!(ex.edges.len(), 2);
    assert_eq!(ex.edges[0].from, "a");
    assert_eq!(ex.edges[0].to, "b");
    assert!(!ex.edges[0].guarded);
    assert_eq!(ex.edges[1].to, "__end__");
}

#[test]
fn next_node_is_where_the_first_open_edge_leads() {
    let mut ex = GraphExecutor::new();
    ex.edges.push(Edge { from: "a".to_string(), to: "x".to_string(), guarded: true });
    ex.edges.push(Edge { from: "b".to_string(), to: "y".to_string(), guarded: false });
    ex.edges.push(Edge { from: "a".to_string(), to: "z".to_string(), guarded: false });
    ex.edges.push(Edge { from: "a".to_string(), to: "w".to_string(), guarded: false });
    assert_eq!(ex.find_next_node("a", &vec![true, false, false, false]), Some("x".to_string()));
    assert_eq!(ex.find_next_node("a", &vec![false, true, true, true]), Some("z".to_string()));
    assert_eq!(ex.find_next_node("b", &vec![false, false, false, false]), Some("y".to_string()));
    assert_eq!(ex.find_next_node("c", &vec![true, true, true, true]), None);
    assert_eq!(GraphExecutor::new().find_next_node("a", &vec![]), None);
    assert_eq!(ex.find_next_node("a", &vec![]), Some("z".to_string()));
    assert_eq!(ex.find_next_node("a", &vec![true]), Some("x".to_string()));
}

#[test]
fn arrival_decides_what_a_run_does() {
    let mut ex = GraphExecutor::new();
    ex.add_node("a");
    let mut m = GraphMetadata::new();
    assert_eq!(ex.arrive(&mut m, "a"), Arrival::Run);
    assert_eq!(ex.arrive(&mut m, "unknown"), Arrival::Pass);
    assert_eq!(ex.arrive(&mut m, "__end__"), Arrival::End);
    assert_eq!(m.execution_path, vec!["a", "unknown", "__end__"]);
    assert_eq!(m.current_node, "__end__");
    ex.add_node("__end__");
    assert_eq!(ex.arrive(&mut m, "__end__"), Arrival::End);
}

#[test]
fn completion_text_follows_the_reply() {
    let reply: serde_json::Value = serde_json::from_str(
        r#"{"id": "x", "choices": [{"index": 0, "message": {"role": "assistant", "content": "Hello!"}}, {"message": {"content": "second"}}]}"#,
    )
    .unwrap();
    assert_eq!(completion_text(&reply), "Hello!");
    let Message { role, content } = assistant_message(&reply);
    assert_eq!(role, "assistant");
    assert_eq!(content, "Hello!");
}

#[test]
fn completion_text_is_empty_without_content() {
    for reply in [
        "null",
        "[]",
        "{}",
        r#"{"choices": {}}"#,
        r#"{"choices": []}"#,
        r#"{"choices": [1]}"#,
        r#"{"choices": [{}]}"#,
        r#"{"choices": [{"message": "text"}]}"#,
        r#"{"choices": [{"message": {}}]}"#,
        r#"{"choices": [{"message": {"content": 5}}]}"#,
        r#"{"choices": [{"message": {"content": null}}]}"#,
    ] {
        let value: serde_json::Value = serde_json::from_str(reply).unwrap();
        assert_eq!(completion_text(&value), "", "reply: {}", reply);
        assert_eq!(assistant_message(&value).content, "");
    }
}

fn some(text: &str) -> Option<String> {
    Some(text.to_string())
}

#[test]
fn entry_point_prefers_the_graph_then_the_builder() {
    assert_eq!(entry_point_of(some("a"), some("b")), "a");
    assert_eq!(entry_point_of(None, some("b")), "b");
    assert_eq!(entry_point_of(some("a"), None), "a");
    assert_eq!(entry_point_of(None, None), "__start__");
}

#[test]
fn function_name_falls_back_to_the_type() {
    assert_eq!(function_name_of(some("f"), some("g"), "T".to_string()), "f");
    assert_eq!(function_name_of(None, some("g"), "T".to_string()), "g");
    assert_eq!(function_name_of(None, None, "T".to_string()), "T");
}

#[test]
fn condition_name_falls_back_to_unknown() {
    assert_eq!(condition_function_name_of(some("c"), some("p")), "c");
    assert_eq!(condition_function_name_of(None, some("p")), "p");
    assert_eq!(condition_function_name_of(None, None), "unknown_condition");
}

#[test]
fn channel_fields_are_never_optional() {
    let f = channel_field("x".to_string(), some("Optional[int]"));
    assert_eq!(f.name, "x");
    assert_eq!(f.declared_type, "Optional[int]");
    assert!(!f.is_optional);
    assert_eq!(f.default_value, None);
    assert_eq!(channel_field("y".to_string(), None).declared_type, "Any");
}

#[test]
fn annotated_fields_are_optional_by_their_type() {
    let f = annotated_field("x".to_string(), some("Optional[int]"));
    assert_eq!(f.declared_type, "Optional[int]");
    assert!(f.is_optional);
    assert!(annotated_field("x".to_string(), some("int | None")).is_optional);
    let g = annotated_field("y".to_string(), some("int"));
    assert!(!g.is_optional);
    let h = annotated_field("z".to_string(), None);
    assert_eq!(h.declared_type, "Any");
    assert!(!h.is_optional);
    assert_eq!(h.default_value, None);
}

#[test]
fn schema_fields_stand_in_for_missing_channels() {
    let a = || vec![channel_field("a".to_string(), None)];
    let b = || vec![annotated_field("b".to_string(), None), annotated_field("c".to_string(), None)];
    assert_eq!(fields_of(a(), b()).len(), 1);
    assert_eq!(fields_of(a(), b())[0].name, "a");
    assert_eq!(fields_of(vec![], b()).len(), 2);
    assert_eq!(fields_of(vec![], b())[1].name, "c");
    assert!(fields_of(vec![], vec![]).is_empty());
    assert_eq!(fields_of(a(), vec![]).len(), 1);
}

#[test]
fn edges_are_listed_direct_first_then_by_builder() {
    let direct = vec![("a".to_string(), "b".to_string()), ("b".to_string(), "".to_string())];
    let builder = vec![
        ("x".to_string(), vec!["y".to_string(), "".to_string(), "z".to_string()]),
        ("e".to_string(), vec![]),
        ("y".to_string(), vec!["".to_string()]),
        ("z".to_string(), vec!["x".to_string()]),
    ];
    let edges = edges_of(&direct, &builder);
    let pairs: Vec<(&str, &str)> =
        edges.iter().map(|e| (e.from.as_str(), e.to.as_str())).collect();
    assert_eq!(pairs, vec![("a", "b"), ("b", ""), ("x", "y"), ("x", "z"), ("z", "x")]);
    assert!(edges.iter().all(|e| e.condition.is_none()));
    assert!(edges_of(&vec![], &vec![]).is_empty());
}

#[test]
fn log_filter_by_verbosity() {
    assert_eq!(log_filter(0), "info");
    assert_eq!(log_filter(1), "debug");
    assert_eq!(log_filter(2), "trace");
    assert_eq!(log_filter(255), "trace");
}

#[test]
fn inspection_output_by_format() {
    assert_eq!(inspection_output("{\"a\": 1}", "json"), Ok("{\"a\": 1}".to_string()));
    assert_eq!(
        inspection_output("{}", "yaml"),
        Err("YAML format not yet implemented".to_string())
    );
    assert_eq!(
        inspection_output("{}", "toml"),
        Err("TOML format not yet implemented".to_string())
    );
    assert_eq!(inspection_output("{}", "xml"), Err("Unknown format: xml".to_string()));
    assert_eq!(inspection_output("{}", "JSON"), Err("Unknown format: JSON".to_string()));
}

#[test]
fn copies_keep_what_they_hold() {
    let g = small_graph();
    let copy = g.clone();
    assert_eq!(format!("{:?}", copy), format!("{:?}", g));
    let full = graph_from_json(
        r#"{"nodes": [{"name": "a", "func_name": "f", "signature": "s", "docstring": "d"}],
            "edges": [{"from": "a", "to": "END", "condition": "c"}],
            "state_schema": {"fields": [{"name": "x", "type_name": "int", "is_optional": true, "default_value": 1}]},
            "entry_point": "a",
            "conditional_edges": {"a": {"condition_func": "r", "branches": {"l": "a", "m": "END"}}}}"#,
    )
    .unwrap();
    assert_eq!(format!("{:?}", full.clone()), format!("{:?}", full));
    let mut m = GraphMetadata::new();
    m.enter("a");
    m.errors.push("e".to_string());
    assert_eq!(format!("{:?}", m.clone()), format!("{:?}", m));
    let message = Message { role: "user".to_string(), content: "hi".to_string() };
    assert_eq!(format!("{:?}", message.clone()), format!("{:?}", message));
    let edge = Edge { from: "a".to_string(), to: "b".to_string(), guarded: true };
    assert_eq!(format!("{:?}", edge.clone()), format!("{:?}", edge));
    let arrival = Arrival::Run;
    assert_eq!(arrival.clone(), arrival);
}

#[test]
fn candidates_are_the_edges_that_leave_the_node() {
    let mut ex = GraphExecutor::new();
    ex.add_edge("a", "x");
    ex.add_edge("b", "y");
    ex.add_edge("a", "z");
    assert_eq!(ex.next_candidate("a", 0), Some(0));
    assert_eq!(ex.next_candidate("a", 1), Some(2));
    assert_eq!(ex.next_candidate("a", 3), None);
    assert_eq!(ex.next_candidate("a", 99), None);
    assert_eq!(ex.next_candidate("b", 0), Some(1));
    assert_eq!(ex.next_candidate("b", 2), None);
    assert_eq!(ex.next_candidate("c", 0), None);
}
