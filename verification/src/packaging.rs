//! What goes with a generated program: the manifest of its package and its
//! tests.

use crate::text::opt_str;
use vstd::prelude::*;
use vstd::string::StringExecFns;

verus! {

/// The name of the generated package: the one given, or `generated_graph`.
pub open spec fn package_name(name: Option<Seq<char>>) -> Seq<char> {
    match name {
        Some(n) => n,
        None => "generated_graph"@,
    }
}

/// The manifest of the generated package.
pub open spec fn cargo_toml_text(name: Option<Seq<char>>) -> Seq<char> {
    "[package]\nname = \""@ + package_name(name)
        + "\"\nversion = \"0.1.0\"\nedition = \"2021\"\n\n[dependencies]\ntokio = { version = \"1.40\", features = [\"full\"] }\nserde = { version = \"1.0\", features = [\"derive\"] }\nserde_json = \"1.0\"\nanyhow = \"1.0\"\nasync-trait = \"0.1\"\n# Use workspace path dependency until crate is published\nlanggraph-runtime = { path = \"../langgraph-runtime\" }\n"@
}

/// The tests that go with a generated program.
pub open spec fn test_code_text() -> Seq<char> {
    "#[cfg(test)]\nmod tests {\n    use super::*;\n\n    #[tokio::test]\n    async fn test_graph_execution() {\n        let initial_state = GraphState::new();\n        let result = run_graph(initial_state).await.unwrap();\n        // Assertions on the result are still to be written\n    }\n}\n"@
}

/// The manifest of the generated package, which is named after `name` where one
/// is given.
pub fn generate_cargo_toml(name: Option<&str>) -> (out: String)
    ensures
        out@ == cargo_toml_text(opt_str(name)),
{
    let mut out = String::from_str("[package]\nname = \"");
    match name {
        Some(n) => out.append(n),
        None => out.append("generated_graph"),
    }
    out.append(
        "\"\nversion = \"0.1.0\"\nedition = \"2021\"\n\n[dependencies]\ntokio = { version = \"1.40\", features = [\"full\"] }\nserde = { version = \"1.0\", features = [\"derive\"] }\nserde_json = \"1.0\"\nanyhow = \"1.0\"\nasync-trait = \"0.1\"\n# Use workspace path dependency until crate is published\nlanggraph-runtime = { path = \"../langgraph-runtime\" }\n",
    );
    out
}

/// The tests that go with a generated program. They are the same for every
/// graph.
pub fn generate_test_code(graph_json: &str) -> (out: String)
    ensures
        out@ == test_code_text(),
{
    String::from_str(
        "#[cfg(test)]\nmod tests {\n    use super::*;\n\n    #[tokio::test]\n    async fn test_graph_execution() {\n        let initial_state = GraphState::new();\n        let result = run_graph(initial_state).await.unwrap();\n        // Assertions on the result are still to be written\n    }\n}\n",
    )
}

} // verus!
