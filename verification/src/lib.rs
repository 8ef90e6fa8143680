//! Turns the description of a workflow graph, as a LangGraph program in Python
//! declares it, into the text of a Rust program that runs the same graph.
//!
//! The description names the nodes of the graph, the edges and the conditional
//! dispatches between them, the fields of the state that is handed from node to
//! node, and the place where the workflow starts. The program holds a record for
//! the state, one action routine per node, one routing routine per conditional
//! dispatch, and a routine that runs the nodes in the order that the graph
//! prescribes: one after another where no node has a conditional dispatch, in a
//! loop over a cursor where one has.
//!
//! Every function comes with a contract over a mathematical model of its
//! arguments. Verus proves that the function meets it; the few that call into
//! `serde_json` or the standard library without proof say so.

pub mod cli;
pub mod control_flow;
pub mod diagnostics;
pub mod diagram;
pub mod document;
pub mod generator;
pub mod graph;
pub mod identifier;
pub mod inspection;
pub mod packaging;
pub mod runtime;
pub mod scaffold;
pub mod state_model;
pub mod text;
pub mod type_mapping;
