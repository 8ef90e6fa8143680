//! What the command line decides: how much is logged, and what an inspection
//! puts out.

use crate::text::same_text;
use vstd::prelude::*;
use vstd::string::StringExecFns;

verus! {

/// How much is logged at a given verbosity: `info` at none, `debug` at one,
/// `trace` above.
pub open spec fn log_filter_text(verbose: u8) -> Seq<char> {
    if verbose == 0 {
        "info"@
    } else if verbose == 1 {
        "debug"@
    } else {
        "trace"@
    }
}

/// How much is logged at a given verbosity.
pub fn log_filter(verbose: u8) -> (out: &'static str)
    ensures
        out@ == log_filter_text(verbose),
{
    if verbose == 0 {
        "info"
    } else if verbose == 1 {
        "debug"
    } else {
        "trace"
    }
}

/// What an inspection puts out for the format called `format`: the document
/// itself for `json`; for every other format, what is wrong with it.
pub open spec fn inspection_text(graph_json: Seq<char>, format: Seq<char>) -> Result<
    Seq<char>,
    Seq<char>,
> {
    if format == "json"@ {
        Ok(graph_json)
    } else if format == "yaml"@ {
        Err("YAML format not yet implemented"@)
    } else if format == "toml"@ {
        Err("TOML format not yet implemented"@)
    } else {
        Err("Unknown format: "@ + format)
    }
}

/// What an inspection puts out for the format called `format`.
pub fn inspection_output(graph_json: &str, format: &str) -> (r: Result<String, String>)
    ensures
        match r {
            Ok(out) => inspection_text(graph_json@, format@) == Ok::<Seq<char>, Seq<char>>(out@),
            Err(e) => inspection_text(graph_json@, format@) == Err::<Seq<char>, Seq<char>>(e@),
        },
{
    if same_text(format, "json") {
        Ok(String::from_str(graph_json))
    } else if same_text(format, "yaml") {
        Err(String::from_str("YAML format not yet implemented"))
    } else if same_text(format, "toml") {
        Err(String::from_str("TOML format not yet implemented"))
    } else {
        let mut e = String::from_str("Unknown format: ");
        e.append(format);
        Err(e)
    }
}

} // verus!
