//! Why a synthesis fails, and what a synthesis that succeeds warns of.

use vstd::prelude::*;
use vstd::string::StringExecFns;

verus! {

/// Why a synthesis failed, as a value of the mathematical model.
pub ghost enum ErrorModel {
    MalformedDescriptor(Seq<char>),
    DanglingReference(Seq<char>),
    NonTerminatingLinearCycle(Seq<char>),
}

/// What a synthesis warns of, as a value of the mathematical model.
pub ghost enum DiagnosticModel {
    AmbiguousNodeRouting(Seq<char>),
    DegradedOrdering,
    UnreachableNode(Seq<char>),
}

/// Why a synthesis failed. Nothing is produced where it fails.
#[derive(Debug, PartialEq, Eq)]
pub enum SynthesisError {
    /// The descriptor document lacks the named part, or holds something else
    /// in its place.
    MalformedDescriptor(String),
    /// The entry point, an edge or a branch refers to the given name, which is
    /// neither a declared node nor a sentinel.
    DanglingReference(String),
    /// Without any conditional dispatch, the unconditional edges lead back to
    /// the given node, so that the workflow could never end.
    NonTerminatingLinearCycle(String),
}

impl View for SynthesisError {
    type V = ErrorModel;

    open spec fn view(&self) -> ErrorModel {
        match self {
            SynthesisError::MalformedDescriptor(what) => ErrorModel::MalformedDescriptor(what@),
            SynthesisError::DanglingReference(name) => ErrorModel::DanglingReference(name@),
            SynthesisError::NonTerminatingLinearCycle(name) => ErrorModel::NonTerminatingLinearCycle(
                name@,
            ),
        }
    }
}

/// What an error says, as text.
pub open spec fn error_text(e: ErrorModel) -> Seq<char> {
    match e {
        ErrorModel::MalformedDescriptor(what) => "malformed descriptor: "@ + what,
        ErrorModel::DanglingReference(name) => "dangling reference: '"@ + name
            + "' is neither a declared node nor a sentinel"@,
        ErrorModel::NonTerminatingLinearCycle(name) => "non-terminating linear cycle through node '"@
            + name + "'"@,
    }
}

impl SynthesisError {
    /// What the error says, as text.
    pub fn message(&self) -> (out: String)
        ensures
            out@ == error_text(self@),
    {
        match self {
            SynthesisError::MalformedDescriptor(what) => {
                let mut out = String::from_str("malformed descriptor: ");
                out.append(what.as_str());
                out
            },
            SynthesisError::DanglingReference(name) => {
                let mut out = String::from_str("dangling reference: '");
                out.append(name.as_str());
                out.append("' is neither a declared node nor a sentinel");
                out
            },
            SynthesisError::NonTerminatingLinearCycle(name) => {
                let mut out = String::from_str("non-terminating linear cycle through node '");
                out.append(name.as_str());
                out.append("'");
                out
            },
        }
    }
}

/// What a synthesis that succeeded warns of.
#[derive(Debug, PartialEq, Eq)]
pub enum Diagnostic {
    /// The given node has both a conditional dispatch and an unconditional edge;
    /// the dispatch was used and the edge was not.
    AmbiguousNodeRouting(String),
    /// No edge orders the nodes; they run in the order in which they are
    /// declared.
    DegradedOrdering,
    /// The given node is declared, but no path from where the workflow starts
    /// leads to it.
    UnreachableNode(String),
}

impl View for Diagnostic {
    type V = DiagnosticModel;

    open spec fn view(&self) -> DiagnosticModel {
        match self {
            Diagnostic::AmbiguousNodeRouting(name) => DiagnosticModel::AmbiguousNodeRouting(name@),
            Diagnostic::DegradedOrdering => DiagnosticModel::DegradedOrdering,
            Diagnostic::UnreachableNode(name) => DiagnosticModel::UnreachableNode(name@),
        }
    }
}

/// What a warning says, as text.
pub open spec fn diagnostic_text(d: DiagnosticModel) -> Seq<char> {
    match d {
        DiagnosticModel::AmbiguousNodeRouting(name) => "ambiguous routing: node '"@ + name
            + "' has a conditional dispatch and an unconditional edge; the edge is ignored"@,
        DiagnosticModel::DegradedOrdering => "degraded ordering: no edges; the nodes run in the order of their declaration"@,
        DiagnosticModel::UnreachableNode(name) => "unreachable node: no path leads to node '"@
            + name + "'"@,
    }
}

impl Diagnostic {
    /// What the warning says, as text.
    pub fn message(&self) -> (out: String)
        ensures
            out@ == diagnostic_text(self@),
    {
        match self {
            Diagnostic::AmbiguousNodeRouting(name) => {
                let mut out = String::from_str("ambiguous routing: node '");
                out.append(name.as_str());
                out.append(
                    "' has a conditional dispatch and an unconditional edge; the edge is ignored",
                );
                out
            },
            Diagnostic::DegradedOrdering => String::from_str(
                "degraded ordering: no edges; the nodes run in the order of their declaration",
            ),
            Diagnostic::UnreachableNode(name) => {
                let mut out = String::from_str("unreachable node: no path leads to node '");
                out.append(name.as_str());
                out.append("'");
                out
            },
        }
    }
}

/// The warnings as values of the model.
pub open spec fn diagnostics(v: Seq<Diagnostic>) -> Seq<DiagnosticModel> {
    Seq::new(v.len(), |i: int| v[i]@)
}

impl Clone for SynthesisError {
    fn clone(&self) -> (out: Self)
        ensures
            out@ == self@,
    {
        match self {
            SynthesisError::MalformedDescriptor(what) => SynthesisError::MalformedDescriptor(
                what.clone(),
            ),
            SynthesisError::DanglingReference(name) => SynthesisError::DanglingReference(
                name.clone(),
            ),
            SynthesisError::NonTerminatingLinearCycle(name) => SynthesisError::NonTerminatingLinearCycle(
                name.clone(),
            ),
        }
    }
}

impl Clone for Diagnostic {
    fn clone(&self) -> (out: Self)
        ensures
            out@ == self@,
    {
        match self {
            Diagnostic::AmbiguousNodeRouting(name) => Diagnostic::AmbiguousNodeRouting(name.clone()),
            Diagnostic::DegradedOrdering => Diagnostic::DegradedOrdering,
            Diagnostic::UnreachableNode(name) => Diagnostic::UnreachableNode(name.clone()),
        }
    }
}

} // verus!
