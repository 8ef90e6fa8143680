//! What decides where a run of a graph goes, and what is recorded of the run.

use crate::document::{
    entries_of, find_member, items, lookup, members, read_text, text_at, tree_of, JsonModel,
};
use crate::text::{copy_strings, holds, same_text, strings};
use vstd::prelude::*;
use vstd::string::StringExecFns;

verus! {

/// What is known of a run of a graph: the node it stands at, the nodes it has
/// come through, and the errors met on the way.
#[derive(Debug)]
pub struct GraphMetadata {
    pub current_node: String,
    pub execution_path: Vec<String>,
    pub errors: Vec<String>,
}

impl GraphMetadata {
    /// The record of a run that has not begun: it stands at the start and has
    /// come through nothing.
    pub fn new() -> (m: Self)
        ensures
            m.current_node@ == "__start__"@,
            m.execution_path@.len() == 0,
            m.errors@.len() == 0,
    {
        GraphMetadata {
            current_node: String::from_str("__start__"),
            execution_path: Vec::new(),
            errors: Vec::new(),
        }
    }

    /// Records that the run has come to `node`, and says whether the run ends
    /// there: it ends at the node called `__end__`.
    pub fn enter(&mut self, node: &str) -> (ended: bool)
        ensures
            final(self).current_node@ == node@,
            strings(final(self).execution_path@) == strings(old(self).execution_path@).push(node@),
            final(self).errors == old(self).errors,
            ended == (node@ == "__end__"@),
    {
        self.current_node = String::from_str(node);
        self.execution_path.push(String::from_str(node));
        assert(strings(self.execution_path@) =~= strings(old(self).execution_path@).push(node@));
        same_text(node, "__end__")
    }
}

/// A message of a conversation with a language model.
#[derive(Debug)]
pub struct Message {
    pub role: String,
    pub content: String,
}

/// A transition of a running graph. A guarded transition is taken only where
/// its condition holds of the state.
#[derive(Debug)]
pub struct Edge {
    pub from: String,
    pub to: String,
    pub guarded: bool,
}

/// Whether the transition at place `i` can be taken from `current`: it leaves
/// `current`, and it is not guarded or its condition holds. A condition of which
/// nothing is said does not hold.
pub open spec fn can_take(edges: Seq<Edge>, holds: Seq<bool>, current: Seq<char>, i: int) -> bool {
    edges[i].from@ == current && (!edges[i].guarded || (0 <= i < holds.len() && holds[i]))
}

/// The place of the first transition at or after `i` that can be taken from
/// `current`; the number of transitions where there is none.
pub open spec fn next_from(edges: Seq<Edge>, holds: Seq<bool>, current: Seq<char>, i: int) -> int
    decreases edges.len() - i,
{
    if i < 0 || i >= edges.len() {
        edges.len() as int
    } else if can_take(edges, holds, current, i) {
        i
    } else {
        next_from(edges, holds, current, i + 1)
    }
}

/// `next_from` gives the least place whose transition can be taken.
pub proof fn lemma_next_from(edges: Seq<Edge>, holds: Seq<bool>, current: Seq<char>, i: int)
    requires
        0 <= i <= edges.len(),
    ensures
        i <= next_from(edges, holds, current, i) <= edges.len(),
        next_from(edges, holds, current, i) < edges.len() ==> can_take(
            edges,
            holds,
            current,
            next_from(edges, holds, current, i),
        ),
        forall|j: int| i <= j < next_from(edges, holds, current, i) ==> !can_take(edges, holds, current, j),
    decreases edges.len() - i,
{
    if i < edges.len() && !can_take(edges, holds, current, i) {
        lemma_next_from(edges, holds, current, i + 1);
    }
}

/// What a run does on coming to a node.
#[derive(Debug, Clone, Copy, PartialEq, Eq)]
pub enum Arrival {
    /// The run has come to its end.
    End,
    /// The node has an action, which is to run now.
    Run,
    /// The node has no action; the run passes on.
    Pass,
}

/// What decides where a run of a graph goes: the names of the nodes that have an
/// action, the transitions, and the node at which a run begins.
#[derive(Debug)]
pub struct GraphExecutor {
    pub nodes: Vec<String>,
    pub edges: Vec<Edge>,
    pub entry_point: String,
}

impl GraphExecutor {
    /// An executor without nodes and transitions, whose runs begin at the start.
    pub fn new() -> (r: Self)
        ensures
            r.nodes@.len() == 0,
            r.edges@.len() == 0,
            r.entry_point@ == "__start__"@,
    {
        GraphExecutor {
            nodes: Vec::new(),
            edges: Vec::new(),
            entry_point: String::from_str("__start__"),
        }
    }

    /// Notes that the node called `name` has an action.
    pub fn add_node(&mut self, name: &str)
        ensures
            strings(final(self).nodes@) == strings(old(self).nodes@).push(name@),
            final(self).edges == old(self).edges,
            final(self).entry_point == old(self).entry_point,
    {
        self.nodes.push(String::from_str(name));
        assert(strings(self.nodes@) =~= strings(old(self).nodes@).push(name@));
    }

    /// Records in `metadata` that the run has come to `current`, and says what
    /// the run does there: it ends at the node called `__end__`, runs the action
    /// of a node that has one, and passes on otherwise.
    pub fn arrive(&self, metadata: &mut GraphMetadata, current: &str) -> (what: Arrival)
        ensures
            final(metadata).current_node@ == current@,
            strings(final(metadata).execution_path@) == strings(old(metadata).execution_path@).push(
                current@,
            ),
            final(metadata).errors == old(metadata).errors,
            what == if current@ == "__end__"@ {
                Arrival::End
            } else if strings(self.nodes@).contains(current@) {
                Arrival::Run
            } else {
                Arrival::Pass
            },
    {
        if metadata.enter(current) {
            Arrival::End
        } else if holds(&self.nodes, current) {
            Arrival::Run
        } else {
            Arrival::Pass
        }
    }

    /// Adds a transition from `from` to `to` that is not guarded, after those
    /// that were added before.
    pub fn add_edge(&mut self, from: &str, to: &str)
        ensures
            final(self).entry_point == old(self).entry_point,
            final(self).nodes == old(self).nodes,
            final(self).edges@.len() == old(self).edges@.len() + 1,
            forall|i: int| 0 <= i < old(self).edges@.len() ==> final(self).edges@[i] == old(self).edges@[i],
            final(self).edges@.last().from@ == from@,
            final(self).edges@.last().to@ == to@,
            !final(self).edges@.last().guarded,
    {
        self.edges.push(
            Edge { from: String::from_str(from), to: String::from_str(to), guarded: false },
        );
    }

    /// Makes runs begin at `node`.
    pub fn set_entry_point(&mut self, node: &str)
        ensures
            final(self).entry_point@ == node@,
            final(self).edges == old(self).edges,
            final(self).nodes == old(self).nodes,
    {
        self.entry_point = String::from_str(node);
    }

    /// The place of the first transition at or after `from` that leaves
    /// `current`, whatever guards it.
    pub fn next_candidate(&self, current: &str, from: usize) -> (k: Option<usize>)
        ensures
            match k {
                Some(place) => {
                    &&& from <= place < self.edges.len()
                    &&& self.edges@[place as int].from@ == current@
                    &&& forall|j: int| from <= j < place ==> self.edges@[j].from@ != current@
                },
                None => forall|j: int| from <= j < self.edges.len() ==> self.edges@[j].from@ != current@,
            },
    {
        let mut i: usize = from;
        while i < self.edges.len()
            invariant
                from <= i,
                forall|j: int| from <= j < i && j < self.edges.len() ==> self.edges@[j].from@ != current@,
            decreases self.edges.len() - i,
        {
            if same_text(self.edges[i].from.as_str(), current) {
                return Some(i);
            }
            i += 1;
        }
        None
    }

    /// The node that a run goes on to from `current`: where the first
    /// transition leads that leaves `current` and is not guarded or has its
    /// condition hold. `verdicts` says of each transition, by its place, whether its
    /// condition holds of the state.
    pub fn find_next_node(&self, current: &str, verdicts: &Vec<bool>) -> (next: Option<String>)
        ensures
            match next {
                Some(node) => {
                    let k = next_from(self.edges@, verdicts@, current@, 0);
                    k < self.edges.len() && node@ == self.edges@[k].to@
                },
                None => next_from(self.edges@, verdicts@, current@, 0) == self.edges.len(),
            },
    {
        let mut i: usize = 0;
        while i < self.edges.len()
            invariant
                i <= self.edges.len(),
                next_from(self.edges@, verdicts@, current@, 0) == next_from(
                    self.edges@,
                    verdicts@,
                    current@,
                    i as int,
                ),
            decreases self.edges.len() - i,
        {
            if same_text(self.edges[i].from.as_str(), current) && (!self.edges[i].guarded || (i
                < verdicts.len() && verdicts[i])) {
                return Some(self.edges[i].to.clone());
            }
            i += 1;
        }
        None
    }
}

/// The text that a language model answered with, as its reply holds it: the
/// string `content` of the object `message` of the first item of the array
/// `choices`. Where the reply holds no such string the text is empty.
pub open spec fn completion_of(reply: JsonModel) -> Seq<char> {
    match entries_of(reply) {
        None => Seq::empty(),
        Some(top) => match lookup(top, "choices"@) {
            Some(JsonModel::Array(choices)) => if choices.len() == 0 {
                Seq::empty()
            } else {
                match entries_of(choices[0]) {
                    None => Seq::empty(),
                    Some(choice) => match lookup(choice, "message"@) {
                        Some(JsonModel::Object(message)) => match text_at(message, "content"@) {
                            Some(content) => content,
                            None => Seq::empty(),
                        },
                        _ => Seq::empty(),
                    },
                }
            },
            _ => Seq::empty(),
        },
    }
}

/// The text that a language model answered with, as its reply holds it.
pub fn completion_text(reply: &serde_json::Value) -> (out: String)
    ensures
        out@ == completion_of(tree_of(*reply)),
{
    let top = match members(reply) {
        Some(top) => top,
        None => {
            return String::new();
        },
    };
    let choices = match find_member(&top, "choices") {
        Some(holder) => match items(holder) {
            Some(list) => list,
            None => {
                return String::new();
            },
        },
        None => {
            return String::new();
        },
    };
    if choices.len() == 0 {
        return String::new();
    }
    assert(crate::document::item_models(choices@)[0] == tree_of(choices@[0]));
    let choice = match members(&choices[0]) {
        Some(choice) => choice,
        None => {
            return String::new();
        },
    };
    let message = match find_member(&choice, "message") {
        Some(holder) => match members(holder) {
            Some(message) => message,
            None => {
                return String::new();
            },
        },
        None => {
            return String::new();
        },
    };
    match read_text(&message, "content") {
        Some(content) => content,
        None => String::new(),
    }
}

/// The message that a language model answered with: its text in the role of
/// the assistant.
pub fn assistant_message(reply: &serde_json::Value) -> (out: Message)
    ensures
        out.role@ == "assistant"@,
        out.content@ == completion_of(tree_of(*reply)),
{
    Message { role: String::from_str("assistant"), content: completion_text(reply) }
}

impl Clone for GraphMetadata {
    fn clone(&self) -> (out: Self)
        ensures
            out.current_node@ == self.current_node@,
            strings(out.execution_path@) == strings(self.execution_path@),
            strings(out.errors@) == strings(self.errors@),
    {
        GraphMetadata {
            current_node: self.current_node.clone(),
            execution_path: copy_strings(&self.execution_path),
            errors: copy_strings(&self.errors),
        }
    }
}

impl Clone for Message {
    fn clone(&self) -> (out: Self)
        ensures
            out.role@ == self.role@,
            out.content@ == self.content@,
    {
        Message { role: self.role.clone(), content: self.content.clone() }
    }
}

impl Clone for Edge {
    fn clone(&self) -> (out: Self)
        ensures
            out.from@ == self.from@,
            out.to@ == self.to@,
            out.guarded == self.guarded,
    {
        Edge { from: self.from.clone(), to: self.to.clone(), guarded: self.guarded }
    }
}

} // verus!
