//! The description of a graph as a JSON document, and how it is read.
//!
//! The document is parsed by `serde_json`. What the parser does is stated here,
//! not proved: the functions marked `external_body` call it, and their contracts
//! name what it returns. All that reads the parsed value is proved against
//! those contracts.

use crate::diagnostics::{ErrorModel, SynthesisError};
use crate::graph::{
    ConditionalEdge, DispatchModel, EdgeInfo, EdgeModel, FieldInfo, FieldModel, GraphInfo,
    GraphModel, NodeInfo, NodeModel, StateSchema,
};
use crate::text::same_text;
use vstd::prelude::*;
use vstd::string::StringExecFns;

verus! {

/// A JSON value as Verus sees it: a value that is carried through and read
/// only through the functions below.
#[verifier::external_type_specification]
#[verifier::external_body]
pub struct ExValue(serde_json::Value);

/// The error of the JSON parser.
#[verifier::external_type_specification]
#[verifier::external_body]
pub struct ExJsonError(serde_json::Error);

/// A JSON value, as a value of the mathematical model. A number is held as the
/// text it is written as; an object holds its members in their order.
pub ghost enum JsonModel {
    Null,
    Bool(bool),
    Number(Seq<char>),
    Text(Seq<char>),
    Array(Seq<JsonModel>),
    Object(Seq<(Seq<char>, JsonModel)>),
}

/// What a text is parsed to: the JSON value where the text is a JSON document,
/// else what the parser says is wrong with the text.
pub uninterp spec fn document_of(text: Seq<char>) -> Result<JsonModel, Seq<char>>;

/// What an error of the parser says.
pub uninterp spec fn complaint_of(e: serde_json::Error) -> Seq<char>;

/// What a JSON value holds.
pub uninterp spec fn tree_of(v: serde_json::Value) -> JsonModel;

/// The text that a JSON value is written as, in the compact form.
pub uninterp spec fn json_text(tree: JsonModel) -> Seq<char>;

/// One level of a JSON value: what kind of value it is, and what it holds
/// directly. The items of an array and the members of an object are handed out
/// as they are.
pub enum Shallow<'a> {
    Null,
    Bool(bool),
    Number(String),
    Text(&'a str),
    Array(&'a Vec<serde_json::Value>),
    Object(Vec<(&'a str, &'a serde_json::Value)>),
}

/// What the items of an array hold, in order.
pub open spec fn item_models(items: Seq<serde_json::Value>) -> Seq<JsonModel> {
    Seq::new(items.len(), |i: int| tree_of(items[i]))
}

/// The names of the members of an object and what they hold, in order.
pub open spec fn entry_models(entries: Seq<(&str, &serde_json::Value)>) -> Seq<
    (Seq<char>, JsonModel),
> {
    Seq::new(entries.len(), |i: int| (entries[i].0@, tree_of(*entries[i].1)))
}

/// The JSON value that one level stands for.
pub open spec fn shallow_model(s: Shallow) -> JsonModel {
    match s {
        Shallow::Null => JsonModel::Null,
        Shallow::Bool(b) => JsonModel::Bool(b),
        Shallow::Number(n) => JsonModel::Number(n@),
        Shallow::Text(t) => JsonModel::Text(t@),
        Shallow::Array(items) => JsonModel::Array(item_models(items@)),
        Shallow::Object(entries) => JsonModel::Object(entry_models(entries@)),
    }
}

/// Parses a text as a JSON document with `serde_json::from_str`. Whether the
/// text is a document, which value it is parsed to and which error it is
/// refused with depend on the text alone; `document_of` is the name of that
/// outcome.
#[verifier::external_body]
fn parse_document(text: &str) -> (r: Result<serde_json::Value, serde_json::Error>)
    ensures
        match r {
            Ok(v) => document_of(text@) == Ok::<JsonModel, Seq<char>>(tree_of(v)),
            Err(e) => document_of(text@) == Err::<JsonModel, Seq<char>>(complaint_of(e)),
        },
{
    serde_json::from_str(text)
}

/// Takes a `serde_json::Value` apart by one level: the variant of the value, with
/// a number as the text that `Number` displays, a string and the items of an
/// array as they are, and the members of an object in the order in which
/// `Map::iter` hands them out. `tree_of` is the name of what the value holds.
#[verifier::external_body]
fn inspect<'a>(v: &'a serde_json::Value) -> (r: Shallow<'a>)
    ensures
        shallow_model(r) == tree_of(*v),
{
    match v {
        serde_json::Value::Null => Shallow::Null,
        serde_json::Value::Bool(b) => Shallow::Bool(*b),
        serde_json::Value::Number(n) => Shallow::Number(n.to_string()),
        serde_json::Value::String(s) => Shallow::Text(s.as_str()),
        serde_json::Value::Array(items) => Shallow::Array(items),
        serde_json::Value::Object(map) => Shallow::Object(
            map.iter().map(|(k, v)| (k.as_str(), v)).collect(),
        ),
    }
}

/// Writes a JSON value as text in the compact form, as the `Display` of
/// `serde_json::Value` does. The text depends on what the value holds alone;
/// `json_text` is its name.
#[verifier::external_body]
fn render(v: &serde_json::Value) -> (out: String)
    ensures
        out@ == json_text(tree_of(*v)),
{
    v.to_string()
}

/// What an error of the JSON parser says, as the `Display` of
/// `serde_json::Error` writes it. The text depends on the error alone;
/// `complaint_of` is its name.
#[verifier::external_body]
fn describe(e: &serde_json::Error) -> (out: String)
    ensures
        out@ == complaint_of(*e),
{
    e.to_string()
}

/// The place of the first member called `key` at or after `i`; the number of
/// members where there is none.
pub open spec fn member_from(entries: Seq<(Seq<char>, JsonModel)>, key: Seq<char>, i: int) -> int
    decreases entries.len() - i,
{
    if i < 0 || i >= entries.len() {
        entries.len() as int
    } else if entries[i].0 == key {
        i
    } else {
        member_from(entries, key, i + 1)
    }
}

/// What the first member called `key` holds.
pub open spec fn lookup(entries: Seq<(Seq<char>, JsonModel)>, key: Seq<char>) -> Option<JsonModel> {
    let k = member_from(entries, key, 0);
    if 0 <= k < entries.len() {
        Some(entries[k].1)
    } else {
        None
    }
}

/// The members of a value that is an object.
pub open spec fn entries_of(j: JsonModel) -> Option<Seq<(Seq<char>, JsonModel)>> {
    match j {
        JsonModel::Object(entries) => Some(entries),
        _ => None,
    }
}

/// The items of a value that is an array.
pub open spec fn items_of(j: JsonModel) -> Option<Seq<JsonModel>> {
    match j {
        JsonModel::Array(items) => Some(items),
        _ => None,
    }
}

/// The text of the member called `key`, where there is such a member and it is a
/// string.
pub open spec fn text_at(entries: Seq<(Seq<char>, JsonModel)>, key: Seq<char>) -> Option<Seq<char>> {
    match lookup(entries, key) {
        Some(JsonModel::Text(t)) => Some(t),
        _ => None,
    }
}

/// The text of the member called `key` that may be left out: nothing where the
/// member is missing or null, its text where it is a string. There is no answer
/// where it is anything else.
pub open spec fn optional_text_at(entries: Seq<(Seq<char>, JsonModel)>, key: Seq<char>) -> Option<
    Option<Seq<char>>,
> {
    match lookup(entries, key) {
        None => Some(None),
        Some(JsonModel::Null) => Some(None),
        Some(JsonModel::Text(t)) => Some(Some(t)),
        _ => None,
    }
}

/// The truth value of the member called `key`, where there is such a member and
/// it is a truth value.
pub open spec fn flag_at(entries: Seq<(Seq<char>, JsonModel)>, key: Seq<char>) -> Option<bool> {
    match lookup(entries, key) {
        Some(JsonModel::Bool(b)) => Some(b),
        _ => None,
    }
}

/// The member called `key` that may be left out, written as text: nothing
/// where the member is missing or null.
pub open spec fn optional_value_at(entries: Seq<(Seq<char>, JsonModel)>, key: Seq<char>) -> Option<
    Seq<char>,
> {
    match lookup(entries, key) {
        None => None,
        Some(JsonModel::Null) => None,
        Some(j) => Some(json_text(j)),
    }
}

/// The error for a document that lacks the part called `what`, or holds
/// something else in its place.
pub open spec fn lacks(what: Seq<char>) -> ErrorModel {
    ErrorModel::MalformedDescriptor(what)
}

/// The first member called `key`.
pub(crate) fn find_member<'a>(entries: &Vec<(&'a str, &'a serde_json::Value)>, key: &str) -> (r: Option<
    &'a serde_json::Value,
>)
    ensures
        match r {
            Some(v) => lookup(entry_models(entries@), key@) == Some(tree_of(*v)),
            None => lookup(entry_models(entries@), key@) is None,
        },
{
    let mut i: usize = 0;
    while i < entries.len()
        invariant
            i <= entries.len(),
            member_from(entry_models(entries@), key@, 0) == member_from(
                entry_models(entries@),
                key@,
                i as int,
            ),
        decreases entries.len() - i,
    {
        if same_text(entries[i].0, key) {
            return Some(entries[i].1);
        }
        i += 1;
    }
    None
}

/// The members of a value that is an object.
pub(crate) fn members<'a>(v: &'a serde_json::Value) -> (r: Option<Vec<(&'a str, &'a serde_json::Value)>>)
    ensures
        match r {
            Some(entries) => entries_of(tree_of(*v)) == Some(entry_models(entries@)),
            None => entries_of(tree_of(*v)) is None,
        },
{
    match inspect(v) {
        Shallow::Object(entries) => Some(entries),
        _ => None,
    }
}

/// The items of a value that is an array.
pub(crate) fn items<'a>(v: &'a serde_json::Value) -> (r: Option<&'a Vec<serde_json::Value>>)
    ensures
        match r {
            Some(list) => items_of(tree_of(*v)) == Some(item_models(list@)),
            None => items_of(tree_of(*v)) is None,
        },
{
    match inspect(v) {
        Shallow::Array(list) => Some(list),
        _ => None,
    }
}

/// The text of the member called `key`, where it is a string.
pub(crate) fn read_text(entries: &Vec<(&str, &serde_json::Value)>, key: &str) -> (r: Option<String>)
    ensures
        crate::graph::opt_text(r) == text_at(entry_models(entries@), key@),
{
    match find_member(entries, key) {
        Some(v) => match inspect(v) {
            Shallow::Text(t) => Some(String::from_str(t)),
            _ => None,
        },
        None => None,
    }
}

fn read_optional_text(entries: &Vec<(&str, &serde_json::Value)>, key: &str) -> (r: Option<
    Option<String>,
>)
    ensures
        match r {
            Some(t) => optional_text_at(entry_models(entries@), key@) == Some(
                crate::graph::opt_text(t),
            ),
            None => optional_text_at(entry_models(entries@), key@) is None,
        },
{
    match find_member(entries, key) {
        Some(v) => match inspect(v) {
            Shallow::Null => Some(None),
            Shallow::Text(t) => Some(Some(String::from_str(t))),
            _ => None,
        },
        None => Some(None),
    }
}

fn read_flag(entries: &Vec<(&str, &serde_json::Value)>, key: &str) -> (r: Option<bool>)
    ensures
        r == flag_at(entry_models(entries@), key@),
{
    match find_member(entries, key) {
        Some(v) => match inspect(v) {
            Shallow::Bool(b) => Some(b),
            _ => None,
        },
        None => None,
    }
}

fn read_optional_value(entries: &Vec<(&str, &serde_json::Value)>, key: &str) -> (r: Option<String>)
    ensures
        crate::graph::opt_text(r) == optional_value_at(entry_models(entries@), key@),
{
    match find_member(entries, key) {
        Some(v) => match inspect(v) {
            Shallow::Null => None,
            _ => Some(render(v)),
        },
        None => None,
    }
}

fn missing(what: &str) -> (e: SynthesisError)
    ensures
        e@ == lacks(what@),
{
    SynthesisError::MalformedDescriptor(String::from_str(what))
}

/// The node that a JSON value describes: an object with the strings `name`,
/// `func_name` and `signature`, and with `docstring` and `source_hint`, which
/// are strings and may be left out. Other members are passed over.
pub open spec fn node_of(j: JsonModel) -> Result<NodeModel, ErrorModel> {
    match entries_of(j) {
        None => Err(lacks("nodes"@)),
        Some(es) => if text_at(es, "name"@) is None {
            Err(lacks("name"@))
        } else if text_at(es, "func_name"@) is None {
            Err(lacks("func_name"@))
        } else if text_at(es, "signature"@) is None {
            Err(lacks("signature"@))
        } else if optional_text_at(es, "docstring"@) is None {
            Err(lacks("docstring"@))
        } else if optional_text_at(es, "source_hint"@) is None {
            Err(lacks("source_hint"@))
        } else {
            Ok(
                NodeModel {
                    name: text_at(es, "name"@)->0,
                    func_name: text_at(es, "func_name"@)->0,
                    signature: text_at(es, "signature"@)->0,
                    docstring: optional_text_at(es, "docstring"@)->0,
                    source_hint: optional_text_at(es, "source_hint"@)->0,
                },
            )
        },
    }
}

/// The edge that a JSON value describes: an object with the strings `from` and
/// `to`, and with `condition`, which is a string and may be left out.
pub open spec fn edge_of(j: JsonModel) -> Result<EdgeModel, ErrorModel> {
    match entries_of(j) {
        None => Err(lacks("edges"@)),
        Some(es) => if text_at(es, "from"@) is None {
            Err(lacks("from"@))
        } else if text_at(es, "to"@) is None {
            Err(lacks("to"@))
        } else if optional_text_at(es, "condition"@) is None {
            Err(lacks("condition"@))
        } else {
            Ok(
                EdgeModel {
                    from: text_at(es, "from"@)->0,
                    to: text_at(es, "to"@)->0,
                    condition: optional_text_at(es, "condition"@)->0,
                },
            )
        },
    }
}

/// The name under which a field's declared type stands in a document.
pub open spec fn type_key() -> Seq<char> {
    "type_"@ + "name"@
}

/// The field that a JSON value describes: an object with the string `name`, the
/// string of its declared type, the truth value `is_optional`, and with
/// `default_value`, which is any value and may be left out.
pub open spec fn field_of(j: JsonModel) -> Result<FieldModel, ErrorModel> {
    match entries_of(j) {
        None => Err(lacks("fields"@)),
        Some(es) => if text_at(es, "name"@) is None {
            Err(lacks("name"@))
        } else if text_at(es, type_key()) is None {
            Err(lacks(type_key()))
        } else if flag_at(es, "is_optional"@) is None {
            Err(lacks("is_optional"@))
        } else {
            Ok(
                FieldModel {
                    name: text_at(es, "name"@)->0,
                    declared_type: text_at(es, type_key())->0,
                    is_optional: flag_at(es, "is_optional"@)->0,
                    default_value: optional_value_at(es, "default_value"@),
                },
            )
        },
    }
}

/// The nodes that the first `n` items describe, in order, or the error of the
/// first item that describes none.
pub open spec fn nodes_upto(items: Seq<JsonModel>, n: nat) -> Result<Seq<NodeModel>, ErrorModel>
    decreases n,
{
    if n == 0 {
        Ok(Seq::empty())
    } else {
        match nodes_upto(items, (n - 1) as nat) {
            Err(e) => Err(e),
            Ok(before) => match node_of(items[n - 1]) {
                Err(e) => Err(e),
                Ok(node) => Ok(before.push(node)),
            },
        }
    }
}

/// The edges that the first `n` items describe, in order, or the error of the
/// first item that describes none.
pub open spec fn edges_upto(items: Seq<JsonModel>, n: nat) -> Result<Seq<EdgeModel>, ErrorModel>
    decreases n,
{
    if n == 0 {
        Ok(Seq::empty())
    } else {
        match edges_upto(items, (n - 1) as nat) {
            Err(e) => Err(e),
            Ok(before) => match edge_of(items[n - 1]) {
                Err(e) => Err(e),
                Ok(edge) => Ok(before.push(edge)),
            },
        }
    }
}

/// The fields that the first `n` items describe, in order, or the error of the
/// first item that describes none.
pub open spec fn fields_upto(items: Seq<JsonModel>, n: nat) -> Result<Seq<FieldModel>, ErrorModel>
    decreases n,
{
    if n == 0 {
        Ok(Seq::empty())
    } else {
        match fields_upto(items, (n - 1) as nat) {
            Err(e) => Err(e),
            Ok(before) => match field_of(items[n - 1]) {
                Err(e) => Err(e),
                Ok(field) => Ok(before.push(field)),
            },
        }
    }
}

/// The branches that the first `n` members describe, each by its label and the
/// string it holds, in order. There are none where one of them holds no string.
pub open spec fn branches_upto(entries: Seq<(Seq<char>, JsonModel)>, n: nat) -> Option<
    Seq<(Seq<char>, Seq<char>)>,
>
    decreases n,
{
    if n == 0 {
        Some(Seq::empty())
    } else {
        match branches_upto(entries, (n - 1) as nat) {
            None => None,
            Some(before) => match entries[n - 1].1 {
                JsonModel::Text(target) => Some(before.push((entries[n - 1].0, target))),
                _ => None,
            },
        }
    }
}

/// The dispatch of the node called `source` that a JSON value describes: an
/// object with the string `condition_func` and the object `branches`, whose
/// members hold strings.
pub open spec fn dispatch_of(source: Seq<char>, j: JsonModel) -> Result<DispatchModel, ErrorModel> {
    match entries_of(j) {
        None => Err(lacks("conditional_edges"@)),
        Some(es) => if text_at(es, "condition_func"@) is None {
            Err(lacks("condition_func"@))
        } else {
            match lookup(es, "branches"@) {
                Some(JsonModel::Object(bs)) => match branches_upto(bs, bs.len()) {
                    Some(branches) => Ok(
                        DispatchModel {
                            source,
                            condition_func: text_at(es, "condition_func"@)->0,
                            branches,
                        },
                    ),
                    None => Err(lacks("branches"@)),
                },
                _ => Err(lacks("branches"@)),
            }
        },
    }
}

/// The dispatches that the first `n` members describe, in order, or the error
/// of the first member that describes none.
pub open spec fn dispatches_upto(entries: Seq<(Seq<char>, JsonModel)>, n: nat) -> Result<
    Seq<DispatchModel>,
    ErrorModel,
>
    decreases n,
{
    if n == 0 {
        Ok(Seq::empty())
    } else {
        match dispatches_upto(entries, (n - 1) as nat) {
            Err(e) => Err(e),
            Ok(before) => match dispatch_of(entries[n - 1].0, entries[n - 1].1) {
                Err(e) => Err(e),
                Ok(d) => Ok(before.push(d)),
            },
        }
    }
}

fn read_node(v: &serde_json::Value) -> (r: Result<NodeInfo, SynthesisError>)
    ensures
        match r {
            Ok(node) => node_of(tree_of(*v)) == Ok::<NodeModel, ErrorModel>(node@),
            Err(e) => node_of(tree_of(*v)) == Err::<NodeModel, ErrorModel>(e@),
        },
{
    let es = match members(v) {
        Some(es) => es,
        None => {
            return Err(missing("nodes"));
        },
    };
    let name = match read_text(&es, "name") {
        Some(t) => t,
        None => {
            return Err(missing("name"));
        },
    };
    let func_name = match read_text(&es, "func_name") {
        Some(t) => t,
        None => {
            return Err(missing("func_name"));
        },
    };
    let signature = match read_text(&es, "signature") {
        Some(t) => t,
        None => {
            return Err(missing("signature"));
        },
    };
    let docstring = match read_optional_text(&es, "docstring") {
        Some(t) => t,
        None => {
            return Err(missing("docstring"));
        },
    };
    let source_hint = match read_optional_text(&es, "source_hint") {
        Some(t) => t,
        None => {
            return Err(missing("source_hint"));
        },
    };
    Ok(NodeInfo { name, func_name, signature, docstring, source_hint })
}

fn read_edge(v: &serde_json::Value) -> (r: Result<EdgeInfo, SynthesisError>)
    ensures
        match r {
            Ok(edge) => edge_of(tree_of(*v)) == Ok::<EdgeModel, ErrorModel>(edge@),
            Err(e) => edge_of(tree_of(*v)) == Err::<EdgeModel, ErrorModel>(e@),
        },
{
    let es = match members(v) {
        Some(es) => es,
        None => {
            return Err(missing("edges"));
        },
    };
    let from = match read_text(&es, "from") {
        Some(t) => t,
        None => {
            return Err(missing("from"));
        },
    };
    let to = match read_text(&es, "to") {
        Some(t) => t,
        None => {
            return Err(missing("to"));
        },
    };
    let condition = match read_optional_text(&es, "condition") {
        Some(t) => t,
        None => {
            return Err(missing("condition"));
        },
    };
    Ok(EdgeInfo { from, to, condition })
}

fn type_key_text() -> (key: String)
    ensures
        key@ == type_key(),
{
    let mut key = String::from_str("type_");
    key.append("name");
    key
}

fn read_field(v: &serde_json::Value) -> (r: Result<FieldInfo, SynthesisError>)
    ensures
        match r {
            Ok(field) => field_of(tree_of(*v)) == Ok::<FieldModel, ErrorModel>(field@),
            Err(e) => field_of(tree_of(*v)) == Err::<FieldModel, ErrorModel>(e@),
        },
{
    let es = match members(v) {
        Some(es) => es,
        None => {
            return Err(missing("fields"));
        },
    };
    let name = match read_text(&es, "name") {
        Some(t) => t,
        None => {
            return Err(missing("name"));
        },
    };
    let key = type_key_text();
    let declared_type = match read_text(&es, key.as_str()) {
        Some(t) => t,
        None => {
            return Err(missing(key.as_str()));
        },
    };
    let is_optional = match read_flag(&es, "is_optional") {
        Some(b) => b,
        None => {
            return Err(missing("is_optional"));
        },
    };
    let default_value = read_optional_value(&es, "default_value");
    Ok(FieldInfo { name, declared_type, is_optional, default_value })
}

/// The nodes as values of the model.
pub open spec fn node_models(v: Seq<NodeInfo>) -> Seq<NodeModel> {
    Seq::new(v.len(), |i: int| v[i]@)
}

fn read_nodes(items: &Vec<serde_json::Value>) -> (r: Result<Vec<NodeInfo>, SynthesisError>)
    ensures
        match r {
            Ok(list) => nodes_upto(item_models(items@), items@.len()) == Ok::<Seq<NodeModel>, ErrorModel>(
                node_models(list@),
            ),
            Err(e) => nodes_upto(item_models(items@), items@.len()) == Err::<Seq<NodeModel>, ErrorModel>(e@),
        },
{
    let mut list: Vec<NodeInfo> = Vec::new();
    let mut i: usize = 0;
    assert(node_models(list@) =~= Seq::<NodeModel>::empty());
    while i < items.len()
        invariant
            i <= items.len(),
            nodes_upto(item_models(items@), i as nat) == Ok::<Seq<NodeModel>, ErrorModel>(
                node_models(list@),
            ),
        decreases items.len() - i,
    {
        let ghost before = node_models(list@);
        assert(item_models(items@)[i as int] == tree_of(items@[i as int]));
        match read_node(&items[i]) {
            Ok(item) => {
                list.push(item);
                assert(node_models(list@) =~= before.push(item@));
            },
            Err(e) => {
                proof {
                    lemma_nodes_fail(item_models(items@), (i + 1) as nat, items@.len());
                }
                return Err(e);
            },
        }
        i += 1;
    }
    Ok(list)
}

/// Where the first `n` items fail, so do the first `m` for every larger `m`, with
/// the same error.
proof fn lemma_nodes_fail(items: Seq<JsonModel>, n: nat, m: nat)
    requires
        n <= m,
        nodes_upto(items, n) is Err,
    ensures
        nodes_upto(items, m) == nodes_upto(items, n),
    decreases m,
{
    if n < m {
        lemma_nodes_fail(items, n, (m - 1) as nat);
    }
}

/// The edges as values of the model.
pub open spec fn edge_models(v: Seq<EdgeInfo>) -> Seq<EdgeModel> {
    Seq::new(v.len(), |i: int| v[i]@)
}

fn read_edges(items: &Vec<serde_json::Value>) -> (r: Result<Vec<EdgeInfo>, SynthesisError>)
    ensures
        match r {
            Ok(list) => edges_upto(item_models(items@), items@.len()) == Ok::<Seq<EdgeModel>, ErrorModel>(
                edge_models(list@),
            ),
            Err(e) => edges_upto(item_models(items@), items@.len()) == Err::<Seq<EdgeModel>, ErrorModel>(e@),
        },
{
    let mut list: Vec<EdgeInfo> = Vec::new();
    let mut i: usize = 0;
    assert(edge_models(list@) =~= Seq::<EdgeModel>::empty());
    while i < items.len()
        invariant
            i <= items.len(),
            edges_upto(item_models(items@), i as nat) == Ok::<Seq<EdgeModel>, ErrorModel>(
                edge_models(list@),
            ),
        decreases items.len() - i,
    {
        let ghost before = edge_models(list@);
        assert(item_models(items@)[i as int] == tree_of(items@[i as int]));
        match read_edge(&items[i]) {
            Ok(item) => {
                list.push(item);
                assert(edge_models(list@) =~= before.push(item@));
            },
            Err(e) => {
                proof {
                    lemma_edges_fail(item_models(items@), (i + 1) as nat, items@.len());
                }
                return Err(e);
            },
        }
        i += 1;
    }
    Ok(list)
}

/// Where the first `n` items fail, so do the first `m` for every larger `m`, with
/// the same error.
proof fn lemma_edges_fail(items: Seq<JsonModel>, n: nat, m: nat)
    requires
        n <= m,
        edges_upto(items, n) is Err,
    ensures
        edges_upto(items, m) == edges_upto(items, n),
    decreases m,
{
    if n < m {
        lemma_edges_fail(items, n, (m - 1) as nat);
    }
}

/// The fields as values of the model.
pub open spec fn field_models(v: Seq<FieldInfo>) -> Seq<FieldModel> {
    Seq::new(v.len(), |i: int| v[i]@)
}

fn read_fields(items: &Vec<serde_json::Value>) -> (r: Result<Vec<FieldInfo>, SynthesisError>)
    ensures
        match r {
            Ok(list) => fields_upto(item_models(items@), items@.len()) == Ok::<Seq<FieldModel>, ErrorModel>(
                field_models(list@),
            ),
            Err(e) => fields_upto(item_models(items@), items@.len()) == Err::<Seq<FieldModel>, ErrorModel>(e@),
        },
{
    let mut list: Vec<FieldInfo> = Vec::new();
    let mut i: usize = 0;
    assert(field_models(list@) =~= Seq::<FieldModel>::empty());
    while i < items.len()
        invariant
            i <= items.len(),
            fields_upto(item_models(items@), i as nat) == Ok::<Seq<FieldModel>, ErrorModel>(
                field_models(list@),
            ),
        decreases items.len() - i,
    {
        let ghost before = field_models(list@);
        assert(item_models(items@)[i as int] == tree_of(items@[i as int]));
        match read_field(&items[i]) {
            Ok(item) => {
                list.push(item);
                assert(field_models(list@) =~= before.push(item@));
            },
            Err(e) => {
                proof {
                    lemma_fields_fail(item_models(items@), (i + 1) as nat, items@.len());
                }
                return Err(e);
            },
        }
        i += 1;
    }
    Ok(list)
}

/// Where the first `n` items fail, so do the first `m` for every larger `m`, with
/// the same error.
proof fn lemma_fields_fail(items: Seq<JsonModel>, n: nat, m: nat)
    requires
        n <= m,
        fields_upto(items, n) is Err,
    ensures
        fields_upto(items, m) == fields_upto(items, n),
    decreases m,
{
    if n < m {
        lemma_fields_fail(items, n, (m - 1) as nat);
    }
}

proof fn lemma_branches_fail(entries: Seq<(Seq<char>, JsonModel)>, n: nat, m: nat)
    requires
        n <= m,
        branches_upto(entries, n) is None,
    ensures
        branches_upto(entries, m) is None,
    decreases m,
{
    if n < m {
        lemma_branches_fail(entries, n, (m - 1) as nat);
    }
}

proof fn lemma_dispatches_fail(entries: Seq<(Seq<char>, JsonModel)>, n: nat, m: nat)
    requires
        n <= m,
        dispatches_upto(entries, n) is Err,
    ensures
        dispatches_upto(entries, m) == dispatches_upto(entries, n),
    decreases m,
{
    if n < m {
        lemma_dispatches_fail(entries, n, (m - 1) as nat);
    }
}

fn read_branches(entries: &Vec<(&str, &serde_json::Value)>) -> (r: Option<Vec<(String, String)>>)
    ensures
        match r {
            Some(list) => branches_upto(entry_models(entries@), entries@.len()) == Some(
                crate::graph::pair_texts(list@),
            ),
            None => branches_upto(entry_models(entries@), entries@.len()) is None,
        },
{
    let mut list: Vec<(String, String)> = Vec::new();
    let mut i: usize = 0;
    assert(crate::graph::pair_texts(list@) =~= Seq::<(Seq<char>, Seq<char>)>::empty());
    while i < entries.len()
        invariant
            i <= entries.len(),
            branches_upto(entry_models(entries@), i as nat) == Some(
                crate::graph::pair_texts(list@),
            ),
        decreases entries.len() - i,
    {
        let ghost before = crate::graph::pair_texts(list@);
        assert(entry_models(entries@)[i as int] == (
            entries@[i as int].0@,
            tree_of(*entries@[i as int].1),
        ));
        match inspect(entries[i].1) {
            Shallow::Text(target) => {
                list.push((String::from_str(entries[i].0), String::from_str(target)));
                assert(crate::graph::pair_texts(list@) =~= before.push(
                    (entries@[i as int].0@, target@),
                ));
            },
            _ => {
                proof {
                    lemma_branches_fail(entry_models(entries@), (i + 1) as nat, entries@.len());
                }
                return None;
            },
        }
        i += 1;
    }
    Some(list)
}

fn read_dispatch(source: &str, v: &serde_json::Value) -> (r: Result<
    (String, ConditionalEdge),
    SynthesisError,
>)
    ensures
        match r {
            Ok(d) => dispatch_of(source@, tree_of(*v)) == Ok::<DispatchModel, ErrorModel>(
                DispatchModel {
                    source: d.0@,
                    condition_func: d.1.condition_func@,
                    branches: crate::graph::pair_texts(d.1.branches@),
                },
            ),
            Err(e) => dispatch_of(source@, tree_of(*v)) == Err::<DispatchModel, ErrorModel>(e@),
        },
{
    let es = match members(v) {
        Some(es) => es,
        None => {
            return Err(missing("conditional_edges"));
        },
    };
    let condition_func = match read_text(&es, "condition_func") {
        Some(t) => t,
        None => {
            return Err(missing("condition_func"));
        },
    };
    let holder = match find_member(&es, "branches") {
        Some(h) => h,
        None => {
            return Err(missing("branches"));
        },
    };
    let bs = match members(holder) {
        Some(bs) => bs,
        None => {
            return Err(missing("branches"));
        },
    };
    match read_branches(&bs) {
        Some(branches) => Ok((String::from_str(source), ConditionalEdge { condition_func, branches })),
        None => Err(missing("branches")),
    }
}

fn read_dispatches(entries: &Vec<(&str, &serde_json::Value)>) -> (r: Result<
    Vec<(String, ConditionalEdge)>,
    SynthesisError,
>)
    ensures
        match r {
            Ok(list) => dispatches_upto(entry_models(entries@), entries@.len()) == Ok::<
                Seq<DispatchModel>,
                ErrorModel,
            >(crate::graph::dispatch_models(list@)),
            Err(e) => dispatches_upto(entry_models(entries@), entries@.len()) == Err::<
                Seq<DispatchModel>,
                ErrorModel,
            >(e@),
        },
{
    let mut list: Vec<(String, ConditionalEdge)> = Vec::new();
    let mut i: usize = 0;
    assert(crate::graph::dispatch_models(list@) =~= Seq::<DispatchModel>::empty());
    while i < entries.len()
        invariant
            i <= entries.len(),
            dispatches_upto(entry_models(entries@), i as nat) == Ok::<Seq<DispatchModel>, ErrorModel>(
                crate::graph::dispatch_models(list@),
            ),
        decreases entries.len() - i,
    {
        let ghost before = crate::graph::dispatch_models(list@);
        assert(entry_models(entries@)[i as int] == (
            entries@[i as int].0@,
            tree_of(*entries@[i as int].1),
        ));
        match read_dispatch(entries[i].0, entries[i].1) {
            Ok(d) => {
                let ghost model = DispatchModel {
                    source: d.0@,
                    condition_func: d.1.condition_func@,
                    branches: crate::graph::pair_texts(d.1.branches@),
                };
                list.push(d);
                assert(crate::graph::dispatch_models(list@) =~= before.push(model));
            },
            Err(e) => {
                proof {
                    lemma_dispatches_fail(entry_models(entries@), (i + 1) as nat, entries@.len());
                }
                return Err(e);
            },
        }
        i += 1;
    }
    Ok(list)
}

/// The nodes of a descriptor: what the array `nodes` describes.
pub open spec fn node_list(es: Seq<(Seq<char>, JsonModel)>) -> Result<Seq<NodeModel>, ErrorModel> {
    match lookup(es, "nodes"@) {
        Some(JsonModel::Array(items)) => nodes_upto(items, items.len()),
        _ => Err(lacks("nodes"@)),
    }
}

/// The edges of a descriptor: what the array `edges` describes.
pub open spec fn edge_list(es: Seq<(Seq<char>, JsonModel)>) -> Result<Seq<EdgeModel>, ErrorModel> {
    match lookup(es, "edges"@) {
        Some(JsonModel::Array(items)) => edges_upto(items, items.len()),
        _ => Err(lacks("edges"@)),
    }
}

/// The fields of a descriptor: what the array `fields` of the object
/// `state_schema` describes.
pub open spec fn field_list(es: Seq<(Seq<char>, JsonModel)>) -> Result<Seq<FieldModel>, ErrorModel> {
    match lookup(es, "state_schema"@) {
        Some(JsonModel::Object(schema)) => match lookup(schema, "fields"@) {
            Some(JsonModel::Array(items)) => fields_upto(items, items.len()),
            _ => Err(lacks("fields"@)),
        },
        _ => Err(lacks("state_schema"@)),
    }
}

/// The dispatch table of a descriptor: what the members of the object
/// `conditional_edges` describe, each for the node it is named after.
pub open spec fn dispatch_list(es: Seq<(Seq<char>, JsonModel)>) -> Result<
    Seq<DispatchModel>,
    ErrorModel,
> {
    match lookup(es, "conditional_edges"@) {
        Some(JsonModel::Object(table)) => dispatches_upto(table, table.len()),
        _ => Err(lacks("conditional_edges"@)),
    }
}

/// The graph that a JSON value describes: an object with `nodes`, `edges`,
/// `state_schema`, the string `entry_point` and `conditional_edges`. Where a
/// part is missing or holds something else than it should, there is no graph,
/// and the error names the part; the parts are looked at in the order just
/// given, and the items of each in their own order.
pub open spec fn graph_of(j: JsonModel) -> Result<GraphModel, ErrorModel> {
    match entries_of(j) {
        None => Err(lacks("descriptor"@)),
        Some(es) => match node_list(es) {
            Err(e) => Err(e),
            Ok(nodes) => match edge_list(es) {
                Err(e) => Err(e),
                Ok(edges) => match field_list(es) {
                    Err(e) => Err(e),
                    Ok(fields) => match text_at(es, "entry_point"@) {
                        None => Err(lacks("entry_point"@)),
                        Some(entry_point) => match dispatch_list(es) {
                            Err(e) => Err(e),
                            Ok(dispatch) => Ok(
                                GraphModel { nodes, edges, fields, entry_point, dispatch },
                            ),
                        },
                    },
                },
            },
        },
    }
}

/// The graph that a text describes. A text that is no JSON document is a
/// malformed descriptor, and the error holds what the parser says of the text.
pub open spec fn graph_of_text(text: Seq<char>) -> Result<GraphModel, ErrorModel> {
    match document_of(text) {
        Ok(j) => graph_of(j),
        Err(complaint) => Err(lacks(complaint)),
    }
}

fn read_node_list(es: &Vec<(&str, &serde_json::Value)>) -> (r: Result<Vec<NodeInfo>, SynthesisError>)
    ensures
        match r {
            Ok(list) => node_list(entry_models(es@)) == Ok::<Seq<NodeModel>, ErrorModel>(
                node_models(list@),
            ),
            Err(e) => node_list(entry_models(es@)) == Err::<Seq<NodeModel>, ErrorModel>(e@),
        },
{
    match find_member(es, "nodes") {
        Some(v) => match items(v) {
            Some(list) => read_nodes(list),
            None => Err(missing("nodes")),
        },
        None => Err(missing("nodes")),
    }
}

fn read_edge_list(es: &Vec<(&str, &serde_json::Value)>) -> (r: Result<Vec<EdgeInfo>, SynthesisError>)
    ensures
        match r {
            Ok(list) => edge_list(entry_models(es@)) == Ok::<Seq<EdgeModel>, ErrorModel>(
                edge_models(list@),
            ),
            Err(e) => edge_list(entry_models(es@)) == Err::<Seq<EdgeModel>, ErrorModel>(e@),
        },
{
    match find_member(es, "edges") {
        Some(v) => match items(v) {
            Some(list) => read_edges(list),
            None => Err(missing("edges")),
        },
        None => Err(missing("edges")),
    }
}

fn read_field_list(es: &Vec<(&str, &serde_json::Value)>) -> (r: Result<
    Vec<FieldInfo>,
    SynthesisError,
>)
    ensures
        match r {
            Ok(list) => field_list(entry_models(es@)) == Ok::<Seq<FieldModel>, ErrorModel>(
                field_models(list@),
            ),
            Err(e) => field_list(entry_models(es@)) == Err::<Seq<FieldModel>, ErrorModel>(e@),
        },
{
    let holder = match find_member(es, "state_schema") {
        Some(h) => h,
        None => {
            return Err(missing("state_schema"));
        },
    };
    let schema = match members(holder) {
        Some(s) => s,
        None => {
            return Err(missing("state_schema"));
        },
    };
    match find_member(&schema, "fields") {
        Some(v) => match items(v) {
            Some(list) => read_fields(list),
            None => Err(missing("fields")),
        },
        None => Err(missing("fields")),
    }
}

fn read_dispatch_list(es: &Vec<(&str, &serde_json::Value)>) -> (r: Result<
    Vec<(String, ConditionalEdge)>,
    SynthesisError,
>)
    ensures
        match r {
            Ok(list) => dispatch_list(entry_models(es@)) == Ok::<Seq<DispatchModel>, ErrorModel>(
                crate::graph::dispatch_models(list@),
            ),
            Err(e) => dispatch_list(entry_models(es@)) == Err::<Seq<DispatchModel>, ErrorModel>(e@),
        },
{
    match find_member(es, "conditional_edges") {
        Some(v) => match members(v) {
            Some(table) => read_dispatches(&table),
            None => Err(missing("conditional_edges")),
        },
        None => Err(missing("conditional_edges")),
    }
}

/// The graph that a JSON value describes.
pub fn graph_from_value(v: &serde_json::Value) -> (r: Result<GraphInfo, SynthesisError>)
    ensures
        match r {
            Ok(graph) => graph_of(tree_of(*v)) == Ok::<GraphModel, ErrorModel>(graph@),
            Err(e) => graph_of(tree_of(*v)) == Err::<GraphModel, ErrorModel>(e@),
        },
{
    let es = match members(v) {
        Some(es) => es,
        None => {
            return Err(missing("descriptor"));
        },
    };
    let nodes = match read_node_list(&es) {
        Ok(list) => list,
        Err(e) => {
            return Err(e);
        },
    };
    let edges = match read_edge_list(&es) {
        Ok(list) => list,
        Err(e) => {
            return Err(e);
        },
    };
    let fields = match read_field_list(&es) {
        Ok(list) => list,
        Err(e) => {
            return Err(e);
        },
    };
    let entry_point = match read_text(&es, "entry_point") {
        Some(t) => t,
        None => {
            return Err(missing("entry_point"));
        },
    };
    let conditional_edges = match read_dispatch_list(&es) {
        Ok(list) => list,
        Err(e) => {
            return Err(e);
        },
    };
    let graph = GraphInfo {
        nodes,
        edges,
        state_schema: StateSchema { fields },
        entry_point,
        conditional_edges,
    };
    assert(graph@.nodes =~= node_models(graph.nodes@));
    assert(graph@.edges =~= edge_models(graph.edges@));
    assert(graph@.fields =~= field_models(graph.state_schema.fields@));
    Ok(graph)
}

/// The graph that a text describes. A text that is no JSON document is a
/// malformed descriptor; the error then holds what the parser says of it.
pub fn graph_from_json(json: &str) -> (r: Result<GraphInfo, SynthesisError>)
    ensures
        match r {
            Ok(graph) => graph_of_text(json@) == Ok::<GraphModel, ErrorModel>(graph@),
            Err(e) => graph_of_text(json@) == Err::<GraphModel, ErrorModel>(e@),
        },
{
    match parse_document(json) {
        Ok(v) => graph_from_value(&v),
        Err(e) => Err(SynthesisError::MalformedDescriptor(describe(&e))),
    }
}

/// A list of nodes is read only where every item describes a node; a list that
/// is not read fails as a malformed descriptor.
proof fn lemma_nodes_error(items: Seq<JsonModel>, n: nat)
    ensures
        nodes_upto(items, n) is Err ==> nodes_upto(items, n)->Err_0 is MalformedDescriptor,
    decreases n,
{
    if n > 0 {
        lemma_nodes_error(items, (n - 1) as nat);
    }
}

proof fn lemma_edges_error(items: Seq<JsonModel>, n: nat)
    ensures
        edges_upto(items, n) is Err ==> edges_upto(items, n)->Err_0 is MalformedDescriptor,
    decreases n,
{
    if n > 0 {
        lemma_edges_error(items, (n - 1) as nat);
    }
}

proof fn lemma_fields_error(items: Seq<JsonModel>, n: nat)
    ensures
        fields_upto(items, n) is Err ==> fields_upto(items, n)->Err_0 is MalformedDescriptor,
    decreases n,
{
    if n > 0 {
        lemma_fields_error(items, (n - 1) as nat);
    }
}

proof fn lemma_dispatches_error(entries: Seq<(Seq<char>, JsonModel)>, n: nat)
    ensures
        dispatches_upto(entries, n) is Err ==> dispatches_upto(entries, n)->Err_0 is MalformedDescriptor,
    decreases n,
{
    if n > 0 {
        lemma_dispatches_error(entries, (n - 1) as nat);
    }
}

/// A document that describes no graph is a malformed descriptor, whatever it
/// lacks. A document that is no object, or lacks one of `nodes`, `edges`,
/// `state_schema`, `entry_point` and `conditional_edges`, describes no graph.
pub proof fn lemma_incomplete_document_is_rejected(j: JsonModel)
    ensures
        graph_of(j) is Err ==> graph_of(j)->Err_0 is MalformedDescriptor,
        entries_of(j) is None ==> graph_of(j) is Err,
        entries_of(j) matches Some(es) && (lookup(es, "nodes"@) is None || lookup(es, "edges"@) is None
            || lookup(es, "state_schema"@) is None || lookup(es, "entry_point"@) is None || lookup(
            es,
            "conditional_edges"@,
        ) is None) ==> graph_of(j) is Err,
{
    match entries_of(j) {
        None => {},
        Some(es) => {
            match lookup(es, "nodes"@) {
                Some(JsonModel::Array(items)) => lemma_nodes_error(items, items.len()),
                _ => {},
            }
            match lookup(es, "edges"@) {
                Some(JsonModel::Array(items)) => lemma_edges_error(items, items.len()),
                _ => {},
            }
            match lookup(es, "state_schema"@) {
                Some(JsonModel::Object(schema)) => match lookup(schema, "fields"@) {
                    Some(JsonModel::Array(items)) => lemma_fields_error(items, items.len()),
                    _ => {},
                },
                _ => {},
            }
            match lookup(es, "conditional_edges"@) {
                Some(JsonModel::Object(table)) => lemma_dispatches_error(table, table.len()),
                _ => {},
            }
        },
    }
}

} // verus!
