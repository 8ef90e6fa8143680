//! Maps the type expressions of the source language to the types of the
//! generated program.

use crate::identifier::{
    is_identifier, lemma_sanitized_is_identifier, sanitize_chars, sanitized,
};
use crate::text::{
    chars_of, find_first, find_last, first_from, last_before, lemma_first_from,
    lemma_last_before, lemma_split_top_len,
    lemma_trimmed_len, slice_of, spells, split, split_top, texts, to_text, trim, trimmed,
};
use vstd::hash_map::StringHashMap;
use vstd::prelude::*;
use vstd::string::StringExecFns;

verus! {

/// A type of the generated program, as a value of the mathematical model.
pub ghost enum TargetType {
    Text,
    Int32,
    Integer,
    Float32,
    Float,
    Boolean,
    Sequence(Box<TargetType>),
    Mapping(Box<TargetType>, Box<TargetType>),
    Optional(Box<TargetType>),
    DynamicValue,
    Opaque(Seq<char>),
    Unit,
}

/// A type of the generated program.
#[derive(Debug, PartialEq, Eq)]
pub enum RustType {
    /// Text.
    String,
    I32,
    I64,
    F32,
    F64,
    Bool,
    /// A sequence of items of one type.
    Vec(Box<RustType>),
    /// A mapping from keys of one type to values of another.
    HashMap(Box<RustType>, Box<RustType>),
    /// A value that may be absent.
    Option(Box<RustType>),
    /// Any value: what stands for a type that could not be told.
    JsonValue,
    /// A type known by its name only.
    Custom(String),
    Unit,
}

impl View for RustType {
    type V = TargetType;

    open spec fn view(&self) -> TargetType
        decreases self,
    {
        match self {
            RustType::String => TargetType::Text,
            RustType::I32 => TargetType::Int32,
            RustType::I64 => TargetType::Integer,
            RustType::F32 => TargetType::Float32,
            RustType::F64 => TargetType::Float,
            RustType::Bool => TargetType::Boolean,
            RustType::Vec(inner) => TargetType::Sequence(Box::new((**inner).view())),
            RustType::HashMap(k, v) => TargetType::Mapping(
                Box::new((**k).view()),
                Box::new((**v).view()),
            ),
            RustType::Option(inner) => TargetType::Optional(Box::new((**inner).view())),
            RustType::JsonValue => TargetType::DynamicValue,
            RustType::Custom(name) => TargetType::Opaque(name@),
            RustType::Unit => TargetType::Unit,
        }
    }
}

/// How a type is written in the generated program.
pub open spec fn rendered(t: TargetType) -> Seq<char>
    decreases t,
{
    match t {
        TargetType::Text => "String"@,
        TargetType::Int32 => "i32"@,
        TargetType::Integer => "i64"@,
        TargetType::Float32 => "f32"@,
        TargetType::Float => "f64"@,
        TargetType::Boolean => "bool"@,
        TargetType::Sequence(inner) => "Vec<"@ + rendered(*inner) + ">"@,
        TargetType::Mapping(k, v) => "HashMap<"@ + rendered(*k) + ", "@ + rendered(*v) + ">"@,
        TargetType::Optional(inner) => "Option<"@ + rendered(*inner) + ">"@,
        TargetType::DynamicValue => "serde_json::Value"@,
        TargetType::Opaque(name) => name,
        TargetType::Unit => "()"@,
    }
}

/// The paths that the generated program has to import to name a type.
pub open spec fn imports_of(t: TargetType) -> Seq<Seq<char>>
    decreases t,
{
    match t {
        TargetType::Mapping(_, _) => seq!["std::collections::HashMap"@],
        TargetType::DynamicValue => seq!["serde_json::Value"@],
        TargetType::Sequence(inner) => imports_of(*inner),
        TargetType::Optional(inner) => imports_of(*inner),
        _ => Seq::empty(),
    }
}

/// The texts of a sequence of string slices.
pub open spec fn str_texts(v: Seq<&'static str>) -> Seq<Seq<char>> {
    Seq::new(v.len(), |i: int| v[i]@)
}

/// A capital letter as its small letter; any other character as it is.
pub open spec fn lower(c: char) -> char {
    if 'A' <= c && c <= 'Z' {
        ((c as u8 + 32) as u8) as char
    } else {
        c
    }
}

/// The text with its capital letters made small.
pub open spec fn lowered(s: Seq<char>) -> Seq<char> {
    Seq::new(s.len(), |i: int| lower(s[i]))
}

fn lower_case(s: &Vec<char>) -> (out: Vec<char>)
    ensures
        out@ == lowered(s@),
{
    let mut out: Vec<char> = Vec::new();
    let mut i: usize = 0;
    while i < s.len()
        invariant
            i <= s.len(),
            out@ == Seq::new(i as nat, |k: int| lower(s@[k])),
        decreases s.len() - i,
    {
        let c = s[i];
        if c >= 'A' && c <= 'Z' {
            let b: u8 = c as u8;
            out.push((b + 32) as char);
        } else {
            out.push(c);
        }
        assert(out@ =~= Seq::new((i + 1) as nat, |k: int| lower(s@[k])));
        i += 1;
    }
    assert(out@ =~= lowered(s@));
    out
}

/// Whether the text holds an opening bracket.
pub open spec fn has_bracket(s: Seq<char>) -> bool {
    first_from(s, '[', 0) < s.len()
}

/// The name before the first opening bracket.
pub open spec fn head_of(s: Seq<char>) -> Seq<char> {
    s.subrange(0, first_from(s, '[', 0))
}

/// Whether a closing bracket stands somewhere after the first opening bracket
/// of the text.
pub open spec fn well_bracketed(s: Seq<char>) -> bool {
    has_bracket(s) && first_from(s, '[', 0) < last_before(s, ']', s.len() as int)
}

/// What stands between the first opening bracket and the last closing bracket.
/// What follows the last closing bracket is passed over.
pub open spec fn body_of(s: Seq<char>) -> Seq<char> {
    s.subrange(first_from(s, '[', 0) + 1, last_before(s, ']', s.len() as int))
}

/// The pieces with the white space at their ends taken off.
pub open spec fn all_trimmed(parts: Seq<Seq<char>>) -> Seq<Seq<char>> {
    Seq::new(parts.len(), |i: int| trimmed(parts[i]))
}

/// The arguments of a well bracketed text: the pieces of its body between the
/// commas that stand outside all inner brackets, trimmed.
pub open spec fn arguments(s: Seq<char>) -> Seq<Seq<char>> {
    all_trimmed(split_top(body_of(s), ','))
}

/// Whether the text is well bracketed around exactly `n` arguments, none empty.
pub open spec fn has_arguments(s: Seq<char>, n: nat) -> bool {
    &&& well_bracketed(s)
    &&& arguments(s).len() == n
    &&& forall|i: int| 0 <= i < n ==> (#[trigger] arguments(s)[i]).len() > 0
}

/// Whether the name stands for a sequence: `list` or `sequence`, in any case of
/// letters.
pub open spec fn is_sequence_name(head: Seq<char>) -> bool {
    lowered(head) == "list"@ || lowered(head) == "sequence"@
}

/// Whether the name stands for a mapping: `dict` or `mapping`, in any case of
/// letters.
pub open spec fn is_mapping_name(head: Seq<char>) -> bool {
    lowered(head) == "dict"@ || lowered(head) == "mapping"@
}

/// Whether the name stands for an optional value: `Optional`, as written.
pub open spec fn is_optional_name(head: Seq<char>) -> bool {
    head == "Optional"@
}

/// Whether the text is one of the words for "no value".
pub open spec fn is_null_word(s: Seq<char>) -> bool {
    s == "None"@ || s == "NoneType"@
}

/// The pieces that are no word for "no value", in order.
pub open spec fn without_null(parts: Seq<Seq<char>>) -> Seq<Seq<char>>
    decreases parts.len(),
{
    if parts.len() == 0 {
        Seq::empty()
    } else if is_null_word(parts.last()) {
        without_null(parts.drop_last())
    } else {
        without_null(parts.drop_last()).push(parts.last())
    }
}

/// Whether the text is a union: it holds a `|` outside all brackets.
pub open spec fn is_union(s: Seq<char>) -> bool {
    split_top(s, '|').len() >= 2
}

/// The alternatives of a union that are no word for "no value", trimmed.
pub open spec fn alternatives(s: Seq<char>) -> Seq<Seq<char>> {
    without_null(all_trimmed(split_top(s, '|')))
}

/// Where every piece is shorter than `bound`, so is every piece that is kept.
pub proof fn lemma_without_null_len(parts: Seq<Seq<char>>, bound: nat)
    requires
        forall|i: int| 0 <= i < parts.len() ==> (#[trigger] parts[i]).len() < bound,
    ensures
        forall|i: int| 0 <= i < without_null(parts).len() ==> (#[trigger] without_null(parts)[i]).len() < bound,
    decreases parts.len(),
{
    if parts.len() > 0 {
        let front = parts.drop_last();
        assert forall|i: int| 0 <= i < front.len() implies (#[trigger] front[i]).len() < bound by {
            assert(front[i] == parts[i]);
        }
        lemma_without_null_len(front, bound);
        let kept = without_null(parts);
        let before = without_null(front);
        assert forall|i: int| 0 <= i < kept.len() implies (#[trigger] kept[i]).len() < bound by {
            if i < before.len() {
                assert(kept[i] == before[i]);
            } else {
                assert(kept[i] == parts.last());
                assert(parts.last() == parts[parts.len() - 1]);
            }
        }
    }
}

/// Each argument of a well bracketed text is shorter than the text.
pub proof fn lemma_arguments_shorter(s: Seq<char>)
    requires
        well_bracketed(s),
    ensures
        forall|i: int| 0 <= i < arguments(s).len() ==> (#[trigger] arguments(s)[i]).len() < s.len(),
{
    lemma_first_from(s, '[', 0);
    lemma_last_before(s, ']', s.len() as int);
    let body = body_of(s);
    lemma_split_top_len(body, ',');
    let parts = split_top(body, ',');
    assert forall|i: int| 0 <= i < arguments(s).len() implies (#[trigger] arguments(s)[i]).len() < s.len() by {
        lemma_trimmed_len(parts[i]);
        assert(parts[i].len() <= body.len());
    }
}

/// Each alternative of a union is shorter than the union.
pub proof fn lemma_alternatives_shorter(s: Seq<char>)
    requires
        is_union(s),
    ensures
        forall|i: int| 0 <= i < alternatives(s).len() ==> (#[trigger] alternatives(s)[i]).len() < s.len(),
{
    lemma_split_top_len(s, '|');
    let parts = split_top(s, '|');
    let clean = all_trimmed(parts);
    assert forall|i: int| 0 <= i < clean.len() implies (#[trigger] clean[i]).len() < s.len() by {
        lemma_trimmed_len(parts[i]);
    }
    lemma_without_null_len(clean, s.len());
}

/// Whether the text is one of the words that stand for a type by themselves.
pub open spec fn is_keyword(s: Seq<char>) -> bool {
    s == "str"@ || s == "int"@ || s == "float"@ || s == "bool"@ || is_null_word(s) || s == "Any"@
        || s == "object"@
}

/// The type that a type expression of the source language stands for. The
/// rules are tried in this order.
///
/// The words `str`, `int`, `float` and `bool` are the scalars, `None` and
/// `NoneType` the unit type, `Any` and `object` the dynamic value. A text with a
/// bracket whose name before the first bracket is `list` or `sequence`, in any
/// case of letters, is a sequence of its one argument; `dict` or `mapping`, a
/// mapping from its first argument to its second; `Optional`, its one argument
/// made optional. Where the brackets or the arguments are not in order, the
/// sequence is one of dynamic values, the mapping one from text to dynamic
/// values, the optional a dynamic value. A text with a `|` outside all brackets
/// is a union: with exactly one alternative that is no word for "no value" it is
/// that alternative made optional, else the dynamic value. Any other text is the
/// name of an opaque type, made an identifier.
pub open spec fn map_type_text(s: Seq<char>) -> TargetType
    decreases s.len(),
{
    if s == "str"@ {
        TargetType::Text
    } else if s == "int"@ {
        TargetType::Integer
    } else if s == "float"@ {
        TargetType::Float
    } else if s == "bool"@ {
        TargetType::Boolean
    } else if is_null_word(s) {
        TargetType::Unit
    } else if s == "Any"@ || s == "object"@ {
        TargetType::DynamicValue
    } else if has_bracket(s) && is_sequence_name(head_of(s)) {
        if has_arguments(s, 1) {
            proof {
                lemma_arguments_shorter(s);
            }
            TargetType::Sequence(Box::new(map_type_text(arguments(s)[0])))
        } else {
            TargetType::Sequence(Box::new(TargetType::DynamicValue))
        }
    } else if has_bracket(s) && is_mapping_name(head_of(s)) {
        if has_arguments(s, 2) {
            proof {
                lemma_arguments_shorter(s);
            }
            TargetType::Mapping(
                Box::new(map_type_text(arguments(s)[0])),
                Box::new(map_type_text(arguments(s)[1])),
            )
        } else {
            TargetType::Mapping(Box::new(TargetType::Text), Box::new(TargetType::DynamicValue))
        }
    } else if has_bracket(s) && is_optional_name(head_of(s)) {
        if has_arguments(s, 1) {
            proof {
                lemma_arguments_shorter(s);
            }
            TargetType::Optional(Box::new(map_type_text(arguments(s)[0])))
        } else {
            TargetType::Optional(Box::new(TargetType::DynamicValue))
        }
    } else if is_union(s) {
        if alternatives(s).len() == 1 {
            proof {
                lemma_alternatives_shorter(s);
            }
            TargetType::Optional(Box::new(map_type_text(alternatives(s)[0])))
        } else {
            TargetType::DynamicValue
        }
    } else {
        TargetType::Opaque(sanitized(s))
    }
}

fn trim_all(parts: &Vec<Vec<char>>) -> (out: Vec<Vec<char>>)
    ensures
        texts(out@) == all_trimmed(texts(parts@)),
{
    let mut out: Vec<Vec<char>> = Vec::new();
    let mut i: usize = 0;
    while i < parts.len()
        invariant
            i <= parts.len(),
            out.len() == i,
            forall|k: int| 0 <= k < i ==> (#[trigger] out@[k])@ == trimmed(parts@[k]@),
        decreases parts.len() - i,
    {
        out.push(trim(&parts[i]));
        i += 1;
    }
    assert(texts(out@) =~= all_trimmed(texts(parts@)));
    out
}

/// What stands between the first opening bracket and the last closing bracket
/// of `s`, where the one stands before the other.
fn extract_generic_param(s: &Vec<char>) -> (out: Option<Vec<char>>)
    ensures
        out is Some <==> well_bracketed(s@),
        out matches Some(body) ==> body@ == body_of(s@),
{
    let open = find_first(s, '[');
    if open >= s.len() {
        return None;
    }
    proof {
        lemma_last_before(s@, ']', s@.len() as int);
    }
    match find_last(s, ']') {
        Some(close) => if open < close {
            Some(slice_of(s, open + 1, close))
        } else {
            None
        },
        None => None,
    }
}

/// The arguments of `s` where it is well bracketed around `n` arguments, none
/// empty.
fn arguments_of(s: &Vec<char>, n: usize) -> (out: Option<Vec<Vec<char>>>)
    ensures
        out is Some <==> has_arguments(s@, n as nat),
        out matches Some(args) ==> texts(args@) == arguments(s@) && args.len() == n,
{
    let body = match extract_generic_param(s) {
        Some(body) => body,
        None => {
            return None;
        },
    };
    let parts = split(&body, ',');
    let args = trim_all(&parts);
    assert(args.len() == texts(args@).len());
    if args.len() != n {
        return None;
    }
    let mut i: usize = 0;
    while i < n
        invariant
            i <= n == args.len(),
            texts(args@) == arguments(s@),
            forall|k: int| 0 <= k < i ==> (#[trigger] arguments(s@)[k]).len() > 0,
        decreases n - i,
    {
        assert(texts(args@)[i as int] == args@[i as int]@);
        if args[i].len() == 0 {
            return None;
        }
        i += 1;
    }
    Some(args)
}

fn null_word(s: &Vec<char>) -> (b: bool)
    ensures
        b == is_null_word(s@),
{
    spells(s, "None") || spells(s, "NoneType")
}

/// The alternatives of `s` where it is a union.
fn alternatives_of(s: &Vec<char>) -> (out: Option<Vec<Vec<char>>>)
    ensures
        out is Some <==> is_union(s@),
        out matches Some(alts) ==> texts(alts@) == alternatives(s@),
{
    let parts = split(s, '|');
    assert(parts.len() == texts(parts@).len());
    if parts.len() < 2 {
        return None;
    }
    let clean = trim_all(&parts);
    assert(clean.len() == texts(clean@).len());
    let mut out: Vec<Vec<char>> = Vec::new();
    let mut i: usize = 0;
    assert(texts(clean@).take(0) =~= Seq::<Seq<char>>::empty());
    assert(texts(out@) =~= Seq::<Seq<char>>::empty());
    while i < clean.len()
        invariant
            i <= clean.len(),
            texts(out@) == without_null(texts(clean@).take(i as int)),
        decreases clean.len() - i,
    {
        let ghost before = texts(out@);
        let ghost upto = texts(clean@).take(i + 1);
        assert(upto.drop_last() =~= texts(clean@).take(i as int));
        assert(upto.last() == clean@[i as int]@);
        if !null_word(&clean[i]) {
            let piece = slice_of(&clean[i], 0, clean[i].len());
            assert(piece@ =~= clean@[i as int]@);
            out.push(piece);
            assert(texts(out@) =~= before.push(piece@));
        }
        i += 1;
    }
    assert(texts(clean@).take(clean.len() as int) =~= texts(clean@));
    Some(out)
}

/// The type of a union, where `s` is one.
fn parse_union_type(s: &Vec<char>) -> (out: Option<RustType>)
    requires
        !is_keyword(s@),
        !(has_bracket(s@) && is_sequence_name(head_of(s@))),
        !(has_bracket(s@) && is_mapping_name(head_of(s@))),
        !(has_bracket(s@) && is_optional_name(head_of(s@))),
    ensures
        out is Some <==> is_union(s@),
        out matches Some(t) ==> t@ == map_type_text(s@),
    decreases s@.len(), 0nat,
{
    match alternatives_of(s) {
        Some(alts) => {
            if alts.len() == 1 {
                proof {
                    lemma_alternatives_shorter(s@);
                    assert(texts(alts@)[0] == alts@[0]@);
                }
                Some(RustType::Option(Box::new(map_chars(&alts[0]))))
            } else {
                assert(alts.len() == texts(alts@).len());
                Some(RustType::JsonValue)
            }
        },
        None => None,
    }
}

/// The type of a text whose name before the first bracket stands for a
/// sequence.
fn parse_list_type(s: &Vec<char>) -> (t: RustType)
    requires
        !is_keyword(s@),
        has_bracket(s@),
        is_sequence_name(head_of(s@)),
    ensures
        t@ == map_type_text(s@),
    decreases s@.len(), 0nat,
{
    let inner = match arguments_of(s, 1) {
        Some(args) => {
            proof {
                lemma_arguments_shorter(s@);
                assert(texts(args@)[0] == args@[0]@);
            }
            map_chars(&args[0])
        },
        None => RustType::JsonValue,
    };
    assert(has_arguments(s@, 1) ==> inner@ == map_type_text(arguments(s@)[0]));
    assert(!has_arguments(s@, 1) ==> inner@ == TargetType::DynamicValue);
    RustType::Vec(Box::new(inner))
}

/// The type of a text whose name before the first bracket stands for a mapping.
fn parse_dict_type(s: &Vec<char>) -> (t: RustType)
    requires
        !is_keyword(s@),
        has_bracket(s@),
        !is_sequence_name(head_of(s@)),
        is_mapping_name(head_of(s@)),
    ensures
        t@ == map_type_text(s@),
    decreases s@.len(), 0nat,
{
    let (key, value) = match arguments_of(s, 2) {
        Some(args) => {
            proof {
                lemma_arguments_shorter(s@);
                assert(texts(args@)[0] == args@[0]@);
                assert(texts(args@)[1] == args@[1]@);
            }
            (map_chars(&args[0]), map_chars(&args[1]))
        },
        None => (RustType::String, RustType::JsonValue),
    };
    assert(has_arguments(s@, 2) ==> key@ == map_type_text(arguments(s@)[0]) && value@
        == map_type_text(arguments(s@)[1]));
    assert(!has_arguments(s@, 2) ==> key@ == TargetType::Text && value@
        == TargetType::DynamicValue);
    RustType::HashMap(Box::new(key), Box::new(value))
}

/// The type of a text whose name before the first bracket stands for an
/// optional value.
fn parse_optional_type(s: &Vec<char>) -> (t: RustType)
    requires
        !is_keyword(s@),
        has_bracket(s@),
        !is_sequence_name(head_of(s@)),
        !is_mapping_name(head_of(s@)),
        is_optional_name(head_of(s@)),
    ensures
        t@ == map_type_text(s@),
    decreases s@.len(), 0nat,
{
    let inner = match arguments_of(s, 1) {
        Some(args) => {
            proof {
                lemma_arguments_shorter(s@);
                assert(texts(args@)[0] == args@[0]@);
            }
            map_chars(&args[0])
        },
        None => RustType::JsonValue,
    };
    assert(has_arguments(s@, 1) ==> inner@ == map_type_text(arguments(s@)[0]));
    assert(!has_arguments(s@, 1) ==> inner@ == TargetType::DynamicValue);
    RustType::Option(Box::new(inner))
}

/// The type that the type expression `s` stands for.
pub fn map_chars(s: &Vec<char>) -> (t: RustType)
    ensures
        t@ == map_type_text(s@),
    decreases s@.len(), 1nat,
{
    if spells(s, "str") {
        return RustType::String;
    }
    if spells(s, "int") {
        return RustType::I64;
    }
    if spells(s, "float") {
        return RustType::F64;
    }
    if spells(s, "bool") {
        return RustType::Bool;
    }
    if null_word(s) {
        return RustType::Unit;
    }
    if spells(s, "Any") || spells(s, "object") {
        return RustType::JsonValue;
    }
    let open = find_first(s, '[');
    if open < s.len() {
        let head = slice_of(s, 0, open);
        let name = lower_case(&head);
        assert(head@ == head_of(s@));
        if spells(&name, "list") || spells(&name, "sequence") {
            return parse_list_type(s);
        }
        if spells(&name, "dict") || spells(&name, "mapping") {
            return parse_dict_type(s);
        }
        if spells(&head, "Optional") {
            return parse_optional_type(s);
        }
    }
    match parse_union_type(s) {
        Some(t) => t,
        None => RustType::Custom(to_text(&sanitize_chars(s))),
    }
}

/// The type that the type expression `py_type` stands for.
pub fn map_python_type(py_type: &str) -> (t: RustType)
    ensures
        t@ == map_type_text(py_type@),
{
    let chars = chars_of(py_type);
    map_chars(&chars)
}

impl RustType {
    /// The type as it is written in the generated program.
    pub fn to_rust_string(&self) -> (out: String)
        ensures
            out@ == rendered(self@),
        decreases self,
    {
        match self {
            RustType::String => String::from_str("String"),
            RustType::I32 => String::from_str("i32"),
            RustType::I64 => String::from_str("i64"),
            RustType::F32 => String::from_str("f32"),
            RustType::F64 => String::from_str("f64"),
            RustType::Bool => String::from_str("bool"),
            RustType::Vec(inner) => {
                let mut out = String::from_str("Vec<");
                out.append(inner.to_rust_string().as_str());
                out.append(">");
                out
            },
            RustType::HashMap(k, v) => {
                let mut out = String::from_str("HashMap<");
                out.append(k.to_rust_string().as_str());
                out.append(", ");
                out.append(v.to_rust_string().as_str());
                out.append(">");
                out
            },
            RustType::Option(inner) => {
                let mut out = String::from_str("Option<");
                out.append(inner.to_rust_string().as_str());
                out.append(">");
                out
            },
            RustType::JsonValue => String::from_str("serde_json::Value"),
            RustType::Custom(name) => name.clone(),
            RustType::Unit => String::from_str("()"),
        }
    }

    /// The paths that the generated program has to import to name the type.
    pub fn required_imports(&self) -> (out: Vec<&'static str>)
        ensures
            str_texts(out@) == imports_of(self@),
        decreases self,
    {
        match self {
            RustType::HashMap(_, _) => {
                let mut out: Vec<&'static str> = Vec::new();
                out.push("std::collections::HashMap");
                assert(str_texts(out@) =~= seq!["std::collections::HashMap"@]);
                out
            },
            RustType::JsonValue => {
                let mut out: Vec<&'static str> = Vec::new();
                out.push("serde_json::Value");
                assert(str_texts(out@) =~= seq!["serde_json::Value"@]);
                out
            },
            RustType::Vec(inner) => inner.required_imports(),
            RustType::Option(inner) => inner.required_imports(),
            _ => {
                let out: Vec<&'static str> = Vec::new();
                assert(str_texts(out@) =~= Seq::<Seq<char>>::empty());
                out
            },
        }
    }

    /// A copy of the type.
    pub fn duplicate(&self) -> (out: RustType)
        ensures
            out@ == self@,
        decreases self,
    {
        match self {
            RustType::String => RustType::String,
            RustType::I32 => RustType::I32,
            RustType::I64 => RustType::I64,
            RustType::F32 => RustType::F32,
            RustType::F64 => RustType::F64,
            RustType::Bool => RustType::Bool,
            RustType::Vec(inner) => RustType::Vec(Box::new(inner.duplicate())),
            RustType::HashMap(k, v) => RustType::HashMap(
                Box::new(k.duplicate()),
                Box::new(v.duplicate()),
            ),
            RustType::Option(inner) => RustType::Option(Box::new(inner.duplicate())),
            RustType::JsonValue => RustType::JsonValue,
            RustType::Custom(name) => RustType::Custom(name.clone()),
            RustType::Unit => RustType::Unit,
        }
    }
}

/// Whether every opaque name in the type is an identifier.
pub open spec fn well_named(t: TargetType) -> bool
    decreases t,
{
    match t {
        TargetType::Sequence(inner) => well_named(*inner),
        TargetType::Mapping(k, v) => well_named(*k) && well_named(*v),
        TargetType::Optional(inner) => well_named(*inner),
        TargetType::Opaque(name) => is_identifier(name),
        _ => true,
    }
}

/// Whatever the text, the type it maps to holds only opaque names that are
/// identifiers.
pub proof fn lemma_map_type_well_named(s: Seq<char>)
    ensures
        well_named(map_type_text(s)),
    decreases s.len(),
{
    reveal_with_fuel(well_named, 3);
    if s == "str"@ || s == "int"@ || s == "float"@ || s == "bool"@ || is_null_word(s) || s
        == "Any"@ || s == "object"@ {
    } else if has_bracket(s) && is_sequence_name(head_of(s)) {
        if has_arguments(s, 1) {
            lemma_arguments_shorter(s);
            lemma_map_type_well_named(arguments(s)[0]);
        }
    } else if has_bracket(s) && is_mapping_name(head_of(s)) {
        if has_arguments(s, 2) {
            lemma_arguments_shorter(s);
            lemma_map_type_well_named(arguments(s)[0]);
            lemma_map_type_well_named(arguments(s)[1]);
        }
    } else if has_bracket(s) && is_optional_name(head_of(s)) {
        if has_arguments(s, 1) {
            lemma_arguments_shorter(s);
            lemma_map_type_well_named(arguments(s)[0]);
        }
    } else if is_union(s) {
        if alternatives(s).len() == 1 {
            lemma_alternatives_shorter(s);
            lemma_map_type_well_named(alternatives(s)[0]);
        }
    } else {
        lemma_sanitized_is_identifier(s);
    }
}

/// The type that a type expression stands for under a table of chosen types: the
/// type chosen for the expression where there is one, else the type that the
/// rules give.
pub open spec fn mapped(registry: Map<Seq<char>, TargetType>, text: Seq<char>) -> TargetType {
    if registry.contains_key(text) {
        registry[text]
    } else {
        map_type_text(text)
    }
}

/// A table of types that the caller has chosen for given type expressions. It is
/// asked before the rules of `map_python_type`.
pub struct TypeMapper {
    custom_mappings: StringHashMap<RustType>,
}

impl View for TypeMapper {
    type V = Map<Seq<char>, TargetType>;

    /// The chosen types, by the type expression they were chosen for.
    closed spec fn view(&self) -> Map<Seq<char>, TargetType> {
        self.custom_mappings@.map_values(|t: RustType| t@)
    }
}

impl TypeMapper {
    /// A table that holds no choice.
    pub fn new() -> (mapper: Self)
        ensures
            mapper@ == Map::<Seq<char>, TargetType>::empty(),
    {
        let mapper = TypeMapper { custom_mappings: StringHashMap::new() };
        assert(mapper@ =~= Map::<Seq<char>, TargetType>::empty());
        mapper
    }

    /// Chooses `rust_type` for the type expression `python_type`, in place of any
    /// earlier choice for it.
    pub fn add_mapping(&mut self, python_type: String, rust_type: RustType)
        ensures
            final(self)@ == old(self)@.insert(python_type@, rust_type@),
    {
        self.custom_mappings.insert(python_type, rust_type);
        assert(self@ =~= old(self)@.insert(python_type@, rust_type@));
    }

    /// The type chosen for `py_type` where there is one, else the type that
    /// `map_python_type` gives.
    pub fn map_type(&self, py_type: &str) -> (t: RustType)
        ensures
            t@ == mapped(self@, py_type@),
    {
        match self.custom_mappings.get(py_type) {
            Some(rust_type) => rust_type.duplicate(),
            None => map_python_type(py_type),
        }
    }
}

impl Default for TypeMapper {
    fn default() -> (mapper: Self)
        ensures
            mapper@ == Map::<Seq<char>, TargetType>::empty(),
    {
        TypeMapper::new()
    }
}

impl Clone for RustType {
    fn clone(&self) -> (out: RustType)
        ensures
            out@ == self@,
    {
        self.duplicate()
    }
}

} // verus!
