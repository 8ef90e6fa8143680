//! The record of the state that is handed from node to node, with its
//! constructor and the imports it needs.

use crate::graph::{FieldInfo, FieldModel, StateSchema};
use crate::identifier::{sanitize, sanitized};
use crate::text::{holds, join, joined, strings};
use crate::type_mapping::{imports_of, mapped, rendered, RustType, TargetType, TypeMapper};
use vstd::prelude::*;
use vstd::string::StringExecFns;

verus! {

/// The type of a field of the state record: the type that its declared type
/// maps to under the table of chosen types, made optional where the field is
/// optional and the type is not optional already.
pub open spec fn field_type(registry: Map<Seq<char>, TargetType>, f: FieldModel) -> TargetType {
    let t = mapped(registry, f.declared_type);
    if f.is_optional && !(t is Optional) {
        TargetType::Optional(Box::new(t))
    } else {
        t
    }
}

/// The line that declares a field in the state record.
pub open spec fn field_line(registry: Map<Seq<char>, TargetType>, f: FieldModel) -> Seq<char> {
    "    pub "@ + sanitized(f.name) + ": "@ + rendered(field_type(registry, f))
}

/// The value that a field of a given type starts with: nothing for an optional
/// field, else the empty or zero value of the type.
pub open spec fn default_of(t: TargetType) -> Seq<char> {
    match t {
        TargetType::Text => "String::new()"@,
        TargetType::Int32 => "0"@,
        TargetType::Integer => "0"@,
        TargetType::Float32 => "0.0"@,
        TargetType::Float => "0.0"@,
        TargetType::Boolean => "false"@,
        TargetType::Sequence(_) => "Vec::new()"@,
        TargetType::Mapping(_, _) => "HashMap::new()"@,
        TargetType::Optional(_) => "None"@,
        TargetType::DynamicValue => "Default::default()"@,
        TargetType::Opaque(_) => "Default::default()"@,
        TargetType::Unit => "()"@,
    }
}

/// The line that sets a field in the constructor of the state record.
pub open spec fn default_line(registry: Map<Seq<char>, TargetType>, f: FieldModel) -> Seq<char> {
    "            "@ + sanitized(f.name) + ": "@ + default_of(field_type(registry, f)) + ","@
}

/// The lines that declare the fields, in order.
pub open spec fn field_lines(registry: Map<Seq<char>, TargetType>, fields: Seq<FieldModel>) -> Seq<
    Seq<char>,
> {
    Seq::new(fields.len(), |i: int| field_line(registry, fields[i]))
}

/// The lines that set the fields in the constructor, in order.
pub open spec fn default_lines(registry: Map<Seq<char>, TargetType>, fields: Seq<FieldModel>) -> Seq<
    Seq<char>,
> {
    Seq::new(fields.len(), |i: int| default_line(registry, fields[i]))
}

/// The declaration of the state record, one field per line in the order given.
pub open spec fn state_struct(registry: Map<Seq<char>, TargetType>, fields: Seq<FieldModel>) -> Seq<
    char,
> {
    "#[derive(Debug, Clone, Serialize, Deserialize)]\npub struct GraphState {\n"@ + joined(
        field_lines(registry, fields),
        ",\n"@,
    ) + "\n}"@
}

/// The constructor of the state record, which takes nothing and sets every field
/// to the value it starts with, in the order given.
pub open spec fn state_constructor(
    registry: Map<Seq<char>, TargetType>,
    fields: Seq<FieldModel>,
) -> Seq<char> {
    "impl GraphState {\n    /// A state with every field at its starting value.\n    pub fn new() -> Self {\n        Self {\n"@
        + joined(default_lines(registry, fields), "\n"@) + "\n        }\n    }\n}"@
}

/// The state record: its declaration and its constructor.
pub open spec fn state_record(registry: Map<Seq<char>, TargetType>, fields: Seq<FieldModel>) -> Seq<
    char,
> {
    state_struct(registry, fields) + "\n\n"@ + state_constructor(registry, fields)
}

/// `list` with each item of `items` that it does not hold yet added at its end.
pub open spec fn with_new(list: Seq<Seq<char>>, items: Seq<Seq<char>>) -> Seq<Seq<char>>
    decreases items.len(),
{
    if items.len() == 0 {
        list
    } else {
        let sofar = with_new(list, items.drop_last());
        if sofar.contains(items.last()) {
            sofar
        } else {
            sofar.push(items.last())
        }
    }
}

/// The paths that the first `n` fields need imported, each once, in the order in
/// which the fields first need them.
pub open spec fn imports_upto(
    registry: Map<Seq<char>, TargetType>,
    fields: Seq<FieldModel>,
    n: nat,
) -> Seq<Seq<char>>
    decreases n,
{
    if n == 0 {
        Seq::empty()
    } else {
        with_new(
            imports_upto(registry, fields, (n - 1) as nat),
            imports_of(mapped(registry, fields[n - 1].declared_type)),
        )
    }
}

/// The paths that the state record needs imported.
pub open spec fn required_imports(
    registry: Map<Seq<char>, TargetType>,
    fields: Seq<FieldModel>,
) -> Seq<Seq<char>> {
    imports_upto(registry, fields, fields.len())
}

/// The type of a field of the state record.
pub fn field_rust_type(mapper: &TypeMapper, field: &FieldInfo) -> (t: RustType)
    ensures
        t@ == field_type(mapper@, field@),
{
    let mapped = mapper.map_type(field.declared_type.as_str());
    let already = match &mapped {
        RustType::Option(_) => true,
        _ => false,
    };
    if field.is_optional && !already {
        RustType::Option(Box::new(mapped))
    } else {
        mapped
    }
}

/// The line that declares a field in the state record.
pub fn field_to_rust(mapper: &TypeMapper, field: &FieldInfo) -> (out: String)
    ensures
        out@ == field_line(mapper@, field@),
{
    let mut out = String::from_str("    pub ");
    out.append(sanitize(field.name.as_str()).as_str());
    out.append(": ");
    out.append(field_rust_type(mapper, field).to_rust_string().as_str());
    out
}

/// The starting value of a field of the given type, as it is written.
pub fn default_value_of(t: &RustType) -> (out: &'static str)
    ensures
        out@ == default_of(t@),
{
    match t {
        RustType::String => "String::new()",
        RustType::I32 => "0",
        RustType::I64 => "0",
        RustType::F32 => "0.0",
        RustType::F64 => "0.0",
        RustType::Bool => "false",
        RustType::Vec(_) => "Vec::new()",
        RustType::HashMap(_, _) => "HashMap::new()",
        RustType::Option(_) => "None",
        RustType::JsonValue => "Default::default()",
        RustType::Custom(_) => "Default::default()",
        RustType::Unit => "()",
    }
}

/// The line that sets a field in the constructor of the state record.
pub fn field_default(mapper: &TypeMapper, field: &FieldInfo) -> (out: String)
    ensures
        out@ == default_line(mapper@, field@),
{
    let mut out = String::from_str("            ");
    out.append(sanitize(field.name.as_str()).as_str());
    out.append(": ");
    out.append(default_value_of(&field_rust_type(mapper, field)));
    out.append(",");
    out
}

/// The state record of the generated program.
pub fn generate_state_record(mapper: &TypeMapper, schema: &StateSchema) -> (out: String)
    ensures
        out@ == state_record(mapper@, schema@),
{
    let mut decls: Vec<String> = Vec::new();
    let mut sets: Vec<String> = Vec::new();
    let mut i: usize = 0;
    while i < schema.fields.len()
        invariant
            i <= schema.fields.len(),
            decls.len() == i,
            sets.len() == i,
            forall|k: int| 0 <= k < i ==> (#[trigger] decls@[k])@ == field_line(mapper@, schema@[k]),
            forall|k: int| 0 <= k < i ==> (#[trigger] sets@[k])@ == default_line(mapper@, schema@[k]),
        decreases schema.fields.len() - i,
    {
        decls.push(field_to_rust(mapper, &schema.fields[i]));
        sets.push(field_default(mapper, &schema.fields[i]));
        i += 1;
    }
    assert(strings(decls@) =~= field_lines(mapper@, schema@));
    assert(strings(sets@) =~= default_lines(mapper@, schema@));
    let mut out = String::from_str(
        "#[derive(Debug, Clone, Serialize, Deserialize)]\npub struct GraphState {\n",
    );
    out.append(join(&decls, ",\n").as_str());
    out.append("\n}");
    out.append("\n\n");
    let mut ctor = String::from_str(
        "impl GraphState {\n    /// A state with every field at its starting value.\n    pub fn new() -> Self {\n        Self {\n",
    );
    ctor.append(join(&sets, "\n").as_str());
    ctor.append("\n        }\n    }\n}");
    out.append(ctor.as_str());
    out
}

/// The paths that the state record needs imported, each once.
pub fn collect_imports(mapper: &TypeMapper, schema: &StateSchema) -> (out: Vec<String>)
    ensures
        strings(out@) == required_imports(mapper@, schema@),
{
    let mut out: Vec<String> = Vec::new();
    let mut i: usize = 0;
    assert(strings(out@) =~= imports_upto(mapper@, schema@, 0));
    while i < schema.fields.len()
        invariant
            i <= schema.fields.len(),
            strings(out@) == imports_upto(mapper@, schema@, i as nat),
        decreases schema.fields.len() - i,
    {
        let needed = mapper.map_type(schema.fields[i].declared_type.as_str()).required_imports();
        let ghost base = strings(out@);
        let ghost items = imports_of(mapped(mapper@, schema@[i as int].declared_type));
        let mut j: usize = 0;
        assert(items.take(0) =~= Seq::<Seq<char>>::empty());
        assert(needed.len() == items.len());
        while j < needed.len()
            invariant
                j <= needed.len(),
                needed.len() == items.len(),
                crate::type_mapping::str_texts(needed@) == items,
                strings(out@) == with_new(base, items.take(j as int)),
            decreases needed.len() - j,
        {
            let ghost upto = items.take(j + 1);
            assert(upto.drop_last() =~= items.take(j as int));
            assert(upto.last() == needed@[j as int]@);
            if !holds(&out, needed[j]) {
                let ghost before = strings(out@);
                out.push(String::from_str(needed[j]));
                assert(strings(out@) =~= before.push(needed@[j as int]@));
            }
            j += 1;
        }
        assert(items.take(items.len() as int) =~= items);
        i += 1;
    }
    out
}

} // verus!
