use langgraph_rs::type_mapping::{map_python_type, RustType, TypeMapper};

#[test]
fn test_basic_types() {
    assert_eq!(map_python_type("str"), RustType::String);
    assert_eq!(map_python_type("int"), RustType::I64);
    assert_eq!(map_python_type("float"), RustType::F64);
    assert_eq!(map_python_type("bool"), RustType::Bool);
}

#[test]
fn test_list_types() {
    let result = map_python_type("list[str]");
    assert_eq!(result, RustType::Vec(Box::new(RustType::String)));

    let result = map_python_type("List[int]");
    assert_eq!(result, RustType::Vec(Box::new(RustType::I64)));
}

#[test]
fn test_dict_types() {
    let result = map_python_type("dict[str, int]");
    assert_eq!(
        result,
        RustType::HashMap(Box::new(RustType::String), Box::new(RustType::I64))
    );
}

#[test]
fn test_optional_types() {
    let result = map_python_type("Optional[str]");
    assert_eq!(result, RustType::Option(Box::new(RustType::String)));
}

#[test]
fn test_union_types() {
    let result = map_python_type("str | None");
    assert_eq!(result, RustType::Option(Box::new(RustType::String)));
}

#[test]
fn test_nested_types() {
    let result = map_python_type("list[dict[str, int]]");
    let expected = RustType::Vec(Box::new(RustType::HashMap(
        Box::new(RustType::String),
        Box::new(RustType::I64),
    )));
    assert_eq!(result, expected);
}

#[test]
fn test_to_rust_string() {
    let t = RustType::Vec(Box::new(RustType::String));
    assert_eq!(t.to_rust_string(), "Vec<String>");

    let t = RustType::HashMap(Box::new(RustType::String), Box::new(RustType::I64));
    assert_eq!(t.to_rust_string(), "HashMap<String, i64>");

    let t = RustType::Option(Box::new(RustType::String));
    assert_eq!(t.to_rust_string(), "Option<String>");
}

#[test]
fn test_custom_mapper() {
    let mut mapper = TypeMapper::new();
    mapper.add_mapping("UserId".to_string(), RustType::Custom("UserId".to_string()));

    assert_eq!(
        mapper.map_type("UserId"),
        RustType::Custom("UserId".to_string())
    );

    // Fallback to default mapping
    assert_eq!(mapper.map_type("str"), RustType::String);
}

fn seq(t: RustType) -> RustType {
    RustType::Vec(Box::new(t))
}

fn opt(t: RustType) -> RustType {
    RustType::Option(Box::new(t))
}

fn map(k: RustType, v: RustType) -> RustType {
    RustType::HashMap(Box::new(k), Box::new(v))
}

#[test]
fn keywords_for_unit_and_dynamic() {
    assert_eq!(map_python_type("None"), RustType::Unit);
    assert_eq!(map_python_type("NoneType"), RustType::Unit);
    assert_eq!(map_python_type("Any"), RustType::JsonValue);
    assert_eq!(map_python_type("object"), RustType::JsonValue);
}

#[test]
fn keywords_are_exact() {
    assert_eq!(map_python_type("Str"), RustType::Custom("Str".to_string()));
    assert_eq!(map_python_type(" str"), RustType::Custom("_str".to_string()));
    assert_eq!(map_python_type("any"), RustType::Custom("any".to_string()));
}

#[test]
fn sequence_family_in_any_case() {
    assert_eq!(map_python_type("LIST[bool]"), seq(RustType::Bool));
    assert_eq!(map_python_type("Sequence[float]"), seq(RustType::F64));
    assert_eq!(map_python_type("sequence[ int ]"), seq(RustType::I64));
}

#[test]
fn mapping_family_in_any_case() {
    assert_eq!(
        map_python_type("Dict[str,Any]"),
        map(RustType::String, RustType::JsonValue)
    );
    assert_eq!(
        map_python_type("Mapping[str, list[int]]"),
        map(RustType::String, seq(RustType::I64))
    );
}

#[test]
fn arguments_split_outside_inner_brackets() {
    assert_eq!(
        map_python_type("dict[str, dict[str, int]]"),
        map(RustType::String, map(RustType::String, RustType::I64))
    );
    assert_eq!(
        map_python_type("dict[dict[str, int], list[dict[int, bool]]]"),
        map(
            map(RustType::String, RustType::I64),
            seq(map(RustType::I64, RustType::Bool))
        )
    );
}

#[test]
fn sequence_fallback_on_bad_arguments() {
    let fallback = seq(RustType::JsonValue);
    assert_eq!(map_python_type("list[]"), fallback);
    assert_eq!(map_python_type("list[  ]"), fallback);
    assert_eq!(map_python_type("list[int, str]"), fallback);
    assert_eq!(map_python_type("list[int"), fallback);
    assert_eq!(map_python_type("list["), fallback);
    assert_eq!(map_python_type("list[]int"), fallback);
    assert_eq!(map_python_type("list[int,]"), fallback);
}

#[test]
fn arguments_stand_between_the_outermost_brackets() {
    assert_eq!(map_python_type("list[int]x"), seq(RustType::I64));
    assert_eq!(map_python_type("list[int] trailing"), seq(RustType::I64));
    assert_eq!(
        map_python_type("list[int]]"),
        seq(RustType::Custom("int_".to_string()))
    );
    assert_eq!(map_python_type("list[list[int]"), seq(RustType::Vec(Box::new(RustType::JsonValue))));
    assert_eq!(
        map_python_type("dict[str, int] and more"),
        map(RustType::String, RustType::I64)
    );
}

#[test]
fn mapping_fallback_on_bad_arguments() {
    let fallback = map(RustType::String, RustType::JsonValue);
    assert_eq!(map_python_type("dict[]"), fallback);
    assert_eq!(map_python_type("dict[str]"), fallback);
    assert_eq!(map_python_type("dict[str, int, bool]"), fallback);
    assert_eq!(map_python_type("dict[str, int"), fallback);
    assert_eq!(map_python_type("dict[, int]"), fallback);
}

#[test]
fn optional_forms() {
    assert_eq!(map_python_type("Optional[list[int]]"), opt(seq(RustType::I64)));
    assert_eq!(map_python_type("Optional[]"), opt(RustType::JsonValue));
    assert_eq!(map_python_type("Optional[int"), opt(RustType::JsonValue));
    assert_eq!(
        map_python_type("optional[int]"),
        RustType::Custom("optional_int_".to_string())
    );
}

#[test]
fn union_folding() {
    assert_eq!(map_python_type("None | int"), opt(RustType::I64));
    assert_eq!(map_python_type("int|NoneType"), opt(RustType::I64));
    assert_eq!(map_python_type("int | str"), RustType::JsonValue);
    assert_eq!(map_python_type("int | str | None"), RustType::JsonValue);
    assert_eq!(map_python_type("None | None"), RustType::JsonValue);
    assert_eq!(map_python_type("int | "), RustType::JsonValue);
    assert_eq!(map_python_type("None | int | None"), opt(RustType::I64));
}

#[test]
fn generic_forms_come_before_unions() {
    assert_eq!(map_python_type("list[int] | None"), seq(RustType::I64));
    assert_eq!(
        map_python_type("dict[str, int | None] | None"),
        map(RustType::String, opt(RustType::I64))
    );
    assert_eq!(map_python_type("Optional[int] | str"), opt(RustType::I64));
    assert_eq!(map_python_type("list[int | None]"), seq(opt(RustType::I64)));
    assert_eq!(map_python_type("None | list[int]"), opt(seq(RustType::I64)));
    assert_eq!(
        map_python_type("Point[int] | None"),
        opt(RustType::Custom("Point_int_".to_string()))
    );
    assert_eq!(
        map_python_type("Point[int | None]"),
        RustType::Custom("Point_int___None_".to_string())
    );
}

#[test]
fn white_space_of_every_kind_is_trimmed() {
    assert_eq!(
        map_python_type("dict[\u{a0}str\u{2003},\tint\u{3000}]"),
        map(RustType::String, RustType::I64)
    );
    assert_eq!(map_python_type("int\u{2028}|\u{85}None"), opt(RustType::I64));
}

#[test]
fn opaque_names_are_identifiers() {
    assert_eq!(
        map_python_type("my.module.State"),
        RustType::Custom("my_module_State".to_string())
    );
    assert_eq!(map_python_type(""), RustType::Custom("__".to_string()));
    assert_eq!(map_python_type("type"), RustType::Custom("type_".to_string()));
    assert_eq!(
        map_python_type("Literal[1]"),
        RustType::Custom("Literal_1_".to_string())
    );
    assert_eq!(map_python_type("3d"), RustType::Custom("_3d".to_string()));
}

#[test]
fn rendering_of_every_variant() {
    assert_eq!(RustType::String.to_rust_string(), "String");
    assert_eq!(RustType::I32.to_rust_string(), "i32");
    assert_eq!(RustType::I64.to_rust_string(), "i64");
    assert_eq!(RustType::F32.to_rust_string(), "f32");
    assert_eq!(RustType::F64.to_rust_string(), "f64");
    assert_eq!(RustType::Bool.to_rust_string(), "bool");
    assert_eq!(RustType::JsonValue.to_rust_string(), "serde_json::Value");
    assert_eq!(RustType::Custom("UserId".to_string()).to_rust_string(), "UserId");
    assert_eq!(RustType::Unit.to_rust_string(), "()");
    assert_eq!(
        seq(map(RustType::String, opt(RustType::JsonValue))).to_rust_string(),
        "Vec<HashMap<String, Option<serde_json::Value>>>"
    );
}

#[test]
fn imports_of_types() {
    assert_eq!(
        map(RustType::String, RustType::JsonValue).required_imports(),
        vec!["std::collections::HashMap"]
    );
    assert_eq!(RustType::JsonValue.required_imports(), vec!["serde_json::Value"]);
    assert_eq!(
        seq(opt(RustType::JsonValue)).required_imports(),
        vec!["serde_json::Value"]
    );
    assert!(RustType::String.required_imports().is_empty());
    assert!(seq(RustType::Custom("A".to_string())).required_imports().is_empty());
}

#[test]
fn duplicate_and_clone_keep_the_type() {
    let t = seq(map(RustType::String, RustType::Custom("UserId".to_string())));
    assert_eq!(t.duplicate(), t);
    assert_eq!(t.clone(), t);
}

#[test]
fn mapper_prefers_the_latest_choice() {
    let mut mapper = TypeMapper::new();
    mapper.add_mapping("str".to_string(), RustType::Custom("Text".to_string()));
    assert_eq!(mapper.map_type("str"), RustType::Custom("Text".to_string()));
    mapper.add_mapping("str".to_string(), RustType::I32);
    assert_eq!(mapper.map_type("str"), RustType::I32);
    assert_eq!(mapper.map_type("list[str]"), seq(RustType::String));
    assert_eq!(TypeMapper::default().map_type("str"), RustType::String);
}
