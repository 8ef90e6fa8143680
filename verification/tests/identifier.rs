use langgraph_rs::identifier::sanitize;

#[test]
fn identifiers_are_kept() {
    assert_eq!(sanitize("node_a"), "node_a");
    assert_eq!(sanitize("_private"), "_private");
    assert_eq!(sanitize("CamelCase9"), "CamelCase9");
}

#[test]
fn leading_digit_gets_an_underscore() {
    assert_eq!(sanitize("1st"), "_1st");
    assert_eq!(sanitize("9"), "_9");
}

#[test]
fn leading_symbol_is_replaced() {
    assert_eq!(sanitize("-x"), "_x");
    assert_eq!(sanitize("$"), "__");
}

#[test]
fn other_characters_become_underscores() {
    assert_eq!(sanitize("my node"), "my_node");
    assert_eq!(sanitize("a.b-c/d"), "a_b_c_d");
    assert_eq!(sanitize("a  b"), "a__b");
    assert_eq!(sanitize("a\u{1f600}b"), "a_b");
    assert_eq!(sanitize("x\u{a0}y"), "x_y");
}

#[test]
fn letters_and_digits_of_every_script_are_kept() {
    assert_eq!(sanitize("caf\u{e9}"), "caf\u{e9}");
    assert_eq!(sanitize("\u{e9}t\u{e9}"), "\u{e9}t\u{e9}");
    assert_eq!(sanitize("\u{4e2d}\u{6587}"), "\u{4e2d}\u{6587}");
    assert_eq!(sanitize("n\u{663}"), "n\u{663}");
    assert_eq!(sanitize("\u{663}n"), "_\u{663}n");
    assert_eq!(sanitize("\u{bd}"), "_\u{bd}");
    assert_eq!(sanitize("\u{2160}x"), "\u{2160}x");
}

#[test]
fn empty_name_becomes_underscores() {
    assert_eq!(sanitize(""), "__");
}

#[test]
fn reserved_words_get_a_suffix() {
    for word in [
        "as", "break", "const", "continue", "crate", "else", "enum", "false", "fn", "for",
        "if", "impl", "in", "let", "loop", "match", "mod", "move", "mut", "pub", "ref",
        "return", "self", "Self", "static", "struct", "super", "trait", "true", "type",
        "unsafe", "use", "where", "while", "async", "await", "dyn", "abstract", "become",
        "box", "do", "final", "macro", "override", "priv", "typeof", "unsized", "virtual",
        "yield", "try", "_",
    ] {
        assert_eq!(sanitize(word), format!("{}_", word));
    }
    let ext: String = ['e', 'x', 't', 'e', 'r', 'n'].iter().collect();
    assert_eq!(sanitize(&ext), format!("{}_", ext));
}

#[test]
fn reserved_words_are_matched_by_case() {
    assert_eq!(sanitize("Match"), "Match");
    assert_eq!(sanitize("FN"), "FN");
    assert_eq!(sanitize("self"), "self_");
    assert_eq!(sanitize("Self"), "Self_");
}

#[test]
fn reshaped_name_that_is_reserved_gets_a_suffix() {
    assert_eq!(sanitize("fn_"), "fn_");
    assert_eq!(sanitize("-"), "__");
}

#[test]
fn sanitize_twice_is_sanitize_once() {
    for name in ["", "fn", "1a", "a b", "-", "_", "x", "type_", "__", "a-b.c", "9 lives"] {
        let once = sanitize(name);
        assert_eq!(sanitize(&once), once);
    }
}
