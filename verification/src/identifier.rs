//! Turns any name into an identifier of the generated language.

use crate::text::{chars_of, digit, is_digit, is_letter, letter, spells, to_text};
use vstd::prelude::*;

verus! {

/// Whether an identifier can start with the character: it is a letter or an
/// underscore.
pub open spec fn is_ident_start(c: char) -> bool {
    is_letter(c) || c == '_'
}

/// Whether an identifier can hold the character: it is a letter, a digit or an
/// underscore.
pub open spec fn is_ident_part(c: char) -> bool {
    is_letter(c) || is_digit(c) || c == '_'
}

/// Text that has the shape of an identifier: it is not empty, starts with a letter
/// or an underscore, and holds only letters, digits and underscores.
pub open spec fn ident_shaped(s: Seq<char>) -> bool {
    &&& s.len() > 0
    &&& is_ident_start(s[0])
    &&& forall|i: int| 0 <= i < s.len() ==> is_ident_part(#[trigger] s[i])
}

/// What a character becomes inside an identifier.
pub open spec fn clean_char(c: char) -> char {
    if is_ident_part(c) {
        c
    } else {
        '_'
    }
}

/// Whether an underscore has to be put before the character where it leads a
/// name: the character can stand in an identifier, but not at its start.
pub open spec fn needs_lead(c: char) -> bool {
    is_ident_part(c) && !is_ident_start(c)
}

/// The name with every character that an identifier cannot hold replaced by one
/// underscore, and one underscore put before a leading character that can only
/// stand inside an identifier. The empty name becomes a lone underscore.
pub open spec fn reshaped(s: Seq<char>) -> Seq<char> {
    if s.len() == 0 {
        seq!['_']
    } else {
        let body = Seq::new(s.len(), |i: int| clean_char(s[i]));
        if needs_lead(s[0]) {
            seq!['_'] + body
        } else {
            body
        }
    }
}

fn ident_part(c: char) -> (b: bool)
    ensures
        b == is_ident_part(c),
{
    letter(c) || digit(c) || c == '_'
}

fn reshape(s: &Vec<char>) -> (out: Vec<char>)
    ensures
        out@ == reshaped(s@),
{
    let mut out: Vec<char> = Vec::new();
    if s.len() == 0 {
        out.push('_');
        assert(out@ =~= seq!['_']);
        return out;
    }
    let lead = ident_part(s[0]) && !(letter(s[0]) || s[0] == '_');
    if lead {
        out.push('_');
    }
    let ghost head: Seq<char> = out@;
    let mut i: usize = 0;
    while i < s.len()
        invariant
            i <= s.len(),
            out@ == head + Seq::new(i as nat, |k: int| clean_char(s@[k])),
        decreases s.len() - i,
    {
        let c = s[i];
        out.push(if ident_part(c) { c } else { '_' });
        assert(out@ =~= head + Seq::new((i + 1) as nat, |k: int| clean_char(s@[k])));
        i += 1;
    }
    assert(out@ =~= reshaped(s@));
    out
}

/// The keywords that the generated language uses.
pub open spec fn is_strict_keyword(s: Seq<char>) -> bool {
    ||| s == "as"@
    ||| s == "break"@
    ||| s == "const"@
    ||| s == "continue"@
    ||| s == "crate"@
    ||| s == "else"@
    ||| s == "enum"@
    ||| s == "extern"@
    ||| s == "false"@
    ||| s == "fn"@
    ||| s == "for"@
    ||| s == "if"@
    ||| s == "impl"@
    ||| s == "in"@
    ||| s == "let"@
    ||| s == "loop"@
    ||| s == "match"@
    ||| s == "mod"@
    ||| s == "move"@
    ||| s == "mut"@
    ||| s == "pub"@
    ||| s == "ref"@
    ||| s == "return"@
    ||| s == "self"@
    ||| s == "Self"@
    ||| s == "static"@
    ||| s == "struct"@
    ||| s == "super"@
    ||| s == "trait"@
    ||| s == "true"@
    ||| s == "type"@
    ||| s == "unsafe"@
    ||| s == "use"@
    ||| s == "where"@
    ||| s == "while"@
    ||| s == "async"@
    ||| s == "await"@
    ||| s == "dyn"@
}

/// The keywords that the generated language sets aside for later use.
pub open spec fn is_set_aside_keyword(s: Seq<char>) -> bool {
    ||| s == "abstract"@
    ||| s == "become"@
    ||| s == "box"@
    ||| s == "do"@
    ||| s == "final"@
    ||| s == "macro"@
    ||| s == "override"@
    ||| s == "priv"@
    ||| s == "typeof"@
    ||| s == "unsized"@
    ||| s == "virtual"@
    ||| s == "yield"@
    ||| s == "try"@
}

/// The words that cannot be used as identifiers: the keywords, and the lone
/// underscore, which names nothing.
pub open spec fn is_reserved(s: Seq<char>) -> bool {
    is_strict_keyword(s) || is_set_aside_keyword(s) || s == "_"@
}

fn strict_keyword(s: &Vec<char>) -> (b: bool)
    ensures
        b == is_strict_keyword(s@),
{
    spells(s, "as")
        || spells(s, "break")
        || spells(s, "const")
        || spells(s, "continue")
        || spells(s, "crate")
        || spells(s, "else")
        || spells(s, "enum")
        || spells(s, "extern")
        || spells(s, "false")
        || spells(s, "fn")
        || spells(s, "for")
        || spells(s, "if")
        || spells(s, "impl")
        || spells(s, "in")
        || spells(s, "let")
        || spells(s, "loop")
        || spells(s, "match")
        || spells(s, "mod")
        || spells(s, "move")
        || spells(s, "mut")
        || spells(s, "pub")
        || spells(s, "ref")
        || spells(s, "return")
        || spells(s, "self")
        || spells(s, "Self")
        || spells(s, "static")
        || spells(s, "struct")
        || spells(s, "super")
        || spells(s, "trait")
        || spells(s, "true")
        || spells(s, "type")
        || spells(s, "unsafe")
        || spells(s, "use")
        || spells(s, "where")
        || spells(s, "while")
        || spells(s, "async")
        || spells(s, "await")
        || spells(s, "dyn")
}

fn set_aside_keyword(s: &Vec<char>) -> (b: bool)
    ensures
        b == is_set_aside_keyword(s@),
{
    spells(s, "abstract")
        || spells(s, "become")
        || spells(s, "box")
        || spells(s, "do")
        || spells(s, "final")
        || spells(s, "macro")
        || spells(s, "override")
        || spells(s, "priv")
        || spells(s, "typeof")
        || spells(s, "unsized")
        || spells(s, "virtual")
        || spells(s, "yield")
        || spells(s, "try")
}

proof fn lemma_strict_keyword_shape(s: Seq<char>)
    requires
        is_strict_keyword(s),
    ensures
        ident_shaped(s),
        s.last() != '_',
{
    reveal_strlit("as");
    reveal_strlit("break");
    reveal_strlit("const");
    reveal_strlit("continue");
    reveal_strlit("crate");
    reveal_strlit("else");
    reveal_strlit("enum");
    reveal_strlit("extern");
    reveal_strlit("false");
    reveal_strlit("fn");
    reveal_strlit("for");
    reveal_strlit("if");
    reveal_strlit("impl");
    reveal_strlit("in");
    reveal_strlit("let");
    reveal_strlit("loop");
    reveal_strlit("match");
    reveal_strlit("mod");
    reveal_strlit("move");
    reveal_strlit("mut");
    reveal_strlit("pub");
    reveal_strlit("ref");
    reveal_strlit("return");
    reveal_strlit("self");
    reveal_strlit("Self");
    reveal_strlit("static");
    reveal_strlit("struct");
    reveal_strlit("super");
    reveal_strlit("trait");
    reveal_strlit("true");
    reveal_strlit("type");
    reveal_strlit("unsafe");
    reveal_strlit("use");
    reveal_strlit("where");
    reveal_strlit("while");
    reveal_strlit("async");
    reveal_strlit("await");
    reveal_strlit("dyn");
}

proof fn lemma_set_aside_keyword_shape(s: Seq<char>)
    requires
        is_set_aside_keyword(s),
    ensures
        ident_shaped(s),
        s.last() != '_',
{
    reveal_strlit("abstract");
    reveal_strlit("become");
    reveal_strlit("box");
    reveal_strlit("do");
    reveal_strlit("final");
    reveal_strlit("macro");
    reveal_strlit("override");
    reveal_strlit("priv");
    reveal_strlit("typeof");
    reveal_strlit("unsized");
    reveal_strlit("virtual");
    reveal_strlit("yield");
    reveal_strlit("try");
}

/// The identifier that stands for `name`: the reshaped name, with one underscore
/// added at its end where the reshaped name is a reserved word.
pub open spec fn sanitized(name: Seq<char>) -> Seq<char> {
    let shaped = reshaped(name);
    if is_reserved(shaped) {
        shaped.push('_')
    } else {
        shaped
    }
}

/// Text that stands for an identifier as it is: it has the shape of one and is
/// no reserved word.
pub open spec fn is_identifier(s: Seq<char>) -> bool {
    ident_shaped(s) && !is_reserved(s)
}

fn reserved(s: &Vec<char>) -> (b: bool)
    ensures
        b == is_reserved(s@),
{
    strict_keyword(s) || set_aside_keyword(s) || spells(s, "_")
}

/// Turns any name into an identifier of the generated language.
pub fn sanitize_chars(name: &Vec<char>) -> (out: Vec<char>)
    ensures
        out@ == sanitized(name@),
        is_identifier(out@),
{
    let mut out = reshape(name);
    if reserved(&out) {
        out.push('_');
    }
    proof {
        lemma_sanitized_is_identifier(name@);
    }
    out
}

/// Turns any name into an identifier of the generated language.
pub fn sanitize(name: &str) -> (out: String)
    ensures
        out@ == sanitized(name@),
        is_identifier(out@),
{
    let chars = chars_of(name);
    let clean = sanitize_chars(&chars);
    to_text(&clean)
}

/// Every reserved word has the shape of an identifier, and only the lone
/// underscore ends in an underscore.
pub proof fn lemma_reserved_shape(s: Seq<char>)
    requires
        is_reserved(s),
    ensures
        ident_shaped(s),
        s.len() >= 2 ==> s.last() != '_',
{
    if is_strict_keyword(s) {
        lemma_strict_keyword_shape(s);
    } else if is_set_aside_keyword(s) {
        lemma_set_aside_keyword_shape(s);
    } else {
        reveal_strlit("_");
    }
}

/// A reshaped name has the shape of an identifier.
pub proof fn lemma_reshaped_shape(s: Seq<char>)
    ensures
        ident_shaped(reshaped(s)),
{
    let r = reshaped(s);
    if s.len() > 0 {
        let body = Seq::new(s.len(), |i: int| clean_char(s[i]));
        assert forall|i: int| 0 <= i < r.len() implies is_ident_part(#[trigger] r[i]) by {
            if needs_lead(s[0]) {
                if i > 0 {
                    assert(r[i] == body[i - 1]);
                }
            } else {
                assert(r[i] == body[i]);
            }
        }
        assert(is_ident_start(r[0])) by {
            if !needs_lead(s[0]) {
                assert(r[0] == body[0]);
            }
        }
    }
}

/// Reshaping leaves text that already has the shape of an identifier as it is.
pub proof fn lemma_reshaped_fixed(s: Seq<char>)
    requires
        ident_shaped(s),
    ensures
        reshaped(s) == s,
{
    assert(!needs_lead(s[0]));
    assert(reshaped(s) =~= s);
}

/// The sanitized name is an identifier: it has the shape of one and is no reserved
/// word.
pub proof fn lemma_sanitized_is_identifier(name: Seq<char>)
    ensures
        is_identifier(sanitized(name)),
{
    let shaped = reshaped(name);
    lemma_reshaped_shape(name);
    if is_reserved(shaped) {
        let out = shaped.push('_');
        assert(out.last() == '_');
        assert(out[0] == shaped[0]);
        assert forall|i: int| 0 <= i < out.len() implies is_ident_part(#[trigger] out[i]) by {
            if i < shaped.len() {
                assert(out[i] == shaped[i]);
            }
        }
        if is_reserved(out) {
            lemma_reserved_shape(out);
        }
    }
}

/// Sanitizing is idempotent: a sanitized name is left as it is.
pub proof fn lemma_sanitize_idempotent(name: Seq<char>)
    ensures
        sanitized(sanitized(name)) == sanitized(name),
{
    lemma_sanitized_is_identifier(name);
    lemma_reshaped_fixed(sanitized(name));
}

/// An identifier is left as it is.
pub proof fn lemma_sanitize_keeps_identifiers(name: Seq<char>)
    requires
        is_identifier(name),
    ensures
        sanitized(name) == name,
{
    lemma_reshaped_fixed(name);
}

/// A reserved word never comes out as itself, nor as another reserved word: it
/// comes out with one underscore added.
pub proof fn lemma_sanitize_avoids_reserved(word: Seq<char>)
    requires
        is_reserved(word),
    ensures
        sanitized(word) == word.push('_'),
        sanitized(word) != word,
        !is_reserved(sanitized(word)),
{
    lemma_reserved_shape(word);
    lemma_reshaped_fixed(word);
    lemma_sanitized_is_identifier(word);
    assert(word.push('_').len() == word.len() + 1);
}

} // verus!
