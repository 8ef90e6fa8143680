//! What is decided when a graph is read out of a running program: which of
//! several sources is believed, and how what they say is put together.

use crate::graph::{opt_text, pair_texts, EdgeInfo, EdgeModel, FieldInfo, FieldModel};
use crate::text::{chars_of, strings, to_text};
use vstd::prelude::*;
use vstd::string::StringExecFns;

verus! {

/// Whether `part` stands in `s` at the place `i`.
pub open spec fn stands_at(s: Seq<char>, part: Seq<char>, i: int) -> bool {
    0 <= i && i + part.len() <= s.len() && s.subrange(i, i + part.len()) == part
}

/// Whether `part` stands somewhere in `s`.
pub open spec fn contains_text(s: Seq<char>, part: Seq<char>) -> bool {
    exists|i: int| stands_at(s, part, i)
}

/// Whether a type annotation says that a value may be absent: it starts with
/// `Optional[`, or it holds `None` somewhere.
pub open spec fn annotation_is_optional(annotation: Seq<char>) -> bool {
    stands_at(annotation, "Optional["@, 0) || contains_text(annotation, "None"@)
}

fn matches_at(s: &Vec<char>, part: &Vec<char>, i: usize) -> (r: bool)
    ensures
        r == stands_at(s@, part@, i as int),
{
    if part.len() > s.len() || i > s.len() - part.len() {
        return false;
    }
    let mut k: usize = 0;
    while k < part.len()
        invariant
            k <= part.len(),
            i + part.len() <= s.len(),
            forall|j: int| 0 <= j < k ==> s@[i + j] == part@[j],
        decreases part.len() - k,
    {
        if s[i + k] != part[k] {
            assert(s@.subrange(i as int, i + part.len())[k as int] == s@[i + k]);
            return false;
        }
        k += 1;
    }
    assert(s@.subrange(i as int, i + part.len()) =~= part@);
    true
}

fn holds_text(s: &Vec<char>, part: &Vec<char>) -> (r: bool)
    ensures
        r == contains_text(s@, part@),
{
    if part.len() > s.len() {
        return false;
    }
    if part.len() == 0 {
        assert(s@.subrange(0, 0) =~= part@);
        assert(stands_at(s@, part@, 0));
        return true;
    }
    let last = s.len() - part.len();
    let mut i: usize = 0;
    while i <= last
        invariant
            i <= last + 1,
            last == s.len() - part.len(),
            last < s.len(),
            forall|j: int| 0 <= j < i ==> !stands_at(s@, part@, j),
        decreases last + 1 - i,
    {
        if matches_at(s, part, i) {
            return true;
        }
        i += 1;
    }
    false
}

/// Whether a type annotation says that a value may be absent.
pub fn is_optional_annotation(annotation: &str) -> (r: bool)
    ensures
        r == annotation_is_optional(annotation@),
{
    let s = chars_of(annotation);
    matches_at(&s, &chars_of("Optional["), 0) || holds_text(&s, &chars_of("None"))
}

/// The character that stands for a digit.
pub open spec fn digit_char(d: nat) -> char {
    if d == 0 {
        '0'
    } else if d == 1 {
        '1'
    } else if d == 2 {
        '2'
    } else if d == 3 {
        '3'
    } else if d == 4 {
        '4'
    } else if d == 5 {
        '5'
    } else if d == 6 {
        '6'
    } else if d == 7 {
        '7'
    } else if d == 8 {
        '8'
    } else {
        '9'
    }
}

/// A number written in decimal.
pub open spec fn decimal(n: nat) -> Seq<char>
    decreases n,
{
    if n < 10 {
        seq![digit_char(n)]
    } else {
        decimal(n / 10).push(digit_char(n % 10))
    }
}

/// Where a function stands in the source program: the file, a colon, and the
/// line in decimal.
pub open spec fn source_hint_text(file: Seq<char>, line: nat) -> Seq<char> {
    file + ":"@ + decimal(line)
}

fn digit_of(d: usize) -> (c: char)
    requires
        d < 10,
    ensures
        c == digit_char(d as nat),
{
    if d == 0 {
        '0'
    } else if d == 1 {
        '1'
    } else if d == 2 {
        '2'
    } else if d == 3 {
        '3'
    } else if d == 4 {
        '4'
    } else if d == 5 {
        '5'
    } else if d == 6 {
        '6'
    } else if d == 7 {
        '7'
    } else if d == 8 {
        '8'
    } else {
        '9'
    }
}

fn decimal_chars(n: usize) -> (out: Vec<char>)
    ensures
        out@ == decimal(n as nat),
    decreases n,
{
    if n < 10 {
        let mut out: Vec<char> = Vec::new();
        out.push(digit_of(n));
        assert(out@ =~= seq![digit_char(n as nat)]);
        out
    } else {
        let mut out = decimal_chars(n / 10);
        out.push(digit_of(n % 10));
        out
    }
}

/// Where a function stands in the source program.
pub fn source_hint(file: &str, line: usize) -> (out: String)
    ensures
        out@ == source_hint_text(file@, line as nat),
{
    let mut chars = chars_of(file);
    chars.push(':');
    let digits = decimal_chars(line);
    let ghost head = chars@;
    let mut i: usize = 0;
    while i < digits.len()
        invariant
            i <= digits.len(),
            chars@ == head + digits@.take(i as int),
        decreases digits.len() - i,
    {
        chars.push(digits[i]);
        assert(digits@.take(i + 1) =~= digits@.take(i as int).push(digits@[i as int]));
        i += 1;
    }
    assert(digits@.take(digits.len() as int) =~= digits@);
    proof {
        reveal_strlit(":");
        assert(head =~= file@ + ":"@);
    }
    to_text(&chars)
}

/// The first of the two texts that is there, or `fallback` where neither is.
pub open spec fn first_known(first: Option<Seq<char>>, second: Option<Seq<char>>, fallback: Seq<char>) -> Seq<char> {
    match first {
        Some(t) => t,
        None => match second {
            Some(t) => t,
            None => fallback,
        },
    }
}

fn pick(first: Option<String>, second: Option<String>, fallback: &str) -> (out: String)
    ensures
        out@ == first_known(opt_text(first), opt_text(second), fallback@),
{
    match first {
        Some(t) => t,
        None => match second {
            Some(t) => t,
            None => String::from_str(fallback),
        },
    }
}

/// Where a graph starts: the entry point that the graph names itself, else the
/// one that its builder names, else the start `__start__`.
pub fn entry_point_of(own: Option<String>, builder: Option<String>) -> (out: String)
    ensures
        out@ == first_known(opt_text(own), opt_text(builder), "__start__"@),
{
    pick(own, builder, "__start__")
}

/// The name of the function of a node: the name of the function it wraps, else
/// its own name, else the name of its type.
pub fn function_name_of(wrapped: Option<String>, own: Option<String>, kind: String) -> (out: String)
    ensures
        out@ == first_known(opt_text(wrapped), opt_text(own), kind@),
{
    pick(wrapped, own, kind.as_str())
}

/// The name of the function that selects a branch: the name of the condition,
/// else that of the path map, else `unknown_condition`.
pub fn condition_function_name_of(condition: Option<String>, path_map: Option<String>) -> (out:
    String)
    ensures
        out@ == first_known(opt_text(condition), opt_text(path_map), "unknown_condition"@),
{
    pick(condition, path_map, "unknown_condition")
}

/// The field of a state that a channel of the graph stands for: it is not
/// optional and has no default, and its type is `Any` where none is known.
pub fn channel_field(name: String, annotation: Option<String>) -> (out: FieldInfo)
    ensures
        out@ == (FieldModel {
            name: name@,
            declared_type: first_known(opt_text(annotation), None, "Any"@),
            is_optional: false,
            default_value: None,
        }),
{
    FieldInfo {
        name,
        declared_type: pick(annotation, None, "Any"),
        is_optional: false,
        default_value: None,
    }
}

/// The field of a state that an annotation of the state class stands for: it
/// has no default, its type is `Any` where none is known, and it is optional
/// where its type says so.
pub fn annotated_field(name: String, annotation: Option<String>) -> (out: FieldInfo)
    ensures
        out@ == (FieldModel {
            name: name@,
            declared_type: first_known(opt_text(annotation), None, "Any"@),
            is_optional: annotation_is_optional(first_known(opt_text(annotation), None, "Any"@)),
            default_value: None,
        }),
{
    let declared_type = pick(annotation, None, "Any");
    let is_optional = is_optional_annotation(declared_type.as_str());
    FieldInfo { name, declared_type, is_optional, default_value: None }
}

/// The fields of a state: those of the channels, or, where there are none,
/// those of the state class.
pub fn fields_of(channels: Vec<FieldInfo>, schema: Vec<FieldInfo>) -> (out: Vec<FieldInfo>)
    ensures
        out == if channels@.len() == 0 {
            schema
        } else {
            channels
        },
{
    if channels.len() == 0 {
        schema
    } else {
        channels
    }
}

/// The edge from `from` to `to` without a condition.
pub open spec fn plain_edge(from: Seq<char>, to: Seq<char>) -> EdgeModel {
    EdgeModel { from, to, condition: None }
}

/// The edges that lead from `from` to each of `targets` that is not empty, in
/// order.
pub open spec fn fan_out(from: Seq<char>, targets: Seq<Seq<char>>) -> Seq<EdgeModel>
    decreases targets.len(),
{
    if targets.len() == 0 {
        Seq::empty()
    } else if targets.last().len() == 0 {
        fan_out(from, targets.drop_last())
    } else {
        fan_out(from, targets.drop_last()).push(plain_edge(from, targets.last()))
    }
}

/// The edges of the first `n` entries of the builder's table, in order.
pub open spec fn builder_edges(table: Seq<(String, Vec<String>)>, n: nat) -> Seq<EdgeModel>
    decreases n,
{
    if n == 0 {
        Seq::empty()
    } else {
        builder_edges(table, (n - 1) as nat) + fan_out(table[n - 1].0@, strings(table[n - 1].1@))
    }
}

/// The edges that the pairs name, in order.
pub open spec fn direct_edges(pairs: Seq<(Seq<char>, Seq<char>)>) -> Seq<EdgeModel> {
    Seq::new(pairs.len(), |i: int| plain_edge(pairs[i].0, pairs[i].1))
}

/// The edges as values of the model.
pub open spec fn edge_views(edges: Seq<EdgeInfo>) -> Seq<EdgeModel> {
    Seq::new(edges.len(), |i: int| edges[i]@)
}

/// The edges of a graph: those that the graph lists itself as pairs, then those
/// of its builder's table, which names for each node the nodes that follow it.
/// A follower without a name is passed over.
pub fn edges_of(direct: &Vec<(String, String)>, builder: &Vec<(String, Vec<String>)>) -> (out: Vec<
    EdgeInfo,
>)
    ensures
        edge_views(out@) == direct_edges(pair_texts(direct@)) + builder_edges(
            builder@,
            builder@.len(),
        ),
{
    let mut out: Vec<EdgeInfo> = Vec::new();
    let mut i: usize = 0;
    while i < direct.len()
        invariant
            i <= direct.len(),
            out.len() == i,
            forall|k: int| 0 <= k < i ==> (#[trigger] out@[k])@ == plain_edge(direct@[k].0@, direct@[k].1@),
        decreases direct.len() - i,
    {
        out.push(
            EdgeInfo { from: direct[i].0.clone(), to: direct[i].1.clone(), condition: None },
        );
        i += 1;
    }
    let ghost base = direct_edges(pair_texts(direct@));
    assert(edge_views(out@) =~= base + builder_edges(builder@, 0));
    let mut b: usize = 0;
    while b < builder.len()
        invariant
            b <= builder.len(),
            edge_views(out@) == base + builder_edges(builder@, b as nat),
        decreases builder.len() - b,
    {
        let from = &builder[b].0;
        let targets = &builder[b].1;
        let ghost sofar = edge_views(out@);
        let mut t: usize = 0;
        assert(strings(targets@).take(0) =~= Seq::<Seq<char>>::empty());
        assert(edge_views(out@) =~= sofar + fan_out(from@, strings(targets@).take(0)));
        while t < targets.len()
            invariant
                t <= targets.len(),
                edge_views(out@) == sofar + fan_out(from@, strings(targets@).take(t as int)),
            decreases targets.len() - t,
        {
            let ghost upto = strings(targets@).take(t + 1);
            assert(upto.drop_last() =~= strings(targets@).take(t as int));
            assert(upto.last() == targets@[t as int]@);
            let ghost before = edge_views(out@);
            if targets[t].as_str().unicode_len() != 0 {
                out.push(EdgeInfo { from: from.clone(), to: targets[t].clone(), condition: None });
                assert(edge_views(out@) =~= before.push(plain_edge(from@, targets@[t as int]@)));
                assert(edge_views(out@) =~= sofar + fan_out(from@, upto));
            }
            t += 1;
        }
        assert(strings(targets@).take(targets.len() as int) =~= strings(targets@));
        assert(edge_views(out@) =~= base + builder_edges(builder@, (b + 1) as nat));
        b += 1;
    }
    out
}

} // verus!
