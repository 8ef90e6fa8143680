//! Texts as sequences of characters: how they are compared, cut, split and
//! joined.

use vstd::prelude::*;
use vstd::string::StringExecFns;

verus! {

/// Appends one character to a string: `String::push` adds exactly `c` at the end
/// and leaves what was there unchanged.
pub assume_specification[ std::string::String::push ](s: &mut std::string::String, c: char)
    ensures
        final(s)@ == old(s)@.push(c),
;

/// Whether Unicode counts the character as alphabetic.
pub uninterp spec fn alphabetic(c: char) -> bool;

/// Whether Unicode counts the character as numeric.
pub uninterp spec fn numeric(c: char) -> bool;

/// Whether Unicode counts the character as white space.
pub uninterp spec fn whitespace(c: char) -> bool;

/// `char::is_alphabetic` says whether the character has the Unicode property
/// `Alphabetic`; the answer depends on the character alone, and `alphabetic` is
/// its name.
pub assume_specification[ char::is_alphabetic ](c: char) -> (b: bool)
    ensures
        b == alphabetic(c),
;

/// `char::is_numeric` says whether the character is in one of the Unicode
/// categories of numbers; the answer depends on the character alone, and
/// `numeric` is its name.
pub assume_specification[ char::is_numeric ](c: char) -> (b: bool)
    ensures
        b == numeric(c),
;

/// `char::is_whitespace` says whether the character has the Unicode property
/// `White_Space`; the answer depends on the character alone, and `whitespace` is
/// its name.
pub assume_specification[ char::is_whitespace ](c: char) -> (b: bool)
    ensures
        b == whitespace(c),
;

/// Whether the character is one of the first 128, which are the same in every
/// encoding.
pub open spec fn is_plain(c: char) -> bool {
    c <= '\u{7f}'
}

/// Whether the character is a letter: one of `a` to `z` and `A` to `Z` among
/// the plain characters, and what Unicode counts as alphabetic among the
/// others.
pub open spec fn is_letter(c: char) -> bool {
    if is_plain(c) {
        ('a' <= c && c <= 'z') || ('A' <= c && c <= 'Z')
    } else {
        alphabetic(c)
    }
}

/// Whether the character is a digit: one of `0` to `9` among the plain
/// characters, and what Unicode counts as numeric among the others.
pub open spec fn is_digit(c: char) -> bool {
    if is_plain(c) {
        '0' <= c && c <= '9'
    } else {
        numeric(c)
    }
}

/// Whether the character is white space.
pub open spec fn is_space(c: char) -> bool {
    whitespace(c)
}

/// Whether the character is a letter.
pub fn letter(c: char) -> (b: bool)
    ensures
        b == is_letter(c),
{
    if c <= '\u{7f}' {
        (c >= 'a' && c <= 'z') || (c >= 'A' && c <= 'Z')
    } else {
        c.is_alphabetic()
    }
}

/// Whether the character is a digit.
pub fn digit(c: char) -> (b: bool)
    ensures
        b == is_digit(c),
{
    if c <= '\u{7f}' {
        c >= '0' && c <= '9'
    } else {
        c.is_numeric()
    }
}

/// Whether the character is white space.
pub fn space(c: char) -> (b: bool)
    ensures
        b == is_space(c),
{
    c.is_whitespace()
}

/// The characters of `s`, in order.
pub fn chars_of(s: &str) -> (out: Vec<char>)
    ensures
        out@ == s@,
{
    let mut out: Vec<char> = Vec::new();
    for c in it: s.chars()
        invariant
            it.seq() == s@,
            out@ == it.seq().take(it.index()),
    {
        out.push(c);
        assert(it.seq().take(it.index() + 1) =~= it.seq().take(it.index()).push(c));
    }
    assert(out@ =~= s@);
    out
}

/// The string made of the characters of `v`, in order.
pub fn to_text(v: &Vec<char>) -> (s: String)
    ensures
        s@ == v@,
{
    let mut s = String::new();
    let mut i: usize = 0;
    while i < v.len()
        invariant
            i <= v.len(),
            s@ == v@.take(i as int),
        decreases v.len() - i,
    {
        s.push(v[i]);
        assert(v@.take(i + 1) =~= v@.take(i as int).push(v@[i as int]));
        i += 1;
    }
    assert(v@.take(v.len() as int) =~= v@);
    s
}

/// Whether two character vectors hold the same text.
pub fn same_chars(a: &Vec<char>, b: &Vec<char>) -> (r: bool)
    ensures
        r == (a@ == b@),
{
    if a.len() != b.len() {
        return false;
    }
    let mut i: usize = 0;
    while i < a.len()
        invariant
            i <= a.len(),
            a.len() == b.len(),
            forall|j: int| 0 <= j < i ==> a@[j] == b@[j],
        decreases a.len() - i,
    {
        if a[i] != b[i] {
            return false;
        }
        i += 1;
    }
    assert(a@ =~= b@);
    true
}

/// Whether `s` spells exactly the word `word`.
pub fn spells(s: &Vec<char>, word: &str) -> (r: bool)
    ensures
        r == (s@ == word@),
{
    let w = chars_of(word);
    same_chars(s, &w)
}

/// Whether two strings hold the same text.
pub fn same_text(a: &str, b: &str) -> (r: bool)
    ensures
        r == (a@ == b@),
{
    let x = chars_of(a);
    let y = chars_of(b);
    same_chars(&x, &y)
}

/// A copy of the characters of `s` from `lo` up to, not including, `hi`.
pub fn slice_of(s: &Vec<char>, lo: usize, hi: usize) -> (out: Vec<char>)
    requires
        lo <= hi <= s.len(),
    ensures
        out@ == s@.subrange(lo as int, hi as int),
{
    let mut out: Vec<char> = Vec::new();
    let mut i: usize = lo;
    while i < hi
        invariant
            lo <= i <= hi <= s.len(),
            out@ == s@.subrange(lo as int, i as int),
        decreases hi - i,
    {
        out.push(s[i]);
        assert(s@.subrange(lo as int, i + 1) =~= s@.subrange(lo as int, i as int).push(s@[i as int]));
        i += 1;
    }
    out
}

/// The text without the white space at its start.
pub open spec fn trim_start(s: Seq<char>) -> Seq<char>
    decreases s.len(),
{
    if s.len() > 0 && is_space(s[0]) {
        trim_start(s.drop_first())
    } else {
        s
    }
}

/// The text without the white space at its end.
pub open spec fn trim_end(s: Seq<char>) -> Seq<char>
    decreases s.len(),
{
    if s.len() > 0 && is_space(s.last()) {
        trim_end(s.drop_last())
    } else {
        s
    }
}

/// The text without the white space at either end.
pub open spec fn trimmed(s: Seq<char>) -> Seq<char> {
    trim_end(trim_start(s))
}

/// Taking white space off the start never makes a text longer.
pub proof fn lemma_trim_start_len(s: Seq<char>)
    ensures
        trim_start(s).len() <= s.len(),
    decreases s.len(),
{
    if s.len() > 0 && is_space(s[0]) {
        lemma_trim_start_len(s.drop_first());
    }
}

/// Taking white space off the end never makes a text longer.
pub proof fn lemma_trim_end_len(s: Seq<char>)
    ensures
        trim_end(s).len() <= s.len(),
    decreases s.len(),
{
    if s.len() > 0 && is_space(s.last()) {
        lemma_trim_end_len(s.drop_last());
    }
}

/// Trimming never makes a text longer.
pub proof fn lemma_trimmed_len(s: Seq<char>)
    ensures
        trimmed(s).len() <= s.len(),
{
    lemma_trim_start_len(s);
    lemma_trim_end_len(trim_start(s));
}

/// The text without the white space at either end.
pub fn trim(s: &Vec<char>) -> (out: Vec<char>)
    ensures
        out@ == trimmed(s@),
{
    let n = s.len();
    let mut lo: usize = 0;
    assert(s@.subrange(0, n as int) =~= s@);
    while lo < n && space(s[lo])
        invariant
            lo <= n == s.len(),
            trim_start(s@) == trim_start(s@.subrange(lo as int, n as int)),
        decreases n - lo,
    {
        assert(s@.subrange(lo as int, n as int).drop_first() =~= s@.subrange(lo + 1, n as int));
        lo += 1;
    }
    assert(trim_start(s@) == s@.subrange(lo as int, n as int));
    let mut hi: usize = n;
    while hi > lo && space(s[hi - 1])
        invariant
            lo <= hi <= n == s.len(),
            trimmed(s@) == trim_end(s@.subrange(lo as int, hi as int)),
        decreases hi - lo,
    {
        assert(s@.subrange(lo as int, hi as int).drop_last() =~= s@.subrange(lo as int, hi - 1));
        hi -= 1;
    }
    slice_of(s, lo, hi)
}

/// The place of the first `c` in `s` at or after `i`; the length of `s` where
/// there is none.
pub open spec fn first_from(s: Seq<char>, c: char, i: int) -> int
    decreases s.len() - i,
{
    if i < 0 || i >= s.len() {
        s.len() as int
    } else if s[i] == c {
        i
    } else {
        first_from(s, c, i + 1)
    }
}

/// `first_from` gives the least place that holds `c`.
pub proof fn lemma_first_from(s: Seq<char>, c: char, i: int)
    requires
        0 <= i <= s.len(),
    ensures
        i <= first_from(s, c, i) <= s.len(),
        first_from(s, c, i) < s.len() ==> s[first_from(s, c, i)] == c,
        forall|j: int| i <= j < first_from(s, c, i) ==> s[j] != c,
    decreases s.len() - i,
{
    if i < s.len() && s[i] != c {
        lemma_first_from(s, c, i + 1);
    }
}

/// The place of the first `c` in `s`, or the length of `s`.
pub fn find_first(s: &Vec<char>, c: char) -> (k: usize)
    ensures
        k == first_from(s@, c, 0),
        k <= s.len(),
{
    let mut i: usize = 0;
    while i < s.len() && s[i] != c
        invariant
            i <= s.len(),
            first_from(s@, c, 0) == first_from(s@, c, i as int),
        decreases s.len() - i,
    {
        i += 1;
    }
    i
}

/// The place of the last `c` in `s` before `i`; -1 where there is none.
pub open spec fn last_before(s: Seq<char>, c: char, i: int) -> int
    decreases i,
{
    if i <= 0 || i > s.len() {
        -1
    } else if s[i - 1] == c {
        i - 1
    } else {
        last_before(s, c, i - 1)
    }
}

/// `last_before` gives the greatest place before `i` that holds `c`.
pub proof fn lemma_last_before(s: Seq<char>, c: char, i: int)
    requires
        0 <= i <= s.len(),
    ensures
        -1 <= last_before(s, c, i) < i,
        last_before(s, c, i) >= 0 ==> s[last_before(s, c, i)] == c,
        forall|j: int| last_before(s, c, i) < j < i ==> s[j] != c,
    decreases i,
{
    if i > 0 && s[i - 1] != c {
        lemma_last_before(s, c, i - 1);
    }
}

/// The place of the last `c` in `s`, where there is one.
pub fn find_last(s: &Vec<char>, c: char) -> (k: Option<usize>)
    ensures
        match k {
            Some(place) => place == last_before(s@, c, s@.len() as int),
            None => last_before(s@, c, s@.len() as int) == -1,
        },
{
    let mut i: usize = s.len();
    while i > 0 && s[i - 1] != c
        invariant
            i <= s.len(),
            last_before(s@, c, s@.len() as int) == last_before(s@, c, i as int),
        decreases i,
    {
        i -= 1;
    }
    if i > 0 {
        Some(i - 1)
    } else {
        None
    }
}

/// How deep inside square brackets the text is after the character `c`, when it
/// was `d` deep before it. A closing bracket that closes nothing is passed over.
pub open spec fn depth_after(d: nat, c: char) -> nat {
    if c == '[' {
        d + 1
    } else if c == ']' && d > 0 {
        (d - 1) as nat
    } else {
        d
    }
}

/// The place of the first `sep` outside all square brackets at or after `i`, where
/// the text is `d` brackets deep at `i`; the length of `s` where there is none.
pub open spec fn next_top(s: Seq<char>, sep: char, i: int, d: nat) -> int
    decreases s.len() - i,
{
    if i < 0 || i >= s.len() {
        s.len() as int
    } else if s[i] == sep && d == 0 {
        i
    } else {
        next_top(s, sep, i + 1, depth_after(d, s[i]))
    }
}

/// The pieces of `s` between the separators `sep` that stand outside all square
/// brackets. A text without such a separator is one piece.
pub open spec fn split_top(s: Seq<char>, sep: char) -> Seq<Seq<char>>
    decreases s.len(),
{
    let k = next_top(s, sep, 0, 0);
    if 0 <= k < s.len() {
        seq![s.subrange(0, k)] + split_top(s.subrange(k + 1, s.len() as int), sep)
    } else {
        seq![s]
    }
}

/// No piece is longer than the text, and where there are two or more, each is
/// shorter than the text.
pub proof fn lemma_split_top_len(s: Seq<char>, sep: char)
    ensures
        split_top(s, sep).len() >= 1,
        forall|i: int| 0 <= i < split_top(s, sep).len() ==> (#[trigger] split_top(s, sep)[i]).len() <= s.len(),
        split_top(s, sep).len() >= 2 ==> forall|i: int| 0 <= i < split_top(s, sep).len() ==> (#[trigger] split_top(s, sep)[i]).len() < s.len(),
    decreases s.len(),
{
    let k = next_top(s, sep, 0, 0);
    if 0 <= k < s.len() {
        let rest = s.subrange(k + 1, s.len() as int);
        lemma_split_top_len(rest, sep);
        let tail = split_top(rest, sep);
        let all = split_top(s, sep);
        assert(all == seq![s.subrange(0, k)] + tail);
        assert forall|i: int| 0 <= i < all.len() implies (#[trigger] all[i]).len() < s.len() by {
            if i > 0 {
                assert(all[i] == tail[i - 1]);
            }
        }
    }
}

/// The texts that the vectors of `v` hold, in order.
pub open spec fn texts(v: Seq<Vec<char>>) -> Seq<Seq<char>> {
    Seq::new(v.len(), |i: int| v[i]@)
}

fn find_top(s: &Vec<char>, sep: char) -> (k: usize)
    ensures
        k == next_top(s@, sep, 0, 0),
        k <= s.len(),
{
    let mut i: usize = 0;
    let mut d: usize = 0;
    while i < s.len() && !(s[i] == sep && d == 0)
        invariant
            i <= s.len(),
            d <= i,
            next_top(s@, sep, 0, 0) == next_top(s@, sep, i as int, d as nat),
        decreases s.len() - i,
    {
        let c = s[i];
        if c == '[' {
            d += 1;
        } else if c == ']' && d > 0 {
            d -= 1;
        }
        i += 1;
    }
    i
}

/// The pieces of `s` between the separators `sep` that stand outside all square
/// brackets.
pub fn split(s: &Vec<char>, sep: char) -> (out: Vec<Vec<char>>)
    ensures
        texts(out@) == split_top(s@, sep),
{
    let mut out: Vec<Vec<char>> = Vec::new();
    let mut rest: Vec<char> = slice_of(s, 0, s.len());
    assert(rest@ =~= s@);
    assert(texts(out@) + split_top(rest@, sep) =~= split_top(s@, sep));
    loop
        invariant_except_break
            texts(out@) + split_top(rest@, sep) == split_top(s@, sep),
        ensures
            texts(out@) == split_top(s@, sep),
        decreases rest.len(),
    {
        let k = find_top(&rest, sep);
        let ghost before = texts(out@);
        if k < rest.len() {
            let piece = slice_of(&rest, 0, k);
            let next = slice_of(&rest, k + 1, rest.len());
            out.push(piece);
            assert(texts(out@) =~= before.push(piece@));
            assert(texts(out@) + split_top(next@, sep) =~= before + split_top(rest@, sep));
            rest = next;
        } else {
            out.push(rest);
            assert(texts(out@) =~= before + split_top(rest@, sep));
            break;
        }
    }
    out
}

/// The text of an optional string slice.
pub open spec fn opt_str(s: Option<&str>) -> Option<Seq<char>> {
    match s {
        Some(t) => Some(t@),
        None => None,
    }
}

/// The texts that the strings of `v` hold, in order.
pub open spec fn strings(v: Seq<String>) -> Seq<Seq<char>> {
    Seq::new(v.len(), |i: int| v[i]@)
}

/// The items one after another, with `sep` between each two.
pub open spec fn joined(items: Seq<Seq<char>>, sep: Seq<char>) -> Seq<char>
    decreases items.len(),
{
    if items.len() == 0 {
        Seq::empty()
    } else if items.len() == 1 {
        items[0]
    } else {
        joined(items.drop_last(), sep) + sep + items.last()
    }
}

/// The items one after another.
pub open spec fn concat(items: Seq<Seq<char>>) -> Seq<char>
    decreases items.len(),
{
    if items.len() == 0 {
        Seq::empty()
    } else {
        concat(items.drop_last()) + items.last()
    }
}

/// The items one after another, with `sep` between each two.
pub fn join(items: &Vec<String>, sep: &str) -> (out: String)
    ensures
        out@ == joined(strings(items@), sep@),
{
    let mut out = String::new();
    let mut i: usize = 0;
    assert(strings(items@).take(0) =~= Seq::<Seq<char>>::empty());
    while i < items.len()
        invariant
            i <= items.len(),
            out@ == joined(strings(items@).take(i as int), sep@),
        decreases items.len() - i,
    {
        let ghost upto = strings(items@).take(i + 1);
        assert(upto.drop_last() =~= strings(items@).take(i as int));
        assert(upto.last() == items@[i as int]@);
        if i > 0 {
            out.append(sep);
        }
        out.append(items[i].as_str());
        assert(out@ =~= joined(upto, sep@));
        i += 1;
    }
    assert(strings(items@).take(items.len() as int) =~= strings(items@));
    out
}

/// The items one after another.
pub fn concat_all(items: &Vec<String>) -> (out: String)
    ensures
        out@ == concat(strings(items@)),
{
    let mut out = String::new();
    let mut i: usize = 0;
    assert(strings(items@).take(0) =~= Seq::<Seq<char>>::empty());
    while i < items.len()
        invariant
            i <= items.len(),
            out@ == concat(strings(items@).take(i as int)),
        decreases items.len() - i,
    {
        let ghost upto = strings(items@).take(i + 1);
        assert(upto.drop_last() =~= strings(items@).take(i as int));
        assert(upto.last() == items@[i as int]@);
        out.append(items[i].as_str());
        i += 1;
    }
    assert(strings(items@).take(items.len() as int) =~= strings(items@));
    out
}

/// Whether one of the strings holds the text of `name`.
pub fn holds(items: &Vec<String>, name: &str) -> (b: bool)
    ensures
        b == strings(items@).contains(name@),
{
    let mut i: usize = 0;
    while i < items.len()
        invariant
            i <= items.len(),
            forall|j: int| 0 <= j < i ==> strings(items@)[j] != name@,
        decreases items.len() - i,
    {
        if same_text(items[i].as_str(), name) {
            assert(strings(items@)[i as int] == name@);
            return true;
        }
        i += 1;
    }
    false
}

/// The text with `prefix` put after each of its line breaks.
pub open spec fn continued(s: Seq<char>, prefix: Seq<char>) -> Seq<char>
    decreases s.len(),
{
    if s.len() == 0 {
        Seq::empty()
    } else if s.last() == '\n' {
        continued(s.drop_last(), prefix).push('\n') + prefix
    } else {
        continued(s.drop_last(), prefix).push(s.last())
    }
}

/// The text with `prefix` before each of its lines.
pub open spec fn prefixed(s: Seq<char>, prefix: Seq<char>) -> Seq<char> {
    prefix + continued(s, prefix)
}

/// The text with `prefix` before each of its lines.
pub fn prefix_lines(s: &str, prefix: &str) -> (out: String)
    ensures
        out@ == prefixed(s@, prefix@),
{
    let chars = chars_of(s);
    let mut out = String::from_str(prefix);
    let mut i: usize = 0;
    assert(chars@.take(0) =~= Seq::<char>::empty());
    assert(out@ =~= prefix@ + continued(chars@.take(0), prefix@));
    while i < chars.len()
        invariant
            i <= chars.len(),
            out@ == prefix@ + continued(chars@.take(i as int), prefix@),
        decreases chars.len() - i,
    {
        let ghost upto = chars@.take(i + 1);
        let ghost before = continued(chars@.take(i as int), prefix@);
        assert(upto.drop_last() =~= chars@.take(i as int));
        assert(upto.last() == chars@[i as int]);
        let c = chars[i];
        out.push(c);
        if c == '\n' {
            out.append(prefix);
            assert(out@ =~= prefix@ + (before.push('\n') + prefix@));
        } else {
            assert(out@ =~= prefix@ + before.push(c));
        }
        i += 1;
    }
    assert(chars@.take(chars.len() as int) =~= chars@);
    out
}

/// A trimmed text neither starts nor ends with white space.
pub proof fn lemma_trimmed_is_clean(s: Seq<char>)
    ensures
        trimmed(s).len() > 0 ==> !is_space(trimmed(s)[0]) && !is_space(trimmed(s).last()),
{
    lemma_trim_start_is_clean(s);
    lemma_trim_end_keeps_start(trim_start(s));
}

proof fn lemma_trim_start_is_clean(s: Seq<char>)
    ensures
        trim_start(s).len() > 0 ==> !is_space(trim_start(s)[0]),
    decreases s.len(),
{
    if s.len() > 0 && is_space(s[0]) {
        lemma_trim_start_is_clean(s.drop_first());
    }
}

proof fn lemma_trim_end_keeps_start(s: Seq<char>)
    ensures
        trim_end(s).len() > 0 ==> trim_end(s)[0] == s[0] && !is_space(trim_end(s).last()),
    decreases s.len(),
{
    if s.len() > 0 && is_space(s.last()) {
        lemma_trim_end_keeps_start(s.drop_last());
    }
}

/// Joining puts the first item before the separator and the rest.
pub proof fn lemma_joined_first(first: Seq<char>, rest: Seq<Seq<char>>, sep: Seq<char>)
    ensures
        joined(seq![first] + rest, sep) == if rest.len() == 0 {
            first
        } else {
            first + sep + joined(rest, sep)
        },
    decreases rest.len(),
{
    let all = seq![first] + rest;
    if rest.len() == 0 {
        assert(all =~= seq![first]);
    } else {
        assert(all.drop_last() =~= seq![first] + rest.drop_last());
        assert(all.last() == rest.last());
        lemma_joined_first(first, rest.drop_last(), sep);
        if rest.len() == 1 {
            assert(rest.drop_last().len() == 0);
            assert(joined(rest, sep) == rest[0]);
            assert(joined(all, sep) =~= first + sep + rest.last());
        } else {
            assert(joined(all, sep) =~= first + sep + joined(rest, sep));
        }
    }
}

/// The pieces of a text, joined by the separator, are the text again.
pub proof fn lemma_split_top_joins(s: Seq<char>, sep: char)
    ensures
        joined(split_top(s, sep), seq![sep]) == s,
    decreases s.len(),
{
    let k = next_top(s, sep, 0, 0);
    lemma_next_top_found(s, sep, 0, 0);
    if 0 <= k < s.len() {
        let rest = s.subrange(k + 1, s.len() as int);
        lemma_split_top_joins(rest, sep);
        lemma_split_top_len(rest, sep);
        lemma_joined_first(s.subrange(0, k), split_top(rest, sep), seq![sep]);
        assert(s.subrange(0, k) + seq![sep] + rest =~= s);
    } else {
        assert(split_top(s, sep) =~= seq![s]);
    }
}

/// Where `next_top` finds a place within the text, the separator stands there.
pub proof fn lemma_next_top_found(s: Seq<char>, sep: char, i: int, d: nat)
    requires
        0 <= i <= s.len(),
    ensures
        i <= next_top(s, sep, i, d) <= s.len(),
        next_top(s, sep, i, d) < s.len() ==> s[next_top(s, sep, i, d)] == sep,
    decreases s.len() - i,
{
    if i < s.len() && !(s[i] == sep && d == 0) {
        lemma_next_top_found(s, sep, i + 1, depth_after(d, s[i]));
    }
}

/// A copy of an optional string.
pub fn copy_optional(s: &Option<String>) -> (out: Option<String>)
    ensures
        out == *s,
{
    match s {
        Some(t) => Some(t.clone()),
        None => None,
    }
}

/// A copy of the strings, in order.
pub fn copy_strings(v: &Vec<String>) -> (out: Vec<String>)
    ensures
        strings(out@) == strings(v@),
{
    let mut out: Vec<String> = Vec::new();
    let mut i: usize = 0;
    while i < v.len()
        invariant
            i <= v.len(),
            out.len() == i,
            forall|k: int| 0 <= k < i ==> (#[trigger] out@[k])@ == v@[k]@,
        decreases v.len() - i,
    {
        out.push(v[i].clone());
        i += 1;
    }
    assert(strings(out@) =~= strings(v@));
    out
}

} // verus!
