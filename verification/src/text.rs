//! Text as sequences of characters: the predicates and rewrites that the rest
//! of the library states its contracts over, and the code that computes them.

use vstd::prelude::*;
use vstd::utf8::encode_utf8;

verus! {

/// `String::push`: the text grows by the one character given, at its end.
pub assume_specification[ String::push ](target: &mut String, ch: char)
    ensures
        final(target)@ == old(target)@.push(ch),
;

/// `String::push_str`: the text grows by the slice given, at its end.
pub assume_specification[ String::push_str ](target: &mut String, tail: &str)
    ensures
        final(target)@ == old(target)@ + tail@,
;

// ───────────────────────────── white space ─────────────────────────────

/// A character with the Unicode `White_Space` property.
pub open spec fn is_space(c: char) -> bool {
    ||| '\u{9}' <= c <= '\u{d}'
    ||| c == ' '
    ||| c == '\u{85}'
    ||| c == '\u{a0}'
    ||| c == '\u{1680}'
    ||| '\u{2000}' <= c <= '\u{200a}'
    ||| c == '\u{2028}'
    ||| c == '\u{2029}'
    ||| c == '\u{202f}'
    ||| c == '\u{205f}'
    ||| c == '\u{3000}'
}

/// `s` without the white space in front.
pub open spec fn trimmed_start(s: Seq<char>) -> Seq<char>
    decreases s.len(),
{
    if s.len() > 0 && is_space(s[0]) {
        trimmed_start(s.drop_first())
    } else {
        s
    }
}

/// `s` without the white space behind.
pub open spec fn trimmed_end(s: Seq<char>) -> Seq<char>
    decreases s.len(),
{
    if s.len() > 0 && is_space(s.last()) {
        trimmed_end(s.drop_last())
    } else {
        s
    }
}

/// `s` without white space at either end.
pub open spec fn trimmed(s: Seq<char>) -> Seq<char> {
    trimmed_end(trimmed_start(s))
}

/// `s` without the run of `c` at its end.
pub open spec fn trimmed_end_of(s: Seq<char>, c: char) -> Seq<char>
    decreases s.len(),
{
    if s.len() > 0 && s.last() == c {
        trimmed_end_of(s.drop_last(), c)
    } else {
        s
    }
}

/// Whether `c` has the Unicode `White_Space` property.
pub fn whitespace(c: char) -> (r: bool)
    ensures
        r == is_space(c),
{
    ('\u{9}' <= c && c <= '\u{d}') || c == ' ' || c == '\u{85}' || c == '\u{a0}' || c
        == '\u{1680}' || ('\u{2000}' <= c && c <= '\u{200a}') || c == '\u{2028}' || c == '\u{2029}'
        || c == '\u{202f}' || c == '\u{205f}' || c == '\u{3000}'
}

// ───────────────────────── characters and slices ─────────────────────────

/// The characters of a string slice, in order.
pub fn chars_of(s: &str) -> (r: Vec<char>)
    ensures
        r@ == s@,
{
    let mut out: Vec<char> = Vec::new();
    for c in it: s.chars()
        invariant
            out@ == s@.take(it.index()),
            it.seq() == s@,
    {
        out.push(c);
        assert(s@.take(it.index() + 1) == s@.take(it.index()).push(c));
    }
    assert(s@.take(s@.len() as int) == s@);
    out
}

/// The text made of `chars[from..to]`.
pub fn text_between(chars: &Vec<char>, from: usize, to: usize) -> (r: String)
    requires
        from <= to <= chars.len(),
    ensures
        r@ == chars@.subrange(from as int, to as int),
{
    let mut out = String::new();
    for i in from..to
        invariant
            from <= to <= chars.len(),
            out@ == chars@.subrange(from as int, i as int),
    {
        out.push(chars[i]);
        assert(chars@.subrange(from as int, i + 1) == chars@.subrange(from as int, i as int).push(
            chars@[i as int],
        ));
    }
    out
}

/// How many bytes a text takes in UTF-8.
pub open spec fn bytes(s: Seq<char>) -> nat {
    encode_utf8(s).len()
}

/// How many bytes a slice takes.
pub fn byte_len(s: &str) -> (r: usize)
    ensures
        r == bytes(s@),
{
    s.as_bytes().len()
}

/// Two texts take as many bytes as one text made of both.
pub proof fn lemma_bytes_add(a: Seq<char>, b: Seq<char>)
    ensures
        bytes(a + b) == bytes(a) + bytes(b),
    decreases a.len(),
{
    if a.len() == 0 {
        assert(a + b =~= b);
    } else {
        lemma_bytes_add(a.drop_first(), b);
        assert((a + b).drop_first() =~= a.drop_first() + b);
        assert((a + b)[0] == a[0]);
    }
}

/// Whether two slices hold the same text.
pub fn same(a: &str, b: &str) -> (r: bool)
    ensures
        r == (a@ == b@),
{
    if byte_len(a) != byte_len(b) {
        return false;
    }
    let x = chars_of(a);
    let y = chars_of(b);
    if x.len() != y.len() {
        return false;
    }
    for i in 0..x.len()
        invariant
            x.len() == y.len(),
            x@ == a@,
            y@ == b@,
            forall|j: int| 0 <= j < i ==> x@[j] == y@[j],
    {
        if x[i] != y[i] {
            assert(a@[i as int] != b@[i as int]);
            return false;
        }
    }
    assert(a@ =~= b@);
    true
}

/// The text in an optional string.
pub open spec fn view_of(s: Option<String>) -> Option<Seq<char>> {
    match s {
        Some(s) => Some(s@),
        None => None,
    }
}

/// The text in an optional slice.
pub open spec fn str_of(s: Option<&str>) -> Option<Seq<char>> {
    match s {
        Some(s) => Some(s@),
        None => None,
    }
}

/// Whether an optional text is present and equal to `b`.
pub fn same_option(a: &Option<String>, b: &str) -> (r: bool)
    ensures
        r == (view_of(*a) == Some(b@)),
{
    match a {
        Some(s) => same(s.as_str(), b),
        None => false,
    }
}

/// `a` with `b` behind it.
pub fn cat(a: &str, b: &str) -> (r: String)
    ensures
        r@ == a@ + b@,
{
    let mut out = a.to_owned();
    out.push_str(b);
    out
}

/// Three texts, one behind the other.
pub fn cat3(a: &str, b: &str, c: &str) -> (r: String)
    ensures
        r@ == a@ + b@ + c@,
{
    let mut out = cat(a, b);
    out.push_str(c);
    out
}

/// Four texts, one behind the other.
pub fn cat4(a: &str, b: &str, c: &str, d: &str) -> (r: String)
    ensures
        r@ == a@ + b@ + c@ + d@,
{
    let mut out = cat3(a, b, c);
    out.push_str(d);
    out
}

/// Five texts, one behind the other.
pub fn cat5(a: &str, b: &str, c: &str, d: &str, e: &str) -> (r: String)
    ensures
        r@ == a@ + b@ + c@ + d@ + e@,
{
    let mut out = cat4(a, b, c, d);
    out.push_str(e);
    out
}

/// The optional text, unless it is empty.
pub open spec fn nonempty_of(s: Option<Seq<char>>) -> Option<Seq<char>> {
    match s {
        Some(s) => if s.len() == 0 {
            None
        } else {
            Some(s)
        },
        None => None,
    }
}

/// The optional text without white space at either end.
pub open spec fn trimmed_of(s: Option<Seq<char>>) -> Option<Seq<char>> {
    match s {
        Some(s) => Some(trimmed(s)),
        None => None,
    }
}

/// The optional text, or `default` where there is none.
pub open spec fn or_else(s: Option<Seq<char>>, default: Seq<char>) -> Seq<char> {
    match s {
        Some(s) => s,
        None => default,
    }
}

/// The optional text, unless it is empty.
pub fn nonempty(s: Option<String>) -> (r: Option<String>)
    ensures
        view_of(r) == nonempty_of(view_of(s)),
{
    match s {
        Some(s) => if s.as_str().is_empty() {
            None
        } else {
            Some(s)
        },
        None => None,
    }
}

/// The optional text without white space at either end, unless that leaves
/// nothing.
pub fn named(s: Option<&str>) -> (r: Option<String>)
    ensures
        view_of(r) == nonempty_of(trimmed_of(str_of(s))),
{
    match s {
        Some(s) => nonempty(Some(trim(s))),
        None => None,
    }
}

/// The optional text, or `default` where there is none.
pub fn or(s: Option<String>, default: &str) -> (r: String)
    ensures
        r@ == or_else(view_of(s), default@),
{
    match s {
        Some(s) => s,
        None => default.to_owned(),
    }
}

/// A slice of an optional string.
pub fn slice_of(s: &Option<String>) -> (r: Option<&str>)
    ensures
        str_of(r) == view_of(*s),
{
    match s {
        Some(s) => Some(s.as_str()),
        None => None,
    }
}

/// `s` without white space at either end.
pub fn trim(s: &str) -> (r: String)
    ensures
        r@ == trimmed(s@),
{
    let chars = chars_of(s);
    let mut from: usize = 0;
    assert(chars@.skip(0) == chars@);
    while from < chars.len() && whitespace(chars[from])
        invariant
            from <= chars.len(),
            trimmed_start(chars@) == trimmed_start(chars@.skip(from as int)),
        decreases chars.len() - from,
    {
        assert(chars@.skip(from as int).drop_first() == chars@.skip(from + 1));
        from = from + 1;
    }
    assert(trimmed_start(chars@) == chars@.skip(from as int));
    let mut to: usize = chars.len();
    assert(chars@.subrange(from as int, to as int) == chars@.skip(from as int));
    while to > from && whitespace(chars[to - 1])
        invariant
            from <= to <= chars.len(),
            trimmed(chars@) == trimmed_end(chars@.subrange(from as int, to as int)),
        decreases to,
    {
        assert(chars@.subrange(from as int, to as int).drop_last() == chars@.subrange(
            from as int,
            to - 1,
        ));
        to = to - 1;
    }
    text_between(&chars, from, to)
}

/// `s` without the run of `c` at its end.
pub fn trim_end_of(s: &str, c: char) -> (r: String)
    ensures
        r@ == trimmed_end_of(s@, c),
{
    let chars = chars_of(s);
    let mut to: usize = chars.len();
    assert(chars@.take(to as int) == chars@);
    while to > 0 && chars[to - 1] == c
        invariant
            to <= chars.len(),
            trimmed_end_of(chars@, c) == trimmed_end_of(chars@.take(to as int), c),
        decreases to,
    {
        assert(chars@.take(to as int).drop_last() == chars@.take(to - 1));
        to = to - 1;
    }
    assert(chars@.take(to as int) == chars@.subrange(0, to as int));
    text_between(&chars, 0, to)
}

// ───────────────────────────── searching ─────────────────────────────

/// `p` stands in `s` at position `i`.
pub open spec fn occurs_at(s: Seq<char>, p: Seq<char>, i: int) -> bool {
    0 <= i && i + p.len() <= s.len() && s.subrange(i, i + p.len()) == p
}

/// `s` starts with `p`.
pub open spec fn begins(s: Seq<char>, p: Seq<char>) -> bool {
    occurs_at(s, p, 0)
}

/// `s` ends with `p`.
pub open spec fn ends(s: Seq<char>, p: Seq<char>) -> bool {
    occurs_at(s, p, s.len() - p.len())
}

/// `p` stands somewhere in `s`.
pub open spec fn contains(s: Seq<char>, p: Seq<char>) -> bool {
    exists|i: int| occurs_at(s, p, i)
}

/// `i` is the last place at which `p` stands in `s`.
pub open spec fn last_at(s: Seq<char>, p: Seq<char>, i: int) -> bool {
    occurs_at(s, p, i) && forall|j: int| occurs_at(s, p, j) ==> j <= i
}

/// Whether `p` stands in `s` at position `i`.
fn matches_at(s: &Vec<char>, p: &Vec<char>, i: usize) -> (r: bool)
    ensures
        r == occurs_at(s@, p@, i as int),
{
    if p.len() > s.len() || i > s.len() - p.len() {
        return false;
    }
    for k in 0..p.len()
        invariant
            i + p.len() <= s.len(),
            forall|j: int| 0 <= j < k ==> s@[i + j] == p@[j],
    {
        if s[i + k] != p[k] {
            assert(s@.subrange(i as int, i + p.len())[k as int] != p@[k as int]);
            return false;
        }
    }
    assert(s@.subrange(i as int, i + p.len()) =~= p@);
    true
}

/// Whether `s` ends with `p`.
pub fn ends_with(s: &str, p: &str) -> (r: bool)
    ensures
        r == ends(s@, p@),
{
    let x = chars_of(s);
    let y = chars_of(p);
    if y.len() > x.len() {
        return false;
    }
    matches_at(&x, &y, x.len() - y.len())
}

/// Whether `p` stands somewhere in `s`.
pub fn holds(s: &str, p: &str) -> (r: bool)
    ensures
        r == contains(s@, p@),
{
    find_last(s, p).is_some()
}

/// The last place at which `p` stands in `s`.
pub fn find_last(s: &str, p: &str) -> (r: Option<usize>)
    ensures
        r matches Some(i) ==> last_at(s@, p@, i as int),
        r is None ==> !contains(s@, p@),
        r is Some ==> contains(s@, p@),
{
    let x = chars_of(s);
    let y = chars_of(p);
    if y.len() > x.len() {
        return None;
    }
    let mut i: usize = x.len() - y.len();
    loop
        invariant
            x@ == s@,
            y@ == p@,
            i + y.len() <= x.len(),
            forall|j: int| i < j ==> !occurs_at(s@, p@, j),
        decreases i,
    {
        if matches_at(&x, &y, i) {
            return Some(i);
        }
        if i == 0 {
            assert forall|j: int| !occurs_at(s@, p@, j) by {
                if j == 0 {
                    assert(!occurs_at(s@, p@, i as int));
                }
            }
            return None;
        }
        i = i - 1;
    }
}

/// What follows `p` in `s`, where `s` starts with `p`.
pub fn strip_prefix(s: &str, p: &str) -> (r: Option<String>)
    ensures
        r matches Some(rest) ==> begins(s@, p@) && rest@ == s@.skip(p@.len() as int),
        r is None ==> !begins(s@, p@),
{
    let x = chars_of(s);
    let y = chars_of(p);
    if matches_at(&x, &y, 0) {
        assert(x@.subrange(y@.len() as int, x@.len() as int) == s@.skip(p@.len() as int));
        Some(text_between(&x, y.len(), x.len()))
    } else {
        None
    }
}

/// What precedes `p` in `s`, where `s` ends with `p`.
pub fn strip_suffix(s: &str, p: &str) -> (r: Option<String>)
    ensures
        r matches Some(rest) ==> ends(s@, p@) && rest@ == s@.take(s@.len() - p@.len()),
        r is None ==> !ends(s@, p@),
{
    let x = chars_of(s);
    let y = chars_of(p);
    if y.len() <= x.len() && matches_at(&x, &y, x.len() - y.len()) {
        assert(x@.subrange(0, x@.len() - y@.len()) == s@.take(s@.len() - p@.len()));
        Some(text_between(&x, 0, x.len() - y.len()))
    } else {
        None
    }
}

/// `s` without the occurrences of `p` that it starts with, one after the
/// other.
pub open spec fn stripped_start(s: Seq<char>, p: Seq<char>) -> Seq<char>
    decreases s.len(),
{
    if p.len() > 0 && begins(s, p) {
        stripped_start(s.skip(p.len() as int), p)
    } else {
        s
    }
}

/// `s` without the occurrences of `p` that it starts with.
pub fn strip_start(s: &str, p: &str) -> (r: String)
    ensures
        r@ == stripped_start(s@, p@),
    decreases s@.len(),
{
    if p.is_empty() {
        return s.to_owned();
    }
    match strip_prefix(s, p) {
        Some(rest) => strip_start(rest.as_str(), p),
        None => s.to_owned(),
    }
}

/// The first place at which `c` stands in `chars`.
pub fn find_char(chars: &Vec<char>, c: char) -> (r: Option<usize>)
    ensures
        r matches Some(i) ==> i < chars@.len() && chars@[i as int] == c && !chars@.take(
            i as int,
        ).contains(c),
        r is None ==> !chars@.contains(c),
{
    for i in 0..chars.len()
        invariant
            forall|j: int| 0 <= j < i ==> chars@[j] != c,
    {
        if chars[i] == c {
            return Some(i);
        }
    }
    None
}

/// `a` stands before `b` in the order of their first different characters, a
/// text before those that it begins.
pub open spec fn precedes(a: Seq<char>, b: Seq<char>) -> bool
    decreases a.len(),
{
    if b.len() == 0 {
        false
    } else if a.len() == 0 {
        true
    } else if a[0] == b[0] {
        precedes(a.drop_first(), b.drop_first())
    } else {
        a[0] < b[0]
    }
}

/// Whether `a` stands before `b`.
pub fn is_before(a: &str, b: &str) -> (r: bool)
    ensures
        r == precedes(a@, b@),
{
    let x = chars_of(a);
    let y = chars_of(b);
    let mut i: usize = 0;
    assert(x@.skip(0) =~= x@);
    assert(y@.skip(0) =~= y@);
    while i < x.len() && i < y.len() && x[i] == y[i]
        invariant
            i <= x@.len(),
            i <= y@.len(),
            precedes(x@, y@) == precedes(x@.skip(i as int), y@.skip(i as int)),
        decreases x@.len() - i,
    {
        assert(x@.skip(i as int).drop_first() =~= x@.skip(i + 1));
        assert(y@.skip(i as int).drop_first() =~= y@.skip(i + 1));
        i = i + 1;
    }
    if i == y.len() {
        false
    } else if i == x.len() {
        true
    } else {
        x[i] < y[i]
    }
}

/// Of two different texts exactly one stands before the other.
pub proof fn lemma_precedes_total(a: Seq<char>, b: Seq<char>)
    ensures
        a != b ==> precedes(a, b) != precedes(b, a),
        a == b ==> !precedes(a, b),
    decreases a.len(),
{
    if a.len() > 0 && b.len() > 0 && a[0] == b[0] {
        lemma_precedes_total(a.drop_first(), b.drop_first());
        if a.drop_first() == b.drop_first() {
            assert(a =~= seq![a[0]] + a.drop_first());
            assert(b =~= seq![b[0]] + b.drop_first());
        }
    } else if a.len() == 0 && b.len() == 0 {
        assert(a =~= b);
    }
}

/// What stands before a text stands before those behind it.
pub proof fn lemma_precedes_chain(a: Seq<char>, b: Seq<char>, c: Seq<char>)
    requires
        precedes(a, b),
        precedes(b, c),
    ensures
        precedes(a, c),
    decreases a.len(),
{
    if a.len() > 0 && b.len() > 0 && c.len() > 0 && a[0] == b[0] && b[0] == c[0] {
        lemma_precedes_chain(a.drop_first(), b.drop_first(), c.drop_first());
    }
}

// ───────────────────────── splitting and joining ─────────────────────────

/// The pieces of `s` between the occurrences of `c`: one more than there are
/// occurrences, so never none.
pub open spec fn pieces(s: Seq<char>, c: char) -> Seq<Seq<char>>
    decreases s.len(),
{
    if s.len() == 0 {
        seq![Seq::<char>::empty()]
    } else {
        let before = pieces(s.drop_last(), c);
        if s.last() == c {
            before.push(Seq::empty())
        } else {
            before.drop_last().push(before.last().push(s.last()))
        }
    }
}

/// The maximal runs of characters in `s` that are not white space.
pub open spec fn words(s: Seq<char>) -> Seq<Seq<char>>
    decreases s.len(),
{
    if s.len() == 0 {
        Seq::empty()
    } else {
        let before = words(s.drop_last());
        if is_space(s.last()) {
            before
        } else if s.len() >= 2 && !is_space(s[s.len() - 2]) {
            before.drop_last().push(before.last().push(s.last()))
        } else {
            before.push(seq![s.last()])
        }
    }
}

/// The texts in `parts`, with `sep` between each two neighbours.
pub open spec fn joined(parts: Seq<Seq<char>>, sep: Seq<char>) -> Seq<char>
    decreases parts.len(),
{
    if parts.len() == 0 {
        Seq::empty()
    } else if parts.len() == 1 {
        parts[0]
    } else {
        joined(parts.drop_last(), sep) + sep + parts.last()
    }
}

/// The texts in `parts`, one behind the other.
pub open spec fn concatenated(parts: Seq<Seq<char>>) -> Seq<char>
    decreases parts.len(),
{
    if parts.len() == 0 {
        Seq::empty()
    } else {
        concatenated(parts.drop_last()) + parts.last()
    }
}

/// The contents of a list of strings.
pub open spec fn views(v: Seq<String>) -> Seq<Seq<char>> {
    v.map_values(|s: String| s@)
}

/// There is always a piece.
pub proof fn lemma_pieces_nonempty(s: Seq<char>, c: char)
    ensures
        pieces(s, c).len() >= 1,
    decreases s.len(),
{
    if s.len() > 0 {
        lemma_pieces_nonempty(s.drop_last(), c);
    }
}

/// No piece holds the character that parts them.
pub proof fn lemma_pieces_are_clean(s: Seq<char>, c: char)
    ensures
        pieces(s, c).len() >= 1,
        forall|i: int|
            0 <= i < pieces(s, c).len() ==> !(#[trigger] pieces(s, c)[i]).contains(c),
    decreases s.len(),
{
    if s.len() > 0 {
        lemma_pieces_are_clean(s.drop_last(), c);
        let before = pieces(s.drop_last(), c);
        let all = pieces(s, c);
        assert forall|i: int| 0 <= i < all.len() implies !(#[trigger] all[i]).contains(c) by {
            if s.last() != c && i == all.len() - 1 {
                let last = before.last();
                assert(all[i] == last.push(s.last()));
                assert forall|j: int| 0 <= j < all[i].len() implies all[i][j] != c by {
                    if j < last.len() {
                        assert(all[i][j] == last[j]);
                        assert(last.contains(last[j]));
                    }
                }
            } else if i < before.len() {
                assert(all[i] == before[i]);
            }
        }
    }
}

/// The pieces of two texts with the parting character between them are those
/// of the one and then those of the other.
pub proof fn lemma_pieces_add(a: Seq<char>, b: Seq<char>, c: char)
    ensures
        pieces(a + seq![c] + b, c) == pieces(a, c) + pieces(b, c),
    decreases b.len(),
{
    let all = a + seq![c] + b;
    lemma_pieces_nonempty(a, c);
    if b.len() == 0 {
        assert(all.drop_last() =~= a);
        assert(all.last() == c);
        assert(pieces(a, c).push(Seq::empty()) =~= pieces(a, c) + seq![Seq::<char>::empty()]);
    } else {
        lemma_pieces_nonempty(b.drop_last(), c);
        lemma_pieces_add(a, b.drop_last(), c);
        assert(all.drop_last() =~= a + seq![c] + b.drop_last());
        assert(all.last() == b.last());
        let before = pieces(b.drop_last(), c);
        let whole = pieces(a, c) + before;
        assert(whole.last() == before.last());
        assert(whole.drop_last() =~= pieces(a, c) + before.drop_last());
        assert(pieces(all, c) =~= pieces(a, c) + pieces(b, c));
    }
}

/// A text without the parting character is one piece.
pub proof fn lemma_one_piece(s: Seq<char>, c: char)
    requires
        !s.contains(c),
    ensures
        pieces(s, c) == seq![s],
    decreases s.len(),
{
    if s.len() == 0 {
        assert(s =~= Seq::<char>::empty());
    } else {
        let rest = s.drop_last();
        assert(s.contains(s.last()));
        assert forall|j: int| 0 <= j < rest.len() implies rest[j] != c by {
            assert(s.contains(s[j]));
        }
        lemma_one_piece(rest, c);
        assert(rest.push(s.last()) =~= s);
        assert(pieces(s, c) =~= seq![s]);
    }
}

/// The pieces of `s` between the occurrences of `c`.
pub fn split(s: &str, c: char) -> (r: Vec<String>)
    ensures
        views(r@) == pieces(s@, c),
        r@.len() >= 1,
{
    let chars = chars_of(s);
    let mut done: Vec<String> = Vec::new();
    let mut last = String::new();
    assert(chars@.take(0) =~= Seq::<char>::empty());
    assert(views(done@).push(last@) =~= pieces(chars@.take(0), c));
    for i in 0..chars.len()
        invariant
            chars@ == s@,
            views(done@).push(last@) == pieces(chars@.take(i as int), c),
    {
        let ghost before = pieces(chars@.take(i as int), c);
        let ghost now = chars@.take(i + 1);
        assert(now.drop_last() =~= chars@.take(i as int));
        assert(now.last() == chars@[i as int]);
        assert(before.drop_last() =~= views(done@));
        assert(before.last() == last@);
        if chars[i] == c {
            let ghost closed = last@;
            let ghost old_done = done@;
            done.push(last);
            last = String::new();
            assert(views(done@) =~= views(old_done).push(closed));
            assert(last@ =~= Seq::<char>::empty());
        } else {
            last.push(chars[i]);
        }
    }
    assert(chars@.take(chars@.len() as int) =~= s@);
    let ghost end = last@;
    let ghost old_done = done@;
    done.push(last);
    assert(views(done@) =~= views(old_done).push(end));
    done
}

/// The texts in `parts`, with `sep` between each two neighbours.
pub fn join(parts: &Vec<String>, sep: &str) -> (r: String)
    ensures
        r@ == joined(views(parts@), sep@),
{
    let mut out = String::new();
    assert(views(parts@).take(0) =~= Seq::<Seq<char>>::empty());
    for i in 0..parts.len()
        invariant
            out@ == joined(views(parts@).take(i as int), sep@),
    {
        let ghost now = views(parts@).take(i + 1);
        assert(now.drop_last() =~= views(parts@).take(i as int));
        assert(now.last() == parts@[i as int]@);
        if i > 0 {
            out.push_str(sep);
        } else {
            assert(out@ + parts@[0]@ =~= parts@[0]@);
        }
        out.push_str(parts[i].as_str());
    }
    assert(views(parts@).take(parts@.len() as int) =~= views(parts@));
    out
}

/// A list of one text.
pub fn list1(a: &str) -> (r: Vec<String>)
    ensures
        views(r@) == seq![a@],
{
    let mut v: Vec<String> = Vec::new();
    v.push(a.to_owned());
    assert(views(v@) =~= seq![a@]);
    v
}

/// A list of two texts.
pub fn list2(a: &str, b: &str) -> (r: Vec<String>)
    ensures
        views(r@) == seq![a@, b@],
{
    let mut v = list1(a);
    append(&mut v, b);
    assert(views(v@) =~= seq![a@, b@]);
    v
}

/// A list of three texts.
pub fn list3(a: &str, b: &str, c: &str) -> (r: Vec<String>)
    ensures
        views(r@) == seq![a@, b@, c@],
{
    let mut v = list2(a, b);
    append(&mut v, c);
    assert(views(v@) =~= seq![a@, b@, c@]);
    v
}

/// A list of four texts.
pub fn list4(a: &str, b: &str, c: &str, d: &str) -> (r: Vec<String>)
    ensures
        views(r@) == seq![a@, b@, c@, d@],
{
    let mut v = list3(a, b, c);
    append(&mut v, d);
    assert(views(v@) =~= seq![a@, b@, c@, d@]);
    v
}

/// A list of five texts.
pub fn list5(a: &str, b: &str, c: &str, d: &str, e: &str) -> (r: Vec<String>)
    ensures
        views(r@) == seq![a@, b@, c@, d@, e@],
{
    let mut v = list4(a, b, c, d);
    append(&mut v, e);
    assert(views(v@) =~= seq![a@, b@, c@, d@, e@]);
    v
}

/// Adds one text to a list.
pub fn append(v: &mut Vec<String>, s: &str)
    ensures
        views(final(v)@) == views(old(v)@).push(s@),
{
    v.push(s.to_owned());
    assert(views(v@) =~= views(old(v)@).push(s@));
}

/// The words of `s`, with one space between each two neighbours.
pub fn collapse(s: &str) -> (r: String)
    ensures
        r@ == joined(words(s@), seq![' ']),
{
    let chars = chars_of(s);
    let mut found: Vec<String> = Vec::new();
    let mut word = String::new();
    let mut open = false;
    assert(chars@.take(0) =~= Seq::<char>::empty());
    for i in 0..chars.len()
        invariant
            chars@ == s@,
            open <==> (i > 0 && !is_space(chars@[i - 1])),
            words(chars@.take(i as int)) == (if open {
                views(found@).push(word@)
            } else {
                views(found@)
            }),
    {
        let ghost before = words(chars@.take(i as int));
        let ghost now = chars@.take(i + 1);
        assert(now.drop_last() =~= chars@.take(i as int));
        assert(now.last() == chars@[i as int]);
        if i > 0 {
            assert(now[now.len() - 2] == chars@[i - 1]);
        }
        if whitespace(chars[i]) {
            if open {
                let ghost old_found = found@;
                let ghost end = word@;
                found.push(word);
                word = String::new();
                open = false;
                assert(views(found@) =~= views(old_found).push(end));
            }
        } else {
            if open {
                assert(before.drop_last() =~= views(found@));
                word.push(chars[i]);
            } else {
                word = String::new();
                word.push(chars[i]);
                open = true;
                assert(word@ =~= seq![chars@[i as int]]);
            }
        }
    }
    assert(chars@.take(chars@.len() as int) =~= s@);
    if open {
        let ghost old_found = found@;
        let ghost end = word@;
        found.push(word);
        assert(views(found@) =~= views(old_found).push(end));
    }
    proof {
        reveal_strlit(" ");
    }
    assert(" "@ =~= seq![' ']);
    join(&found, " ")
}

// ───────────────────────────── numerals ─────────────────────────────

/// The decimal digit of a number below ten.
pub open spec fn digit(n: nat) -> char {
    (n % 10 + 48) as char
}

/// The decimal numeral of a natural number.
pub open spec fn decimal(n: nat) -> Seq<char>
    decreases n,
{
    if n < 10 {
        seq![digit(n)]
    } else {
        decimal(n / 10).push(digit(n % 10))
    }
}

/// The decimal numeral of an integer, with a minus sign where it is negative.
pub open spec fn numeral(i: int) -> Seq<char> {
    if i < 0 {
        seq!['-'] + decimal((-i) as nat)
    } else {
        decimal(i as nat)
    }
}

/// The decimal numeral of `n`.
pub fn natural(n: u64) -> (r: String)
    ensures
        r@ == decimal(n as nat),
    decreases n,
{
    if n < 10 {
        let mut out = String::new();
        out.push(((n % 10) as u8 + 48u8) as char);
        assert(out@ =~= seq![digit(n as nat)]);
        out
    } else {
        let mut out = natural(n / 10);
        out.push(((n % 10) as u8 + 48u8) as char);
        out
    }
}

/// The decimal numeral of `n`.
fn wide_natural(n: u128) -> (r: String)
    ensures
        r@ == decimal(n as nat),
    decreases n,
{
    if n < 10 {
        let mut out = String::new();
        out.push(((n % 10) as u8 + 48u8) as char);
        assert(out@ =~= seq![digit(n as nat)]);
        out
    } else {
        let mut out = wide_natural(n / 10);
        out.push(((n % 10) as u8 + 48u8) as char);
        out
    }
}

/// The decimal numeral of `n`, with a minus sign where it is negative.
pub fn wide_integer(n: i128) -> (r: String)
    requires
        n > i128::MIN,
    ensures
        r@ == numeral(n as int),
{
    if n < 0 {
        let mut out = String::new();
        out.push('-');
        assert(out@ =~= seq!['-']);
        let digits = wide_natural((-n) as u128);
        out.push_str(digits.as_str());
        out
    } else {
        wide_natural(n as u128)
    }
}

/// The decimal numeral of `n`.
pub fn count(n: usize) -> (r: String)
    ensures
        r@ == decimal(n as nat),
{
    natural(n as u64)
}

/// The decimal numeral of `n`, with a minus sign where it is negative.
pub fn integer(n: i64) -> (r: String)
    ensures
        r@ == numeral(n as int),
{
    if n < 0 {
        let mut out = String::new();
        out.push('-');
        assert(out@ =~= seq!['-']);
        let size: u64 = (-(n as i128)) as u64;
        let digits = natural(size);
        out.push_str(digits.as_str());
        out
    } else {
        natural(n as u64)
    }
}

/// The number that these decimal digits write, where all of them are digits.
pub open spec fn digits_value(s: Seq<char>) -> Option<nat>
    decreases s.len(),
{
    if s.len() == 0 {
        Some(0)
    } else {
        match digits_value(s.drop_last()) {
            Some(n) => if '0' <= s.last() <= '9' {
                Some(n * 10 + (s.last() as nat - 48) as nat)
            } else {
                None
            },
            None => None,
        }
    }
}

/// The integer that a text writes: a sign or none, and at least one digit.
pub open spec fn integer_value(s: Seq<char>) -> Option<int> {
    if s.len() == 0 {
        None
    } else if s[0] == '-' || s[0] == '+' {
        match digits_value(s.skip(1)) {
            Some(n) => if s.len() == 1 {
                None
            } else if s[0] == '-' {
                Some(-(n as int))
            } else {
                Some(n as int)
            },
            None => None,
        }
    } else {
        match digits_value(s) {
            Some(n) => Some(n as int),
            None => None,
        }
    }
}

/// The integer that a text writes, where it is one of 64 bits.
pub open spec fn parsed_i64(s: Seq<char>) -> Option<i64> {
    match integer_value(s) {
        Some(n) => if i64::MIN <= n <= i64::MAX {
            Some(n as i64)
        } else {
            None
        },
        None => None,
    }
}

/// The number that the characters from `from` on write, cut off above at
/// 2^64, where all of them are digits.
fn read_digits(chars: &Vec<char>, from: usize) -> (r: Option<u128>)
    requires
        from <= chars@.len(),
    ensures
        match digits_value(chars@.skip(from as int)) {
            Some(n) => r matches Some(v) && (v == n || (v >= 0x1_0000_0000_0000_0000 && n
                >= 0x1_0000_0000_0000_0000)),
            None => r is None,
        },
{
    let ghost all = chars@.skip(from as int);
    let mut value: u128 = 0;
    assert(all.take(0) =~= Seq::<char>::empty());
    for i in from..chars.len()
        invariant
            from <= chars@.len(),
            all == chars@.skip(from as int),
            value <= 0x1_0000_0000_0000_0000_000,
            match digits_value(all.take(i - from)) {
                Some(n) => value == n || (value >= 0x1_0000_0000_0000_0000 && n
                    >= 0x1_0000_0000_0000_0000),
                None => false,
            },
    {
        let ghost now = all.take(i + 1 - from);
        assert(now.drop_last() =~= all.take(i - from));
        assert(now.last() == chars@[i as int]);
        let c = chars[i];
        if '0' <= c && c <= '9' {
            if value < 0x1_0000_0000_0000_0000 {
                value = value * 10 + (c as u128 - 48);
            }
        } else {
            proof {
                lemma_bad_digit(all, i + 1 - from);
            }
            return None;
        }
    }
    assert(all.take(all.len() as int) =~= all);
    Some(value)
}

proof fn lemma_bad_digit(s: Seq<char>, n: int)
    requires
        0 <= n <= s.len(),
        digits_value(s.take(n)) is None,
    ensures
        digits_value(s) is None,
    decreases s.len() - n,
{
    if n < s.len() {
        assert(s.take(n + 1).drop_last() =~= s.take(n));
        lemma_bad_digit(s, n + 1);
    } else {
        assert(s.take(n) =~= s);
    }
}

/// The integer that a text writes, where it is one of 64 bits.
pub fn parse_i64(s: &str) -> (r: Option<i64>)
    ensures
        r == parsed_i64(s@),
{
    let chars = chars_of(s);
    if chars.len() == 0 {
        return None;
    }
    let negative = chars[0] == '-';
    if negative || chars[0] == '+' {
        if chars.len() == 1 {
            return None;
        }
        match read_digits(&chars, 1) {
            Some(value) => if negative {
                if value < 0x8000_0000_0000_0000 {
                    Some(-(value as i64))
                } else if value == 0x8000_0000_0000_0000 {
                    Some(i64::MIN)
                } else {
                    None
                }
            } else if value < 0x8000_0000_0000_0000 {
                Some(value as i64)
            } else {
                None
            },
            None => None,
        }
    } else {
        assert(chars@.skip(0) =~= chars@);
        match read_digits(&chars, 0) {
            Some(value) => if value < 0x8000_0000_0000_0000 {
                Some(value as i64)
            } else {
                None
            },
            None => None,
        }
    }
}

proof fn lemma_decimal_digits(n: nat)
    ensures
        decimal(n).len() > 0,
        '0' <= decimal(n)[0] <= '9',
        digits_value(decimal(n)) == Some(n),
    decreases n,
{
    if n < 10 {
        assert(decimal(n).drop_last() =~= Seq::<char>::empty());
        assert(digits_value(decimal(n).drop_last()) == Some(0nat));
    } else {
        lemma_decimal_digits(n / 10);
        assert(decimal(n).drop_last() =~= decimal(n / 10));
        assert(decimal(n)[0] == decimal(n / 10)[0]);
    }
}

/// An integer is read back from its numeral.
pub proof fn law_numeral_read_back(i: i64)
    ensures
        parsed_i64(numeral(i as int)) == Some(i),
{
    if i < 0 {
        let n = (-(i as int)) as nat;
        lemma_decimal_digits(n);
        assert(numeral(i as int).skip(1) =~= decimal(n));
    } else {
        lemma_decimal_digits(i as nat);
    }
}

// ───────────────────────────── letter case ─────────────────────────────

/// An ASCII capital as its small letter; any other character as it is.
pub open spec fn ascii_small(c: char) -> char {
    if 'A' <= c <= 'Z' {
        (c as u32 + 32) as char
    } else {
        c
    }
}

/// Equal but for the case of ASCII letters.
pub open spec fn same_but_case(a: Seq<char>, b: Seq<char>) -> bool {
    a.map_values(|c: char| ascii_small(c)) == b.map_values(|c: char| ascii_small(c))
}

fn small(c: char) -> (r: char)
    ensures
        r == ascii_small(c),
{
    if 'A' <= c && c <= 'Z' {
        (c as u8 + 32) as char
    } else {
        c
    }
}

/// Whether two slices are equal but for the case of ASCII letters.
pub fn same_ignoring_case(a: &str, b: &str) -> (r: bool)
    ensures
        r == same_but_case(a@, b@),
{
    let x = chars_of(a);
    let y = chars_of(b);
    let ghost p = a@.map_values(|c: char| ascii_small(c));
    let ghost q = b@.map_values(|c: char| ascii_small(c));
    if x.len() != y.len() {
        assert(p.len() != q.len());
        return false;
    }
    for i in 0..x.len()
        invariant
            x.len() == y.len(),
            x@ == a@,
            y@ == b@,
            p == a@.map_values(|c: char| ascii_small(c)),
            q == b@.map_values(|c: char| ascii_small(c)),
            forall|j: int| 0 <= j < i ==> p[j] == q[j],
    {
        if small(x[i]) != small(y[i]) {
            assert(p[i as int] != q[i as int]);
            return false;
        }
    }
    assert(p =~= q);
    true
}

// ───────────────────────────── laws ─────────────────────────────

/// White space is what Unicode calls so: the controls from the tabulator to the
/// carriage return, the space and the next-line control, and the spaces and
/// separators behind ASCII. No other character is.
pub proof fn law_white_space(c: char)
    ensures
        is_space(c) <==> {
            let n = c as u32;
            ||| n == 9 || n == 10 || n == 11 || n == 12 || n == 13 || n == 32 || n == 0x85
            ||| n == 0xa0 || n == 0x1680 || n == 0x2000 || n == 0x2001 || n == 0x2002
            ||| n == 0x2003 || n == 0x2004 || n == 0x2005 || n == 0x2006 || n == 0x2007
            ||| n == 0x2008 || n == 0x2009 || n == 0x200a || n == 0x2028 || n == 0x2029
            ||| n == 0x202f || n == 0x205f || n == 0x3000
        },
{
}

proof fn lemma_trimmed_start(s: Seq<char>) -> (k: int)
    ensures
        0 <= k <= s.len(),
        trimmed_start(s) == s.skip(k),
        forall|i: int| 0 <= i < k ==> is_space(#[trigger] s[i]),
        k < s.len() ==> !is_space(s[k]),
    decreases s.len(),
{
    if s.len() > 0 && is_space(s[0]) {
        let rest = s.drop_first();
        let k = lemma_trimmed_start(rest);
        assert(rest.skip(k) =~= s.skip(k + 1));
        assert forall|i: int| 0 <= i < k + 1 implies is_space(#[trigger] s[i]) by {
            if i > 0 {
                assert(rest[i - 1] == s[i]);
            }
        }
        k + 1
    } else {
        assert(s.skip(0) =~= s);
        0
    }
}

proof fn lemma_trimmed_end(s: Seq<char>) -> (k: int)
    ensures
        0 <= k <= s.len(),
        trimmed_end(s) == s.take(k),
        forall|i: int| k <= i < s.len() ==> is_space(#[trigger] s[i]),
        k > 0 ==> !is_space(s[k - 1]),
    decreases s.len(),
{
    if s.len() > 0 && is_space(s.last()) {
        let rest = s.drop_last();
        let k = lemma_trimmed_end(rest);
        assert(rest.take(k) =~= s.take(k));
        assert forall|i: int| k <= i < s.len() implies is_space(#[trigger] s[i]) by {
            if i < rest.len() {
                assert(rest[i] == s[i]);
            }
        }
        k
    } else {
        assert(s.take(s.len() as int) =~= s);
        s.len() as int
    }
}

/// Trimming takes white space off both ends and nothing else: what is left
/// is a stretch of the text that neither starts nor ends with white space, and
/// all that was taken off is white space.
pub proof fn law_trimming_takes_the_edges(s: Seq<char>)
    ensures
        exists|from: int, to: int|
            0 <= from <= to <= s.len() && trimmed(s) == #[trigger] s.subrange(from, to) && (forall|
                i: int,
            |
                0 <= i < from || to <= i < s.len() ==> is_space(#[trigger] s[i])),
        trimmed(s).len() > 0 ==> !is_space(trimmed(s)[0]) && !is_space(trimmed(s).last()),
{
    let from = lemma_trimmed_start(s);
    let rest = s.skip(from);
    let k = lemma_trimmed_end(rest);
    let to = from + k;
    assert(rest.take(k) =~= s.subrange(from, to));
    assert forall|i: int| 0 <= i < from || to <= i < s.len() implies is_space(#[trigger] s[i]) by {
        if to <= i {
            assert(rest[i - from] == s[i]);
        }
    }
    if k > 0 {
        assert(rest[0] == s[from]);
        assert(trimmed(s).last() == rest[k - 1]);
    }
}

/// Trimming leaves nothing exactly where there is only white space.
pub proof fn law_blank_texts_trim_to_nothing(s: Seq<char>)
    ensures
        trimmed(s).len() == 0 <==> forall|i: int| 0 <= i < s.len() ==> is_space(#[trigger] s[i]),
{
    let from = lemma_trimmed_start(s);
    let rest = s.skip(from);
    let k = lemma_trimmed_end(rest);
    if k > 0 {
        assert(!is_space(s[from]));
    } else {
        assert forall|i: int| 0 <= i < s.len() implies is_space(#[trigger] s[i]) by {
            if from <= i {
                assert(rest[i - from] == s[i]);
            }
        }
    }
}

/// A text that neither starts nor ends with white space is left as it is by
/// trimming, so trimming twice is trimming once.
pub proof fn law_trimming_is_done_once(s: Seq<char>)
    ensures
        s.len() > 0 && !is_space(s[0]) && !is_space(s.last()) ==> trimmed(s) == s,
        trimmed(trimmed(s)) == trimmed(s),
{
    law_trimming_takes_the_edges(s);
}

/// Taking a character off the end takes all of its run there, and nothing
/// else.
pub proof fn law_trimming_a_character(s: Seq<char>, c: char)
    ensures
        exists|to: int|
            0 <= to <= s.len() && trimmed_end_of(s, c) == #[trigger] s.take(to) && (forall|i: int|
                to <= i < s.len() ==> #[trigger] s[i] == c),
        trimmed_end_of(s, c).len() > 0 ==> trimmed_end_of(s, c).last() != c,
    decreases s.len(),
{
    if s.len() > 0 && s.last() == c {
        let rest = s.drop_last();
        law_trimming_a_character(rest, c);
        let to = choose|to: int|
            0 <= to <= rest.len() && trimmed_end_of(rest, c) == #[trigger] rest.take(to) && (forall|
                i: int,
            |
                to <= i < rest.len() ==> #[trigger] rest[i] == c);
        assert(rest.take(to) =~= s.take(to));
        assert forall|i: int| to <= i < s.len() implies #[trigger] s[i] == c by {
            if i < rest.len() {
                assert(rest[i] == s[i]);
            }
        }
    } else {
        assert(s.take(s.len() as int) =~= s);
    }
}

/// White space between two texts parts their words: those of the one come
/// first, then those of the other, and none is lost or joined.
pub proof fn law_white_space_parts_words(a: Seq<char>, c: char, b: Seq<char>)
    requires
        is_space(c),
    ensures
        words(a + seq![c] + b) == words(a) + words(b),
    decreases b.len(),
{
    let all = a + seq![c] + b;
    if b.len() == 0 {
        assert(all.drop_last() =~= a);
        assert(words(a) + words(b) =~= words(a));
    } else {
        let rest = b.drop_last();
        law_white_space_parts_words(a, c, rest);
        assert(all.drop_last() =~= a + seq![c] + rest);
        if b.len() >= 2 {
            assert(all[all.len() - 2] == b[b.len() - 2]);
            if !is_space(b.last()) && !is_space(b[b.len() - 2]) {
                lemma_open_word(rest);
                assert((words(a) + words(rest)).drop_last() =~= words(a) + words(rest).drop_last());
            }
        } else {
            assert(all[all.len() - 2] == c);
        }
        assert(words(all) =~= words(a) + words(b));
    }
}

proof fn lemma_open_word(s: Seq<char>)
    requires
        s.len() > 0,
        !is_space(s.last()),
    ensures
        words(s).len() > 0,
{
}

/// A text without white space is one word, and no text is none.
pub proof fn law_one_word(w: Seq<char>)
    requires
        forall|i: int| 0 <= i < w.len() ==> !is_space(#[trigger] w[i]),
    ensures
        words(w) == (if w.len() == 0 {
            Seq::<Seq<char>>::empty()
        } else {
            seq![w]
        }),
    decreases w.len(),
{
    if w.len() > 0 {
        let rest = w.drop_last();
        assert forall|i: int| 0 <= i < rest.len() implies !is_space(#[trigger] rest[i]) by {
            assert(rest[i] == w[i]);
        }
        law_one_word(rest);
        if rest.len() == 0 {
            assert(seq![w.last()] =~= w);
        } else {
            assert(w[w.len() - 2] == rest.last());
            assert(rest.push(w.last()) =~= w);
            assert(words(w) =~= seq![w]);
        }
    }
}

/// Joining two lists of texts puts the separator between what each gives.
pub proof fn law_joining_in_parts(a: Seq<Seq<char>>, b: Seq<Seq<char>>, sep: Seq<char>)
    ensures
        joined(Seq::empty(), sep) == Seq::<char>::empty(),
        a.len() == 1 ==> joined(a, sep) == a[0],
        a.len() > 0 && b.len() > 0 ==> joined(a + b, sep) == joined(a, sep) + sep + joined(b, sep),
    decreases b.len(),
{
    if a.len() > 0 && b.len() > 0 {
        let rest = b.drop_last();
        law_joining_in_parts(a, rest, sep);
        assert((a + b).drop_last() =~= a + rest);
        assert((a + b).last() == b.last());
        if rest.len() == 0 {
            assert(a + rest =~= a);
            assert(joined(a + b, sep) =~= joined(a, sep) + sep + joined(b, sep));
        } else {
            assert(joined(a + b, sep) =~= joined(a, sep) + sep + joined(b, sep));
        }
    }
}

/// Putting texts together loses none and changes none: two lists give what
/// the one gives and then what the other gives, and a text alone gives itself.
pub proof fn law_putting_together(a: Seq<Seq<char>>, b: Seq<Seq<char>>, x: Seq<char>)
    ensures
        concatenated(Seq::empty()) == Seq::<char>::empty(),
        concatenated(seq![x]) == x,
        concatenated(a + b) == concatenated(a) + concatenated(b),
    decreases b.len(),
{
    reveal_with_fuel(concatenated, 2);
    assert(seq![x].drop_last() =~= Seq::<Seq<char>>::empty());
    assert(concatenated(seq![x]) =~= x);
    if b.len() == 0 {
        assert(a + b =~= a);
        assert(concatenated(a) + concatenated(b) =~= concatenated(a));
    } else {
        law_putting_together(a, b.drop_last(), x);
        assert((a + b).drop_last() =~= a + b.drop_last());
        assert(concatenated(a + b) =~= concatenated(a) + concatenated(b));
    }
}

/// Splitting and joining undo each other.
pub proof fn law_pieces_join_again(s: Seq<char>, c: char)
    ensures
        joined(pieces(s, c), seq![c]) == s,
    decreases s.len(),
{
    let sep = seq![c];
    lemma_pieces_nonempty(s, c);
    if s.len() == 0 {
        assert(s =~= Seq::<char>::empty());
    } else {
        let rest = s.drop_last();
        lemma_pieces_nonempty(rest, c);
        law_pieces_join_again(rest, c);
        let before = pieces(rest, c);
        let now = pieces(s, c);
        if s.last() == c {
            assert(now.drop_last() =~= before);
            assert(joined(now, sep) =~= rest + sep + Seq::<char>::empty());
            assert(joined(now, sep) =~= s);
        } else {
            assert(now.drop_last() =~= before.drop_last());
            if before.len() == 1 {
                assert(joined(now, sep) =~= rest.push(s.last()));
            } else {
                assert(joined(now, sep) =~= joined(before, sep).push(s.last()));
            }
            assert(rest.push(s.last()) =~= s);
        }
    }
}

/// A number is written in decimal digits, the highest first: one digit more
/// means ten times as much and that digit.
pub proof fn law_decimal_notation(n: nat, d: nat)
    requires
        d < 10,
    ensures
        decimal(d) == seq!["0123456789"@[d as int]],
        n > 0 ==> decimal(n * 10 + d) == decimal(n).push("0123456789"@[d as int]),
        n > 0 ==> numeral(-(n as int)) == seq!['-'] + decimal(n),
        numeral(n as int) == decimal(n),
{
    reveal_strlit("0123456789");
    assert(digit(d) == "0123456789"@[d as int]);
    if n > 0 {
        assert((n * 10 + d) / 10 == n);
        assert((n * 10 + d) % 10 == d);
        assert(d % 10 == d);
    }
}

/// An integer is read with a sign or without, and from nothing but digits.
pub proof fn law_integers_are_digits(s: Seq<char>)
    ensures
        parsed_i64(s) is Some ==> s.len() > 0 && (forall|i: int|
            0 < i < s.len() ==> '0' <= #[trigger] s[i] <= '9') && (s[0] == '-' || s[0] == '+' || '0'
            <= s[0] <= '9') && (s.len() == 1 ==> '0' <= s[0] <= '9'),
{
    if parsed_i64(s) is Some {
        if s[0] == '-' || s[0] == '+' {
            lemma_all_digits(s.skip(1));
            assert forall|i: int| 0 < i < s.len() implies '0' <= #[trigger] s[i] <= '9' by {
                assert(s[i] == s.skip(1)[i - 1]);
            }
        } else {
            lemma_all_digits(s);
        }
    }
}

proof fn lemma_all_digits(s: Seq<char>)
    requires
        digits_value(s) is Some,
    ensures
        forall|i: int| 0 <= i < s.len() ==> '0' <= #[trigger] s[i] <= '9',
    decreases s.len(),
{
    if s.len() > 0 {
        let rest = s.drop_last();
        lemma_all_digits(rest);
        assert forall|i: int| 0 <= i < s.len() implies '0' <= #[trigger] s[i] <= '9' by {
            if i < rest.len() {
                assert(s[i] == rest[i]);
            }
        }
    }
}

/// A plus sign before a numeral changes nothing.
pub proof fn law_plus_signs_are_read(n: nat)
    requires
        n <= i64::MAX,
    ensures
        parsed_i64(seq!['+'] + decimal(n)) == Some(n as i64),
{
    lemma_decimal_digits(n);
    let s = seq!['+'] + decimal(n);
    assert(s.skip(1) =~= decimal(n));
}

/// Texts are ordered by the first character in which they differ, and a text
/// stands before all that it begins.
pub proof fn law_texts_are_ordered(a: Seq<char>, x: Seq<char>, y: Seq<char>)
    ensures
        x.len() > 0 && y.len() > 0 && x[0] != y[0] ==> precedes(a + x, a + y) == (x[0] < y[0]),
        precedes(a, a + x) == (x.len() > 0),
        !precedes(a + x, a),
    decreases a.len(),
{
    if a.len() == 0 {
        assert(a + x =~= x);
        assert(a + y =~= y);
    } else {
        law_texts_are_ordered(a.drop_first(), x, y);
        assert((a + x).drop_first() =~= a.drop_first() + x);
        assert((a + y).drop_first() =~= a.drop_first() + y);
    }
}

/// What a text starts with over and over comes off as a whole, and what is
/// left does not start with it.
pub proof fn law_prefixes_come_off(s: Seq<char>, p: Seq<char>)
    requires
        p.len() > 0,
    ensures
        stripped_start(p + s, p) == stripped_start(s, p),
        !(p.len() <= s.len() && s.take(p.len() as int) == p) ==> stripped_start(s, p) == s,
{
    assert((p + s).subrange(0, p.len() as int) =~= p);
    assert((p + s).skip(p.len() as int) =~= s);
    if begins(s, p) {
        assert(s.subrange(0, p.len() as int) =~= s.take(p.len() as int));
    }
}

/// The case of letters between A and Z is all that may differ.
pub proof fn law_case_is_all_that_differs(a: Seq<char>, b: Seq<char>)
    ensures
        same_but_case(a, a),
        same_but_case(a, b) <==> a.len() == b.len() && forall|i: int|
            0 <= i < a.len() ==> #[trigger] a[i] == b[i] || ('A' <= a[i] <= 'Z' && b[i] as u32
                == a[i] as u32 + 32) || ('A' <= b[i] <= 'Z' && a[i] as u32 == b[i] as u32 + 32),
{
    let p = a.map_values(|c: char| ascii_small(c));
    let q = b.map_values(|c: char| ascii_small(c));
    if same_but_case(a, b) {
        assert(p.len() == q.len());
        assert forall|i: int| 0 <= i < a.len() implies #[trigger] a[i] == b[i] || ('A' <= a[i]
            <= 'Z' && b[i] as u32 == a[i] as u32 + 32) || ('A' <= b[i] <= 'Z' && a[i] as u32
            == b[i] as u32 + 32) by {
            assert(p[i] == q[i]);
        }
    }
    if a.len() == b.len() && (forall|i: int|
        0 <= i < a.len() ==> #[trigger] a[i] == b[i] || ('A' <= a[i] <= 'Z' && b[i] as u32
            == a[i] as u32 + 32) || ('A' <= b[i] <= 'Z' && a[i] as u32 == b[i] as u32 + 32)) {
        assert forall|i: int| 0 <= i < p.len() implies p[i] == q[i] by {
            assert(a[i] == a[i]);
        }
        assert(p =~= q);
    }
}

/// An optional text says what is in it, and a list of texts what is in each of
/// them, in order.
pub proof fn law_texts_say_what_they_hold(s: String, t: &str, v: Seq<String>, i: int)
    ensures
        view_of(Some(s)) == Some(s@),
        view_of(None) is None,
        str_of(Some(t)) == Some(t@),
        str_of(None) is None,
        views(v).len() == v.len(),
        0 <= i < v.len() ==> views(v)[i] == v[i]@,
{
}

/// An optional text is dropped where it is empty, trimmed where it is there, and
/// replaced by the default exactly where it is missing.
pub proof fn law_optional_texts(s: Seq<char>, default: Seq<char>)
    ensures
        nonempty_of(None) is None,
        s.len() == 0 ==> nonempty_of(Some(s)) is None,
        s.len() > 0 ==> nonempty_of(Some(s)) == Some(s),
        trimmed_of(None) is None,
        trimmed_of(Some(s)) == Some(trimmed(s)),
        or_else(Some(s), default) == s,
        or_else(None, default) == default,
{
}

/// A text starts with what stands at its front, ends with what stands at its end,
/// and holds what stands anywhere in it, and nothing else.
pub proof fn law_parts_of_texts(a: Seq<char>, p: Seq<char>, b: Seq<char>, s: Seq<char>)
    ensures
        occurs_at(a + p + b, p, a.len() as int),
        begins(p + b, p),
        ends(a + p, p),
        contains(a + p + b, p),
        begins(s, p) <==> s.len() >= p.len() && s.take(p.len() as int) == p,
        ends(s, p) <==> s.len() >= p.len() && s.skip(s.len() - p.len()) == p,
        contains(s, p) ==> exists|i: int|
            0 <= i && i + p.len() <= s.len() && #[trigger] s.subrange(i, i + p.len()) == p,
        s.len() < p.len() ==> !contains(s, p),
{
    let all = a + p + b;
    assert(all.subrange(a.len() as int, a.len() as int + p.len()) =~= p);
    assert((p + b).subrange(0, p.len() as int) =~= p);
    assert((a + p).subrange(a.len() as int, a.len() as int + p.len()) =~= p);
    if s.len() >= p.len() {
        assert(s.subrange(0, p.len() as int) =~= s.take(p.len() as int));
        assert(s.subrange(s.len() - p.len(), s.len() - p.len() + p.len()) =~= s.skip(
            s.len() - p.len(),
        ));
    }
    if contains(s, p) {
        let i = choose|i: int| occurs_at(s, p, i);
        assert(s.subrange(i, i + p.len()) == p);
    }
}

/// The last place of a part is where it stands and behind which it does not.
pub proof fn law_last_places(s: Seq<char>, p: Seq<char>, i: int, j: int)
    requires
        last_at(s, p, i),
    ensures
        0 <= i,
        i + p.len() <= s.len(),
        s.subrange(i, i + p.len()) == p,
        i < j && j + p.len() <= s.len() ==> s.subrange(j, j + p.len()) != p,
{
    if i < j && j + p.len() <= s.len() {
        assert(!occurs_at(s, p, j));
    }
}

} // verus!
