//! A small TOON (Token-Oriented Object Notation) emitter for the forms that
//! the command line prints: key/value lines, tabular arrays, help lists and
//! long-text blocks.

use vstd::prelude::*;
use crate::text;

verus! {

// ───────────────────────────── scalars ─────────────────────────────

/// A character that ends a bare value or its line.
pub open spec fn is_delimiter(c: char) -> bool {
    c == ',' || c == '"' || c == '\n' || c == '\r' || c == '\t'
}

/// A value that would be ambiguous bare: it is empty, has white space at an
/// edge, or holds a delimiter. Spaces inside never need quotes.
pub open spec fn needs_quote(value: Seq<char>) -> bool {
    ||| value.len() == 0
    ||| text::is_space(value[0])
    ||| text::is_space(value.last())
    ||| exists|i: int| 0 <= i < value.len() && is_delimiter(#[trigger] value[i])
}

/// A character as it is written between quotes.
pub open spec fn escape(c: char) -> Seq<char> {
    if c == '\\' {
        seq!['\\', '\\']
    } else if c == '"' {
        seq!['\\', '"']
    } else if c == '\n' {
        seq!['\\', 'n']
    } else if c == '\r' {
        seq!['\\', 'r']
    } else if c == '\t' {
        seq!['\\', 't']
    } else {
        seq![c]
    }
}

/// A text as it is written between quotes.
pub open spec fn escaped(s: Seq<char>) -> Seq<char>
    decreases s.len(),
{
    if s.len() == 0 {
        Seq::empty()
    } else {
        escaped(s.drop_last()) + escape(s.last())
    }
}

/// A value between quotes.
pub open spec fn quoted(value: Seq<char>) -> Seq<char> {
    seq!['"'] + escaped(value) + seq!['"']
}

/// A value as a scalar: bare where it can be, else quoted.
pub open spec fn scalar_of(value: Seq<char>) -> Seq<char> {
    if needs_quote(value) {
        quoted(value)
    } else {
        value
    }
}

/// An optional value as a scalar, `-` where it is absent. A value that is
/// itself a lone dash is quoted, so that it is not taken for an absent one.
pub open spec fn opt_of(value: Option<Seq<char>>) -> Seq<char> {
    match value {
        Some(v) => if v == "-"@ {
            quoted(v)
        } else {
            scalar_of(v)
        },
        None => "-"@,
    }
}

fn delimiter(c: char) -> (r: bool)
    ensures
        r == is_delimiter(c),
{
    c == ',' || c == '"' || c == '\n' || c == '\r' || c == '\t'
}

/// A value as a scalar: quoted and escaped where it would be ambiguous.
pub fn scalar(value: &str) -> (r: String)
    ensures
        r@ == scalar_of(value@),
{
    let chars = text::chars_of(value);
    let mut quote = chars.len() == 0 || text::whitespace(chars[0]) || text::whitespace(
        chars[chars.len() - 1],
    );
    for i in 0..chars.len()
        invariant
            chars@ == value@,
            quote == (value@.len() == 0 || text::is_space(value@[0]) || text::is_space(
                value@.last(),
            ) || exists|j: int| 0 <= j < i && is_delimiter(#[trigger] value@[j])),
    {
        if delimiter(chars[i]) {
            assert(is_delimiter(value@[i as int]));
            quote = true;
        }
    }
    if quote {
        in_quotes(&chars)
    } else {
        value.to_owned()
    }
}

fn in_quotes(chars: &Vec<char>) -> (r: String)
    ensures
        r@ == quoted(chars@),
{
    let mut out = String::new();
    out.push('"');
    assert(chars@.take(0) =~= Seq::<char>::empty());
    assert(out@ =~= seq!['"'] + escaped(chars@.take(0)));
    for i in 0..chars.len()
        invariant
            out@ == seq!['"'] + escaped(chars@.take(i as int)),
    {
        let ghost before = escaped(chars@.take(i as int));
        assert(chars@.take(i + 1).drop_last() =~= chars@.take(i as int));
        let ch = chars[i];
        if ch == '\\' {
            out.push('\\');
            out.push('\\');
        } else if ch == '"' {
            out.push('\\');
            out.push('"');
        } else if ch == '\n' {
            out.push('\\');
            out.push('n');
        } else if ch == '\r' {
            out.push('\\');
            out.push('r');
        } else if ch == '\t' {
            out.push('\\');
            out.push('t');
        } else {
            out.push(ch);
        }
        assert(out@ =~= seq!['"'] + (before + escape(ch)));
    }
    assert(chars@.take(chars@.len() as int) =~= chars@);
    out.push('"');
    assert(out@ =~= quoted(chars@));
    out
}

/// An optional value as a scalar: `-` where it is absent, which is not how
/// any value that is there is written.
pub fn opt(value: Option<&str>) -> (r: String)
    ensures
        r@ == opt_of(text::str_of(value)),
{
    match value {
        Some(v) => if text::same(v, "-") {
            in_quotes(&text::chars_of(v))
        } else {
            scalar(v)
        },
        None => "-".to_owned(),
    }
}

// ───────────────────────────── documents ─────────────────────────────

/// Two spaces for each level of depth.
pub open spec fn indentation(depth: nat) -> Seq<char> {
    Seq::new(2 * depth, |i: int| ' ')
}

/// A document with one raw line more.
pub open spec fn line_to(doc: Seq<char>, depth: nat, line: Seq<char>) -> Seq<char> {
    doc + indentation(depth) + line + seq!['\n']
}

/// A document with one `key: value` line more.
pub open spec fn kv_to(doc: Seq<char>, depth: nat, key: Seq<char>, value: Seq<char>) -> Seq<char> {
    line_to(doc, depth, key + ": "@ + scalar_of(value))
}

/// A document with one `key:` line more.
pub open spec fn header_to(doc: Seq<char>, depth: nat, key: Seq<char>) -> Seq<char> {
    line_to(doc, depth, key + ":"@)
}

/// A document with these lines more.
pub open spec fn lines_to(doc: Seq<char>, depth: nat, lines: Seq<Seq<char>>) -> Seq<char>
    decreases lines.len(),
{
    if lines.len() == 0 {
        doc
    } else {
        line_to(lines_to(doc, depth, lines.drop_last()), depth, lines.last())
    }
}

/// Rows of cells as lines.
pub open spec fn row_lines(rows: Seq<Seq<Seq<char>>>) -> Seq<Seq<char>> {
    rows.map_values(|row: Seq<Seq<char>>| text::joined(row, ","@))
}

/// A document with a table more: its name, how many rows it has, its fields,
/// and a line for each row one level deeper.
pub open spec fn table_to(
    doc: Seq<char>,
    depth: nat,
    name: Seq<char>,
    fields: Seq<Seq<char>>,
    rows: Seq<Seq<Seq<char>>>,
) -> Seq<char> {
    let head = name + "["@ + text::decimal(rows.len()) + "]{"@ + text::joined(fields, ","@) + "}:"@;
    lines_to(line_to(doc, depth, head), depth + 1, row_lines(rows))
}

/// A document with a help list more, where there is anything to say.
pub open spec fn help_to(doc: Seq<char>, items: Seq<Seq<char>>) -> Seq<char> {
    if items.len() == 0 {
        doc
    } else {
        lines_to(line_to(doc, 0, "help["@ + text::decimal(items.len()) + "]:"@), 1, items)
    }
}

/// A document with a long text more: its key, and each of its lines one level
/// deeper.
pub open spec fn block_to(doc: Seq<char>, depth: nat, key: Seq<char>, body: Seq<char>) -> Seq<
    char,
> {
    lines_to(header_to(doc, depth, key), depth + 1, text::pieces(body, '\n'))
}

/// The cells of a table.
pub open spec fn cells(rows: Seq<Vec<String>>) -> Seq<Seq<Seq<char>>> {
    rows.map_values(|row: Vec<String>| text::views(row@))
}

/// A TOON document while it is built.
#[derive(Debug, PartialEq, Eq)]
pub struct Out {
    buf: String,
}

impl View for Out {
    type V = Seq<char>;

    closed spec fn view(&self) -> Seq<char> {
        self.buf@
    }
}

impl Out {
    /// The empty document.
    pub fn new() -> (r: Self)
        ensures
            r@ == Seq::<char>::empty(),
    {
        Out { buf: String::new() }
    }

    fn indent(&mut self, depth: usize)
        ensures
            final(self)@ == old(self)@ + indentation(depth as nat),
    {
        proof {
            reveal_strlit("  ");
        }
        assert(old(self)@ + indentation(0) =~= old(self)@);
        for i in 0..depth
            invariant
                self@ == old(self)@ + indentation(i as nat),
                "  "@ == seq![' ', ' '],
        {
            self.buf.push_str("  ");
            assert(self@ =~= old(self)@ + indentation((i + 1) as nat));
        }
    }

    /// A raw line at the given depth.
    pub fn line(&mut self, depth: usize, text: &str) -> (r: &mut Self)
        ensures
            r@ == line_to(old(self)@, depth as nat, text@),
            *final(self) == *final(r),
    {
        self.indent(depth);
        self.buf.push_str(text);
        self.buf.push('\n');
        assert(self@ =~= line_to(old(self)@, depth as nat, text@));
        self
    }

    /// `key: value`, the value as a scalar.
    pub fn kv(&mut self, depth: usize, key: &str, value: &str) -> (r: &mut Self)
        ensures
            r@ == kv_to(old(self)@, depth as nat, key@, value@),
            *final(self) == *final(r),
    {
        let line = text::cat3(key, ": ", scalar(value).as_str());
        self.line(depth, line.as_str())
    }

    /// `key:`, before a nested block.
    pub fn header(&mut self, depth: usize, key: &str) -> (r: &mut Self)
        ensures
            r@ == header_to(old(self)@, depth as nat, key@),
            *final(self) == *final(r),
    {
        let line = text::cat(key, ":");
        self.line(depth, line.as_str())
    }

    fn lines(&mut self, depth: usize, lines: &Vec<String>)
        ensures
            final(self)@ == lines_to(old(self)@, depth as nat, text::views(lines@)),
    {
        let ghost all = text::views(lines@);
        assert(all.take(0) =~= Seq::<Seq<char>>::empty());
        for i in 0..lines.len()
            invariant
                all == text::views(lines@),
                self@ == lines_to(old(self)@, depth as nat, all.take(i as int)),
        {
            assert(all.take(i + 1).drop_last() =~= all.take(i as int));
            assert(all.take(i + 1).last() == lines@[i as int]@);
            self.line(depth, lines[i].as_str());
        }
        assert(all.take(all.len() as int) =~= all);
    }

    /// A tabular array:
    /// ```text
    /// name[N]{f1,f2}:
    ///   a,b
    ///   c,d
    /// ```
    /// Cells are written as they are given.
    pub fn table(
        &mut self,
        depth: usize,
        name: &str,
        fields: &Vec<String>,
        rows: &Vec<Vec<String>>,
    ) -> (r: &mut Self)
        requires
            depth < usize::MAX,
        ensures
            r@ == table_to(old(self)@, depth as nat, name@, text::views(fields@), cells(rows@)),
            *final(self) == *final(r),
    {
        let mut head = text::cat4(name, "[", text::count(rows.len()).as_str(), "]{");
        head.push_str(text::join(fields, ",").as_str());
        head.push_str("}:");
        let mut lines: Vec<String> = Vec::new();
        let ghost all = row_lines(cells(rows@));
        for i in 0..rows.len()
            invariant
                all == row_lines(cells(rows@)),
                text::views(lines@) == all.take(i as int),
        {
            let ghost before = lines@;
            let line = text::join(&rows[i], ",");
            let ghost said = line@;
            lines.push(line);
            assert(text::views(lines@) =~= text::views(before).push(said));
            assert(cells(rows@)[i as int] == text::views(rows@[i as int]@));
            assert(all.take(i + 1) =~= all.take(i as int).push(said));
        }
        assert(all.take(all.len() as int) =~= all);
        self.line(depth, head.as_str());
        self.lines(depth + 1, &lines);
        self
    }

    /// A help list of complete next-step commands; nothing where there is
    /// none.
    pub fn help(&mut self, items: &Vec<String>) -> (r: &mut Self)
        ensures
            r@ == help_to(old(self)@, text::views(items@)),
            *final(self) == *final(r),
    {
        if items.len() > 0 {
            let head = text::cat3("help[", text::count(items.len()).as_str(), "]:");
            self.line(0, head.as_str());
            self.lines(1, items);
        }
        self
    }

    /// A long text below its key, each of its lines one level deeper.
    pub fn block(&mut self, depth: usize, key: &str, text: &str) -> (r: &mut Self)
        requires
            depth < usize::MAX,
        ensures
            r@ == block_to(old(self)@, depth as nat, key@, text@),
            *final(self) == *final(r),
    {
        let lines = text::split(text, '\n');
        self.header(depth, key);
        self.lines(depth + 1, &lines);
        self
    }

    /// The document's text.
    pub fn into_string(self) -> (r: String)
        ensures
            r@ == self@,
    {
        self.buf
    }
}

impl Default for Out {
    fn default() -> (r: Self)
        ensures
            r@ == Seq::<char>::empty(),
    {
        Out::new()
    }
}

// ───────────────────────────── laws ─────────────────────────────

proof fn lemma_escaped(s: Seq<char>)
    ensures
        forall|i: int|
            0 <= i < escaped(s).len() ==> #[trigger] escaped(s)[i] != '\n' && escaped(s)[i] != '\r'
                && escaped(s)[i] != '\t',
    decreases s.len(),
{
    if s.len() > 0 {
        lemma_escaped(s.drop_last());
        let before = escaped(s.drop_last());
        let all = escaped(s);
        assert forall|i: int| 0 <= i < all.len() implies #[trigger] all[i] != '\n' && all[i] != '\r'
            && all[i] != '\t' by {
            if i < before.len() {
                assert(all[i] == before[i]);
            } else {
                assert(all[i] == escape(s.last())[i - before.len()]);
            }
        }
    }
}

/// A scalar never breaks its line, whatever the value holds.
pub proof fn law_scalars_keep_to_their_line(value: Seq<char>)
    ensures
        forall|i: int|
            0 <= i < scalar_of(value).len() ==> #[trigger] scalar_of(value)[i] != '\n' && scalar_of(
                value,
            )[i] != '\r' && scalar_of(value)[i] != '\t',
{
    let all = scalar_of(value);
    lemma_escaped(value);
    assert forall|i: int| 0 <= i < all.len() implies #[trigger] all[i] != '\n' && all[i] != '\r'
        && all[i] != '\t' by {
        if needs_quote(value) {
            if 0 < i < all.len() - 1 {
                assert(all[i] == escaped(value)[i - 1]);
            }
        } else {
            assert(!is_delimiter(value[i]));
        }
    }
}

proof fn lemma_escaped_first(s: Seq<char>)
    requires
        s.len() > 0,
    ensures
        escaped(s) == escape(s[0]) + escaped(s.drop_first()),
    decreases s.len(),
{
    if s.len() == 1 {
        assert(s.drop_last() =~= Seq::<char>::empty());
        assert(s.drop_first() =~= Seq::<char>::empty());
        assert(escaped(s) =~= escape(s[0]) + escaped(s.drop_first()));
    } else {
        lemma_escaped_first(s.drop_last());
        assert(s.drop_last().drop_first() =~= s.drop_first().drop_last());
        assert(s.drop_last()[0] == s[0]);
        assert(escaped(s) =~= escape(s[0]) + (escaped(s.drop_first().drop_last()) + escape(
            s.last(),
        )));
    }
}

proof fn lemma_escaped_injective(a: Seq<char>, b: Seq<char>)
    requires
        escaped(a) == escaped(b),
    ensures
        a == b,
    decreases a.len(),
{
    if a.len() == 0 {
        if b.len() > 0 {
            lemma_escaped_first(b);
            assert(escaped(b).len() > 0);
        }
        assert(a =~= b);
    } else {
        lemma_escaped_first(a);
        if b.len() == 0 {
            assert(escaped(a).len() > 0);
        } else {
            lemma_escaped_first(b);
            let ea = escape(a[0]);
            let eb = escape(b[0]);
            let ra = escaped(a.drop_first());
            let rb = escaped(b.drop_first());
            assert((ea + ra)[0] == ea[0]);
            assert((eb + rb)[0] == eb[0]);
            if ea.len() == 2 {
                assert((ea + ra)[1] == ea[1]);
            }
            if eb.len() == 2 {
                assert((eb + rb)[1] == eb[1]);
            }
            assert(ea.len() == eb.len());
            assert(a[0] == b[0]);
            assert(ra =~= (ea + ra).skip(ea.len() as int));
            assert(rb =~= (eb + rb).skip(eb.len() as int));
            lemma_escaped_injective(a.drop_first(), b.drop_first());
            assert(a =~= seq![a[0]] + a.drop_first());
            assert(b =~= seq![b[0]] + b.drop_first());
        }
    }
}

/// Different values are different scalars: what is printed can be read back.
pub proof fn law_scalars_are_unambiguous(a: Seq<char>, b: Seq<char>)
    requires
        scalar_of(a) == scalar_of(b),
    ensures
        a == b,
{
    let sa = scalar_of(a);
    let sb = scalar_of(b);
    if needs_quote(a) {
        assert(sa[0] == '"');
        if !needs_quote(b) {
            assert(is_delimiter(b[0]));
        }
        assert(escaped(a) =~= sa.subrange(1, sa.len() - 1));
        assert(escaped(b) =~= sb.subrange(1, sb.len() - 1));
        lemma_escaped_injective(a, b);
    } else if needs_quote(b) {
        assert(sb[0] == '"');
        assert(is_delimiter(a[0]));
    }
}

/// An absent value is never mistaken for one that is there.
pub proof fn law_absent_values_stand_out(value: Seq<char>)
    ensures
        opt_of(Some(value)) != opt_of(None),
{
    reveal_strlit("-");
    assert("-"@[0] == '-');
    assert(quoted(value)[0] == '"');
}

/// Optional values that are written alike are the same.
pub proof fn law_optional_values_are_unambiguous(a: Option<Seq<char>>, b: Option<Seq<char>>)
    requires
        opt_of(a) == opt_of(b),
    ensures
        a == b,
{
    match (a, b) {
        (Some(x), Some(y)) => {
            if x == "-"@ {
                lemma_same_quoted(x, y);
            } else if y == "-"@ {
                lemma_same_quoted(y, x);
            } else {
                law_scalars_are_unambiguous(x, y);
            }
        },
        (Some(x), None) => law_absent_values_stand_out(x),
        (None, Some(y)) => law_absent_values_stand_out(y),
        (None, None) => {},
    }
}

proof fn lemma_same_quoted(dash: Seq<char>, other: Seq<char>)
    requires
        quoted(dash) == opt_of(Some(other)),
    ensures
        dash == other,
{
    let s = quoted(dash);
    assert(s[0] == '"');
    if other == "-"@ || needs_quote(other) {
        assert(escaped(dash) =~= s.subrange(1, s.len() - 1));
        assert(escaped(other) =~= quoted(other).subrange(1, quoted(other).len() - 1));
        lemma_escaped_injective(dash, other);
    } else {
        assert(is_delimiter(other[0]));
    }
}

/// A document only ever grows by whole lines at its end: the line, indented by
/// two spaces for each level, and a line break.
pub proof fn law_documents_grow_by_lines(
    doc: Seq<char>,
    depth: nat,
    line: Seq<char>,
    key: Seq<char>,
    value: Seq<char>,
)
    ensures
        line_to(doc, depth, line) == doc + Seq::new(2 * depth, |i: int| ' ') + line + "\n"@,
        header_to(doc, depth, key) == doc + Seq::new(2 * depth, |i: int| ' ') + key + ":\n"@,
        kv_to(doc, depth, key, value) == doc + Seq::new(2 * depth, |i: int| ' ') + key + ": "@
            + scalar_of(value) + "\n"@,
{
    reveal_strlit("\n");
    reveal_strlit(":");
    reveal_strlit(":\n");
    assert("\n"@ =~= seq!['\n']);
    assert(":\n"@ =~= ":"@ + seq!['\n']);
    assert(line_to(doc, depth, line) =~= doc + Seq::new(2 * depth, |i: int| ' ') + line + "\n"@);
    assert(header_to(doc, depth, key) =~= doc + Seq::new(2 * depth, |i: int| ' ') + key + ":\n"@);
    assert(kv_to(doc, depth, key, value) =~= doc + Seq::new(2 * depth, |i: int| ' ') + key + ": "@
        + scalar_of(value) + "\n"@);
}

/// Every line is written, once, in order and at the same depth.
pub proof fn law_every_line_is_written(doc: Seq<char>, depth: nat, lines: Seq<Seq<char>>)
    ensures
        lines_to(doc, depth, lines) == doc + text::concatenated(
            lines.map_values(
                |line: Seq<char>| Seq::new(2 * depth, |i: int| ' ') + line + seq!['\n'],
            ),
        ),
    decreases lines.len(),
{
    let f = |line: Seq<char>| Seq::new(2 * depth, |i: int| ' ') + line + seq!['\n'];
    let written = lines.map_values(f);
    if lines.len() == 0 {
        assert(doc + text::concatenated(written) =~= doc);
    } else {
        law_every_line_is_written(doc, depth, lines.drop_last());
        assert(written.drop_last() =~= lines.drop_last().map_values(f));
        assert(written.last() == f(lines.last()));
        assert(indentation(depth) =~= Seq::new(2 * depth, |i: int| ' '));
        assert(lines_to(doc, depth, lines) =~= doc + (text::concatenated(written.drop_last())
            + written.last()));
    }
}

/// A table says how many rows it has and which fields, and holds every row
/// once, in order, one level deeper, its cells parted by commas.
pub proof fn law_tables_hold_every_row(
    doc: Seq<char>,
    depth: nat,
    name: Seq<char>,
    fields: Seq<Seq<char>>,
    rows: Seq<Seq<Seq<char>>>,
)
    ensures
        table_to(doc, depth, name, fields, rows) == doc + Seq::new(2 * depth, |i: int| ' ') + name
            + "["@ + text::decimal(rows.len()) + "]{"@ + text::joined(fields, ","@) + "}:"@ + "\n"@
            + text::concatenated(
            rows.map_values(
                |row: Seq<Seq<char>>|
                    Seq::new(2 * (depth + 1), |i: int| ' ') + text::joined(row, ","@)
                        + seq!['\n'],
            ),
        ),
{
    let head = name + "["@ + text::decimal(rows.len()) + "]{"@ + text::joined(fields, ","@)
        + "}:"@;
    law_documents_grow_by_lines(doc, depth, head, head, head);
    let f = |line: Seq<char>| Seq::new(2 * (depth + 1), |i: int| ' ') + line + seq!['\n'];
    let g = |row: Seq<Seq<char>>|
        Seq::new(2 * (depth + 1), |i: int| ' ') + text::joined(row, ","@) + seq!['\n'];
    law_every_line_is_written(line_to(doc, depth, head), depth + 1, row_lines(rows));
    assert(row_lines(rows).map_values(f) =~= rows.map_values(g));
    assert(table_to(doc, depth, name, fields, rows) =~= doc + Seq::new(2 * depth, |i: int| ' ')
        + name + "["@ + text::decimal(rows.len()) + "]{"@ + text::joined(fields, ","@) + "}:"@
        + "\n"@ + text::concatenated(rows.map_values(g)));
}

/// A help list holds every hint once, in order, and nothing is said where there
/// is none.
pub proof fn law_every_hint_is_given(doc: Seq<char>, items: Seq<Seq<char>>)
    ensures
        items.len() == 0 ==> help_to(doc, items) == doc,
        items.len() > 0 ==> help_to(doc, items) == doc + "help["@ + text::decimal(items.len())
            + "]:"@ + "\n"@ + text::concatenated(
            items.map_values(|item: Seq<char>| "  "@ + item + "\n"@),
        ),
{
    reveal_strlit("  ");
    reveal_strlit("\n");
    let head = "help["@ + text::decimal(items.len()) + "]:"@;
    law_documents_grow_by_lines(doc, 0, head, head, head);
    law_every_line_is_written(line_to(doc, 0, head), 1, items);
    let f = |line: Seq<char>| Seq::new(2, |i: int| ' ') + line + seq!['\n'];
    let g = |item: Seq<char>| "  "@ + item + "\n"@;
    assert forall|i: int| 0 <= i < items.len() implies items.map_values(f)[i] == items.map_values(
        g,
    )[i] by {
        assert(f(items[i]) =~= g(items[i]));
    }
    assert(items.map_values(f) =~= items.map_values(g));
    assert(items.map_values(
        |line: Seq<char>| Seq::new(2 * 1, |i: int| ' ') + line + seq!['\n'],
    ) =~= items.map_values(g));
    assert(help_to(doc, items).len() >= 0);
    if items.len() > 0 {
        assert(help_to(doc, items) =~= doc + "help["@ + text::decimal(items.len()) + "]:"@ + "\n"@
            + text::concatenated(items.map_values(g)));
    }
}

/// A long text keeps all of its lines, each one level deeper.
pub proof fn law_blocks_keep_every_line(
    doc: Seq<char>,
    depth: nat,
    key: Seq<char>,
    body: Seq<char>,
)
    ensures
        block_to(doc, depth, key, body) == doc + Seq::new(2 * depth, |i: int| ' ') + key + ":\n"@
            + text::concatenated(
            text::pieces(body, '\n').map_values(
                |line: Seq<char>| Seq::new(2 * (depth + 1), |i: int| ' ') + line + seq!['\n'],
            ),
        ),
{
    law_documents_grow_by_lines(doc, depth, key, key, key);
    law_every_line_is_written(header_to(doc, depth, key), depth + 1, text::pieces(body, '\n'));
}

/// A value is written bare, as it is, unless it is empty, starts or ends with
/// white space, or holds a comma, a quote or a control that breaks lines.
pub proof fn law_plain_values_are_bare(value: Seq<char>)
    requires
        value.len() > 0,
        !text::is_space(value[0]),
        !text::is_space(value.last()),
        forall|i: int|
            0 <= i < value.len() ==> #[trigger] value[i] != ',' && value[i] != '"' && value[i]
                != '\n' && value[i] != '\r' && value[i] != '\t',
    ensures
        scalar_of(value) == value,
        value != "-"@ ==> opt_of(Some(value)) == value,
{
}

/// A value that could be misread stands between quotes.
pub proof fn law_unclear_values_are_quoted(value: Seq<char>)
    requires
        value.len() == 0 || text::is_space(value[0]) || text::is_space(value.last()) || exists|
            i: int,
        |
            0 <= i < value.len() && (#[trigger] value[i] == ',' || value[i] == '"' || value[i]
                == '\n' || value[i] == '\r' || value[i] == '\t'),
    ensures
        scalar_of(value)[0] == '"',
        scalar_of(value).last() == '"',
        scalar_of(value).len() >= 2 + value.len(),
{
    if exists|i: int|
        0 <= i < value.len() && (#[trigger] value[i] == ',' || value[i] == '"' || value[i] == '\n'
            || value[i] == '\r' || value[i] == '\t') {
        let i = choose|i: int|
            0 <= i < value.len() && (#[trigger] value[i] == ',' || value[i] == '"' || value[i]
                == '\n' || value[i] == '\r' || value[i] == '\t');
        assert(is_delimiter(value[i]));
    }
    lemma_escaped_len(value);
}

proof fn lemma_escaped_len(s: Seq<char>)
    ensures
        escaped(s).len() >= s.len(),
    decreases s.len(),
{
    if s.len() > 0 {
        lemma_escaped_len(s.drop_last());
    }
}

/// Between quotes, one character more is itself, but for the five that have
/// to be escaped.
pub proof fn law_escapes(s: Seq<char>, c: char)
    ensures
        escaped(Seq::empty()) == Seq::<char>::empty(),
        escaped(s.push('\\')) == escaped(s) + seq!['\\', '\\'],
        escaped(s.push('"')) == escaped(s) + seq!['\\', '"'],
        escaped(s.push('\n')) == escaped(s) + seq!['\\', 'n'],
        escaped(s.push('\r')) == escaped(s) + seq!['\\', 'r'],
        escaped(s.push('\t')) == escaped(s) + seq!['\\', 't'],
        c != '\\' && c != '"' && c != '\n' && c != '\r' && c != '\t' ==> escaped(s.push(c))
            == escaped(s).push(c),
        quoted(s) == seq!['"'] + escaped(s) + seq!['"'],
        opt_of(None) == "-"@,
{
    assert(s.push('\\').drop_last() =~= s);
    assert(s.push('"').drop_last() =~= s);
    assert(s.push('\n').drop_last() =~= s);
    assert(s.push('\r').drop_last() =~= s);
    assert(s.push('\t').drop_last() =~= s);
    assert(s.push(c).drop_last() =~= s);
    assert(escaped(s) + seq![c] =~= escaped(s).push(c));
}

/// What is added to a document does not depend on what it holds already, and
/// leaves that as it is.
pub proof fn law_documents_only_grow(
    doc: Seq<char>,
    depth: nat,
    key: Seq<char>,
    value: Seq<char>,
    fields: Seq<Seq<char>>,
    rows: Seq<Seq<Seq<char>>>,
)
    ensures
        line_to(doc, depth, value) == doc + line_to(Seq::empty(), depth, value),
        header_to(doc, depth, key) == doc + header_to(Seq::empty(), depth, key),
        kv_to(doc, depth, key, value) == doc + kv_to(Seq::empty(), depth, key, value),
        table_to(doc, depth, key, fields, rows) == doc + table_to(
            Seq::empty(),
            depth,
            key,
            fields,
            rows,
        ),
        help_to(doc, fields) == doc + help_to(Seq::empty(), fields),
        block_to(doc, depth, key, value) == doc + block_to(Seq::empty(), depth, key, value),
{
    let none = Seq::<char>::empty();
    assert(line_to(doc, depth, value) =~= doc + line_to(none, depth, value));
    assert(header_to(doc, depth, key) =~= doc + header_to(none, depth, key));
    assert(kv_to(doc, depth, key, value) =~= doc + kv_to(none, depth, key, value));
    law_tables_hold_every_row(doc, depth, key, fields, rows);
    law_tables_hold_every_row(none, depth, key, fields, rows);
    assert(table_to(doc, depth, key, fields, rows) =~= doc + table_to(
        none,
        depth,
        key,
        fields,
        rows,
    ));
    law_every_hint_is_given(doc, fields);
    law_every_hint_is_given(none, fields);
    if fields.len() == 0 {
        assert(help_to(doc, fields) =~= doc + help_to(none, fields));
    } else {
        assert(help_to(doc, fields) =~= doc + help_to(none, fields));
    }
    law_blocks_keep_every_line(doc, depth, key, value);
    law_blocks_keep_every_line(none, depth, key, value);
    assert(block_to(doc, depth, key, value) =~= doc + block_to(none, depth, key, value));
}

/// A value one level deep stands behind its key, indented by two spaces.
pub proof fn law_nested_values(doc: Seq<char>, key: Seq<char>, value: Seq<char>)
    ensures
        kv_to(doc, 1, key, value) == doc + ("  "@ + key + ": "@ + scalar_of(value) + "\n"@),
{
    reveal_strlit("  ");
    law_documents_grow_by_lines(doc, 1, key, key, value);
    assert(Seq::new(2 * 1, |i: int| ' ') =~= "  "@);
    assert(kv_to(doc, 1, key, value) =~= doc + ("  "@ + key + ": "@ + scalar_of(value) + "\n"@));
}

/// The cells of a table are the texts of its rows, in order.
pub proof fn law_cells_say_what_rows_hold(rows: Seq<Vec<String>>, i: int)
    ensures
        cells(rows).len() == rows.len(),
        0 <= i < rows.len() ==> cells(rows)[i] == text::views(rows[i]@),
{
}

} // verus!
