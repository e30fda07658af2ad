//! Highlight export: an article and its highlights as a Markdown document, or
//! as the requests that bring them to Readwise and Notion.

use vstd::prelude::*;
use crate::chunk::{
    chunked, flat, law_chunks_are_bounded, law_chunks_keep_everything, lists, split_list,
};
use crate::error::{AppError, ErrorView};
use crate::json::{
    append, fields, json_document, object1, object2, object3, parse, put, text_in, trees, Json,
    JsonTree,
};
use crate::models::Highlight;
use crate::net::{pairs, pairs2, pairs3, Body, BodyView, Method, Reply, Request, RequestView};
use crate::text;

verus! {

/// What an export needs of an article.
#[derive(Debug, Clone, PartialEq, Eq)]
pub struct ExportArticle {
    pub title: String,
    pub url: Option<String>,
    pub author: Option<String>,
    pub feed_title: String,
    pub published_at: Option<String>,
}

// ───────────────────────────── Markdown ─────────────────────────────

/// A character that starts something inline in Markdown.
pub open spec fn is_marker(c: char) -> bool {
    ||| c == '\\' || c == '`' || c == '*' || c == '_' || c == '['
    ||| c == ']' || c == '<' || c == '>' || c == '#' || c == '|'
}

/// A text with a backslash before each character that starts something.
pub open spec fn escaped(s: Seq<char>) -> Seq<char>
    decreases s.len(),
{
    if s.len() == 0 {
        Seq::empty()
    } else {
        escaped(s.drop_last()) + (if is_marker(s.last()) {
            seq!['\\', s.last()]
        } else {
            seq![s.last()]
        })
    }
}

/// A text with a backslash before each character that starts something.
pub fn escape_md(s: &str) -> (r: String)
    ensures
        r@ == escaped(s@),
{
    let chars = text::chars_of(s);
    let mut out = String::new();
    assert(chars@.take(0) =~= Seq::<char>::empty());
    for i in 0..chars.len()
        invariant
            chars@ == s@,
            out@ == escaped(chars@.take(i as int)),
    {
        assert(chars@.take(i + 1).drop_last() =~= chars@.take(i as int));
        let ghost before = out@;
        let c = chars[i];
        if c == '\\' || c == '`' || c == '*' || c == '_' || c == '[' || c == ']' || c == '<' || c
            == '>' || c == '#' || c == '|' {
            out.push('\\');
            out.push(c);
            assert(out@ =~= before + seq!['\\', c]);
        } else {
            out.push(c);
            assert(out@ =~= before + seq![c]);
        }
    }
    assert(chars@.take(chars@.len() as int) =~= chars@);
    out
}

/// Each line between a prefix and a suffix, escaped, with a line break behind
/// it.
pub open spec fn marked_lines(
    lines: Seq<Seq<char>>,
    prefix: Seq<char>,
    suffix: Seq<char>,
) -> Seq<char>
    decreases lines.len(),
{
    if lines.len() == 0 {
        Seq::empty()
    } else {
        marked_lines(lines.drop_last(), prefix, suffix) + (prefix + escaped(lines.last()) + suffix
            + seq!['\n'])
    }
}

fn mark_lines(body: &str, prefix: &str, suffix: &str) -> (r: String)
    ensures
        r@ == marked_lines(text::pieces(body@, '\n'), prefix@, suffix@),
{
    let lines = text::split(body, '\n');
    let ghost all = text::views(lines@);
    let mut out = String::new();
    assert(all.take(0) =~= Seq::<Seq<char>>::empty());
    for i in 0..lines.len()
        invariant
            all == text::views(lines@),
            out@ == marked_lines(all.take(i as int), prefix@, suffix@),
    {
        assert(all.take(i + 1).drop_last() =~= all.take(i as int));
        let ghost before = out@;
        out.push_str(prefix);
        out.push_str(escape_md(lines[i].as_str()).as_str());
        out.push_str(suffix);
        out.push('\n');
        assert(out@ =~= before + (prefix@ + escaped(lines@[i as int]@) + suffix@ + seq!['\n']));
    }
    assert(all.take(all.len() as int) =~= all);
    out
}

/// A highlight as a blockquote: every line of the quote is marked, and the
/// note, where there is one, follows in italics.
pub open spec fn blockquote(h: Highlight) -> Seq<char> {
    let quote = marked_lines(text::pieces(h.quote@, '\n'), "> "@, ""@);
    let note = text::trimmed(h.note@);
    if note.len() == 0 {
        quote
    } else {
        quote + ">\n"@ + marked_lines(text::pieces(note, '\n'), "> *"@, "*"@)
    }
}

/// A highlight as a blockquote.
pub fn highlight_block(h: &Highlight) -> (r: String)
    ensures
        r@ == blockquote(*h),
{
    let mut block = mark_lines(h.quote.as_str(), "> ", "");
    let note = text::trim(h.note.as_str());
    if !note.as_str().is_empty() {
        block.push_str(">\n");
        block.push_str(mark_lines(note.as_str(), "> *", "*").as_str());
    }
    block
}

/// A line of metadata, where there is anything to say.
pub open spec fn meta_line(label: Seq<char>, value: Option<Seq<char>>) -> Seq<char> {
    match text::nonempty_of(value) {
        Some(v) => label + v + "\n"@,
        None => Seq::empty(),
    }
}

/// An optional text, escaped.
pub open spec fn escaped_of(s: Option<Seq<char>>) -> Option<Seq<char>> {
    match text::nonempty_of(s) {
        Some(s) => Some(escaped(s)),
        None => None,
    }
}

/// Highlights as blockquotes, an empty line between each two.
pub open spec fn blockquotes(highlights: Seq<Highlight>) -> Seq<char>
    decreases highlights.len(),
{
    if highlights.len() == 0 {
        Seq::empty()
    } else if highlights.len() == 1 {
        blockquote(highlights[0])
    } else {
        blockquotes(highlights.drop_last()) + "\n"@ + blockquote(highlights.last())
    }
}

/// The head of the document of an article: its title and what is known of it.
/// The link is not escaped, so that it stays one.
pub open spec fn markdown_head(a: ExportArticle) -> Seq<char> {
    "# "@ + escaped(a.title@) + "\n\n"@ + "- **Source:** "@ + escaped(a.feed_title@) + "\n"@
        + meta_line("- **Author:** "@, escaped_of(text::view_of(a.author))) + meta_line(
        "- **Published:** "@,
        escaped_of(text::view_of(a.published_at)),
    ) + meta_line("- **Link:** "@, text::view_of(a.url)) + "\n"@ + "## Highlights\n\n"@
}

/// The document of an article and its highlights.
pub open spec fn markdown(a: ExportArticle, highlights: Seq<Highlight>) -> Seq<char> {
    markdown_head(a) + (if highlights.len() == 0 {
        "_No highlights yet._\n"@
    } else {
        blockquotes(highlights)
    })
}

proof fn lemma_escaped_nonempty(s: Seq<char>)
    ensures
        s.len() > 0 ==> escaped(s).len() > 0,
{
}

fn put_meta(doc: &mut String, label: &str, value: Option<&str>, escape: bool)
    ensures
        final(doc)@ == old(doc)@ + meta_line(
            label@,
            if escape {
                escaped_of(text::str_of(value))
            } else {
                text::str_of(value)
            },
        ),
{
    match value {
        Some(v) => {
            if !v.is_empty() {
                proof {
                    lemma_escaped_nonempty(v@);
                }
                doc.push_str(label);
                if escape {
                    doc.push_str(escape_md(v).as_str());
                } else {
                    doc.push_str(v);
                }
                doc.push_str("\n");
                assert(doc@ =~= old(doc)@ + meta_line(
                    label@,
                    if escape {
                        escaped_of(text::str_of(value))
                    } else {
                        text::str_of(value)
                    },
                ));
            } else {
                assert(doc@ =~= old(doc)@ + Seq::<char>::empty());
            }
        },
        None => {
            assert(doc@ =~= old(doc)@ + Seq::<char>::empty());
        },
    }
}

/// The Markdown document of an article and its highlights.
pub fn build_markdown(article: &ExportArticle, highlights: &Vec<Highlight>) -> (r: String)
    ensures
        r@ == markdown(*article, highlights@),
{
    let mut doc = text::cat5(
        "# ",
        escape_md(article.title.as_str()).as_str(),
        "\n\n",
        "- **Source:** ",
        escape_md(article.feed_title.as_str()).as_str(),
    );
    doc.push_str("\n");
    put_meta(&mut doc, "- **Author:** ", text::slice_of(&article.author), true);
    put_meta(&mut doc, "- **Published:** ", text::slice_of(&article.published_at), true);
    put_meta(&mut doc, "- **Link:** ", text::slice_of(&article.url), false);
    doc.push_str("\n");
    doc.push_str("## Highlights\n\n");
    let ghost head = doc@;
    assert(head == markdown_head(*article));
    if highlights.len() == 0 {
        doc.push_str("_No highlights yet._\n");
        return doc;
    }
    assert(highlights@.take(0) =~= Seq::<Highlight>::empty());
    assert(head + blockquotes(highlights@.take(0)) =~= head);
    for i in 0..highlights.len()
        invariant
            doc@ == head + blockquotes(highlights@.take(i as int)),
    {
        let ghost now = highlights@.take(i + 1);
        assert(now.drop_last() =~= highlights@.take(i as int));
        let ghost before = doc@;
        let block = highlight_block(&highlights[i]);
        if i > 0 {
            doc.push_str("\n");
            doc.push_str(block.as_str());
            assert(doc@ =~= head + (blockquotes(highlights@.take(i as int)) + "\n"@ + block@));
        } else {
            doc.push_str(block.as_str());
            assert(doc@ =~= head + block@);
            assert(now.len() == 1 && now[0] == highlights@[0]);
        }
    }
    assert(highlights@.take(highlights@.len() as int) =~= highlights@);
    doc
}

// ───────────────────────────── Readwise ─────────────────────────────

/// A field with a text, where there is anything to say.
pub open spec fn text_field(key: Seq<char>, value: Option<Seq<char>>) -> Seq<(Seq<char>, JsonTree)> {
    match text::nonempty_of(value) {
        Some(v) => seq![(key, JsonTree::Text(v))],
        None => Seq::empty(),
    }
}

/// A highlight as Readwise takes it.
pub open spec fn readwise_item(a: ExportArticle, h: Highlight) -> JsonTree {
    JsonTree::Object(
        seq![
            ("text"@, JsonTree::Text(h.quote@)),
            ("title"@, JsonTree::Text(a.title@)),
            ("source_type"@, JsonTree::Text("papr"@)),
            ("category"@, JsonTree::Text("articles"@)),
        ] + text_field("author"@, text::view_of(a.author)) + text_field(
            "source_url"@,
            text::view_of(a.url),
        ) + text_field("note"@, Some(text::trimmed(h.note@))),
    )
}

/// The highlights of an article as Readwise takes them.
pub open spec fn readwise_body(a: ExportArticle, highlights: Seq<Highlight>) -> JsonTree {
    JsonTree::Object(
        seq![
            (
                "highlights"@,
                JsonTree::List(highlights.map_values(|h: Highlight| readwise_item(a, h))),
            ),
        ],
    )
}

fn put_text(v: &mut Vec<(String, Json)>, key: &str, value: Option<&str>)
    ensures
        fields(final(v)@) == fields(old(v)@) + text_field(key@, text::str_of(value)),
{
    match value {
        Some(s) => {
            if !s.is_empty() {
                put(v, key, Json::text(s));
                assert(fields(v@) =~= fields(old(v)@) + text_field(key@, text::str_of(value)));
            } else {
                assert(fields(v@) =~= fields(old(v)@) + text_field(key@, text::str_of(value)));
            }
        },
        None => {
            assert(fields(v@) =~= fields(old(v)@) + text_field(key@, text::str_of(value)));
        },
    }
}

/// The body that brings an article's highlights to Readwise.
pub fn build_readwise_body(article: &ExportArticle, highlights: &Vec<Highlight>) -> (r: Json)
    ensures
        r@ == readwise_body(*article, highlights@),
{
    let ghost all = highlights@.map_values(|h: Highlight| readwise_item(*article, h));
    let mut items: Vec<Json> = Vec::new();
    assert(trees(items@) =~= all.take(0));
    for i in 0..highlights.len()
        invariant
            all == highlights@.map_values(|h: Highlight| readwise_item(*article, h)),
            trees(items@) == all.take(i as int),
    {
        let h = &highlights[i];
        let mut item: Vec<(String, Json)> = Vec::new();
        put(&mut item, "text", Json::text(h.quote.as_str()));
        put(&mut item, "title", Json::text(article.title.as_str()));
        put(&mut item, "source_type", Json::text("papr"));
        put(&mut item, "category", Json::text("articles"));
        assert(fields(item@) =~= seq![
            ("text"@, JsonTree::Text(h.quote@)),
            ("title"@, JsonTree::Text(article.title@)),
            ("source_type"@, JsonTree::Text("papr"@)),
            ("category"@, JsonTree::Text("articles"@)),
        ]);
        put_text(&mut item, "author", text::slice_of(&article.author));
        put_text(&mut item, "source_url", text::slice_of(&article.url));
        let note = text::trim(h.note.as_str());
        put_text(&mut item, "note", Some(note.as_str()));
        let item = Json::object(item);
        assert(item@ == all[i as int]);
        append(&mut items, item);
        assert(all.take(i + 1) =~= all.take(i as int).push(all[i as int]));
    }
    assert(all.take(all.len() as int) =~= all);
    object1("highlights", Json::list(items))
}

/// The request that brings an article's highlights to Readwise.
pub open spec fn readwise_request(
    token: Seq<char>,
    a: ExportArticle,
    highlights: Seq<Highlight>,
) -> RequestView {
    RequestView {
        method: Method::Post,
        url: "https://readwise.io/api/v2/highlights/"@,
        headers: seq![
            ("Authorization"@, "Token "@ + token),
            ("Content-Type"@, "application/json"@),
        ],
        body: BodyView::Json(readwise_body(a, highlights)),
        timeout: None,
    }
}

/// The request that brings an article's highlights to Readwise; without any
/// there is nothing to send, which is an error.
pub fn post_to_readwise(token: &str, article: &ExportArticle, highlights: &Vec<Highlight>) -> (r:
    Result<Request, AppError>)
    ensures
        if highlights@.len() == 0 {
            r matches Err(e) && e@ == ErrorView::Code("noHighlights"@)
        } else {
            r matches Ok(request) && request@ == readwise_request(token@, *article, highlights@)
        },
{
    if highlights.len() == 0 {
        return Err(AppError::code("noHighlights"));
    }
    let auth = text::cat("Token ", token);
    Ok(
        Request {
            method: Method::Post,
            url: "https://readwise.io/api/v2/highlights/".to_owned(),
            headers: pairs2(
                "Authorization",
                auth.as_str(),
                "Content-Type",
                "application/json",
            ),
            body: Body::Json(build_readwise_body(article, highlights)),
            timeout: None,
        },
    )
}

/// What an answer of one of the services comes to: its text, where it could
/// be read, or an error that names the service, the status and the text of the answer.
pub open spec fn service_outcome(service: Seq<char>, reply: Reply) -> Result<
    Option<Seq<char>>,
    ErrorView,
> {
    match reply {
        Reply::Body(s) => Ok(Some(s@)),
        Reply::Refused { status, detail, .. } => Err(
            ErrorView::Other(service + " error "@ + status@ + ": "@ + detail@),
        ),
        Reply::Failed(e) => Err(ErrorView::Network(e@)),
        Reply::Broken(e) => Ok(None),
    }
}

/// What an answer of one of the services comes to. Only the status matters:
/// the text of an accepted answer may be unreadable.
pub fn service_reply(service: &str, reply: Reply) -> (r: Result<Option<String>, AppError>)
    ensures
        service_outcome(service@, reply) == (match r {
            Ok(s) => Ok(text::view_of(s)),
            Err(e) => Err(e@),
        }),
{
    match reply {
        Reply::Body(s) => Ok(Some(s)),
        Reply::Refused { status, detail, .. } => {
            let message = text::cat5(service, " error ", status.as_str(), ": ", detail.as_str());
            Err(AppError::Other(message))
        },
        Reply::Failed(e) => Err(AppError::Network(e)),
        Reply::Broken(_) => Ok(None),
    }
}

// ───────────────────────────── Notion ─────────────────────────────

/// How many blocks Notion takes in one request.
pub const NOTION_MAX_CHILDREN: usize = 100;

/// How many characters Notion takes in one run of text.
pub const NOTION_RUN_CHARS: usize = 2000;

/// How many runs of text Notion takes in one block.
pub const NOTION_MAX_RUNS: usize = 100;

/// A run of text, as Notion takes it.
pub open spec fn run(content: Seq<char>) -> JsonTree {
    JsonTree::Object(
        seq![
            ("type"@, JsonTree::Text("text"@)),
            ("text"@, JsonTree::Object(seq![("content"@, JsonTree::Text(content))])),
        ],
    )
}

/// A run of italic text, as Notion takes it.
pub open spec fn italic_run(content: Seq<char>) -> JsonTree {
    JsonTree::Object(
        seq![
            ("type"@, JsonTree::Text("text"@)),
            ("text"@, JsonTree::Object(seq![("content"@, JsonTree::Text(content))])),
            ("annotations"@, JsonTree::Object(seq![("italic"@, JsonTree::Bool(true))])),
        ],
    )
}

/// A text in runs of at most 2000 characters.
pub open spec fn runs(s: Seq<char>) -> Seq<JsonTree> {
    chunked(s, 2000).map_values(|c: Seq<char>| run(c))
}

/// A text in italic runs of at most 2000 characters.
pub open spec fn italic_runs(s: Seq<char>) -> Seq<JsonTree> {
    chunked(s, 2000).map_values(|c: Seq<char>| italic_run(c))
}

fn run_texts(s: &str) -> (r: Vec<String>)
    ensures
        text::views(r@) == chunked(s@, 2000),
{
    let parts = split_list(text::chars_of(s), NOTION_RUN_CHARS);
    let ghost all = lists(parts@);
    let mut out: Vec<String> = Vec::new();
    for i in 0..parts.len()
        invariant
            all == lists(parts@),
            text::views(out@) == all.take(i as int),
    {
        let ghost before = out@;
        let part = text::text_between(&parts[i], 0, parts[i].len());
        assert(part@ =~= all[i as int]);
        let ghost said = part@;
        out.push(part);
        assert(text::views(out@) =~= text::views(before).push(said));
        assert(all.take(i + 1) =~= all.take(i as int).push(said));
    }
    assert(all.take(all.len() as int) =~= all);
    out
}

/// A text in runs of at most 2000 characters.
pub fn notion_rich_text(text: &str) -> (r: Vec<Json>)
    ensures
        trees(r@) == runs(text@),
{
    let parts = run_texts(text);
    let ghost all = runs(text@);
    let mut out: Vec<Json> = Vec::new();
    assert(trees(out@) =~= all.take(0));
    for i in 0..parts.len()
        invariant
            text::views(parts@) == chunked(text@, 2000),
            all == runs(text@),
            trees(out@) == all.take(i as int),
    {
        let content = object1("content", Json::text(parts[i].as_str()));
        let one = object2("type", Json::text("text"), "text", content);
        assert(text::views(parts@)[i as int] == parts@[i as int]@);
        assert(one@ == all[i as int]);
        append(&mut out, one);
        assert(all.take(i + 1) =~= all.take(i as int).push(all[i as int]));
    }
    assert(text::views(parts@).len() == parts@.len());
    assert(all.take(all.len() as int) =~= all);
    out
}

/// A text in italic runs of at most 2000 characters.
pub fn notion_italic_rich_text(text: &str) -> (r: Vec<Json>)
    ensures
        trees(r@) == italic_runs(text@),
{
    let parts = run_texts(text);
    let ghost all = italic_runs(text@);
    let mut out: Vec<Json> = Vec::new();
    assert(trees(out@) =~= all.take(0));
    for i in 0..parts.len()
        invariant
            text::views(parts@) == chunked(text@, 2000),
            all == italic_runs(text@),
            trees(out@) == all.take(i as int),
    {
        let content = object1("content", Json::text(parts[i].as_str()));
        let one = object3(
            "type",
            Json::text("text"),
            "text",
            content,
            "annotations",
            object1("italic", Json::Bool(true)),
        );
        assert(text::views(parts@)[i as int] == parts@[i as int]@);
        assert(one@ == all[i as int]);
        append(&mut out, one);
        assert(all.take(i + 1) =~= all.take(i as int).push(all[i as int]));
    }
    assert(text::views(parts@).len() == parts@.len());
    assert(all.take(all.len() as int) =~= all);
    out
}

/// A block of a type, with its content, as Notion takes it.
pub open spec fn block(block_type: Seq<char>, content: JsonTree) -> JsonTree {
    JsonTree::Object(
        seq![
            ("object"@, JsonTree::Text("block"@)),
            ("type"@, JsonTree::Text(block_type)),
            (block_type, content),
        ],
    )
}

/// A block of a type that holds these runs.
pub open spec fn text_block(block_type: Seq<char>, rich_text: Seq<JsonTree>) -> JsonTree {
    block(block_type, JsonTree::Object(seq![("rich_text"@, JsonTree::List(rich_text))]))
}

fn make_block(block_type: &str, content: Json) -> (r: Json)
    ensures
        r@ == block(block_type@, content@),
{
    object3("object", Json::text("block"), "type", Json::text(block_type), block_type, content)
}

fn make_text_block(block_type: &str, rich_text: Vec<Json>) -> (r: Json)
    ensures
        r@ == text_block(block_type@, trees(rich_text@)),
{
    make_block(block_type, object1("rich_text", Json::list(rich_text)))
}

/// Blocks of a type that hold runs, at most 100 each; one block, an empty
/// one, where there are no runs.
pub open spec fn blocks_of(block_type: Seq<char>, rich_text: Seq<JsonTree>) -> Seq<JsonTree> {
    if rich_text.len() == 0 {
        seq![text_block(block_type, Seq::empty())]
    } else {
        paragraphs_of(block_type, rich_text)
    }
}

/// Blocks of a type that hold runs, at most 100 each.
pub open spec fn paragraphs_of(block_type: Seq<char>, rich_text: Seq<JsonTree>) -> Seq<JsonTree> {
    chunked(rich_text, 100).map_values(|c: Seq<JsonTree>| text_block(block_type, c))
}

proof fn lemma_chunked_trees(v: Seq<Json>, n: nat)
    ensures
        chunked(v, n).map_values(|c: Seq<Json>| trees(c)) == chunked(trees(v), n),
    decreases v.len(),
{
    let mapped = chunked(v, n).map_values(|c: Seq<Json>| trees(c));
    if v.len() == 0 || n == 0 {
        assert(mapped =~= chunked(trees(v), n));
    } else if v.len() <= n {
        assert(mapped =~= chunked(trees(v), n));
    } else {
        lemma_chunked_trees(v.skip(n as int), n);
        assert(trees(v).take(n as int) =~= trees(v.take(n as int)));
        assert(trees(v).skip(n as int) =~= trees(v.skip(n as int)));
        assert(mapped =~= seq![trees(v.take(n as int))] + chunked(v.skip(n as int), n).map_values(
            |c: Seq<Json>| trees(c),
        ));
    }
}

fn spread_runs(block_type: &str, rich_text: Vec<Json>) -> (r: Vec<Json>)
    ensures
        trees(r@) == paragraphs_of(block_type@, trees(rich_text@)),
{
    proof {
        lemma_chunked_trees(rich_text@, 100);
    }
    let ghost all = paragraphs_of(block_type@, trees(rich_text@));
    let parts = split_list(rich_text, NOTION_MAX_RUNS);
    let ghost pieces = lists(parts@);
    let mut out: Vec<Json> = Vec::new();
    assert(trees(out@) =~= all.take(0));
    for part in it: parts
        invariant
            pieces == lists(it.seq()),
            pieces == chunked(rich_text@, 100),
            chunked(rich_text@, 100).map_values(|c: Seq<Json>| trees(c)) == chunked(
                trees(rich_text@),
                100,
            ),
            all == paragraphs_of(block_type@, trees(rich_text@)),
            trees(out@) == all.take(it.index()),
    {
        assert(pieces[it.index()] == part@);
        assert(chunked(rich_text@, 100).map_values(|c: Seq<Json>| trees(c))[it.index()] == trees(
            part@,
        ));
        let made = make_text_block(block_type, part);
        assert(made@ == all[it.index()]);
        append(&mut out, made);
        assert(all.take(it.index() + 1) =~= all.take(it.index()).push(all[it.index()]));
    }
    assert(pieces.len() == all.len());
    assert(all.take(all.len() as int) =~= all);
    out
}

/// Blocks of a type that hold these runs, each within Notion's cap.
fn notion_blocks_from_runs(block_type: &str, rich_text: Vec<Json>) -> (r: Vec<Json>)
    ensures
        trees(r@) == blocks_of(block_type@, trees(rich_text@)),
{
    assert(trees(rich_text@).len() == rich_text@.len());
    if rich_text.len() == 0 {
        assert(trees(rich_text@) =~= Seq::<JsonTree>::empty());
        let mut out: Vec<Json> = Vec::new();
        let empty = make_text_block(block_type, rich_text);
        append(&mut out, empty);
        assert(trees(out@) =~= seq![text_block(block_type@, Seq::empty())]);
        return out;
    }
    spread_runs(block_type, rich_text)
}

/// A highlight as blocks: quotes, and the note, where there is one, in italic
/// paragraphs.
pub open spec fn highlight_blocks(h: Highlight) -> Seq<JsonTree> {
    let note = text::trimmed(h.note@);
    blocks_of("quote"@, runs(h.quote@)) + (if note.len() == 0 {
        Seq::empty()
    } else {
        blocks_of("paragraph"@, italic_runs(note))
    })
}

/// The blocks of highlights.
pub open spec fn all_highlight_blocks(highlights: Seq<Highlight>) -> Seq<JsonTree>
    decreases highlights.len(),
{
    if highlights.len() == 0 {
        Seq::empty()
    } else {
        all_highlight_blocks(highlights.drop_last()) + highlight_blocks(highlights.last())
    }
}

/// The blocks of an article and its highlights: a heading, and the
/// highlights.
pub open spec fn notion_blocks(a: ExportArticle, highlights: Seq<Highlight>) -> Seq<JsonTree> {
    seq![text_block("heading_2"@, runs(a.title@))] + all_highlight_blocks(highlights)
}

proof fn lemma_trees_join(a: Seq<Json>, b: Seq<Json>)
    ensures
        trees(a + b) == trees(a) + trees(b),
{
    assert(trees(a + b) =~= trees(a) + trees(b));
}

fn extend(out: &mut Vec<Json>, more: Vec<Json>)
    ensures
        trees(final(out)@) == trees(old(out)@) + trees(more@),
{
    let mut more = more;
    proof {
        lemma_trees_join(old(out)@, more@);
    }
    out.append(&mut more);
}

/// The blocks of an article and its highlights.
pub fn notion_children(article: &ExportArticle, highlights: &Vec<Highlight>) -> (r: Vec<Json>)
    ensures
        trees(r@) == notion_blocks(*article, highlights@),
{
    let mut children: Vec<Json> = Vec::new();
    let heading = make_text_block("heading_2", notion_rich_text(article.title.as_str()));
    append(&mut children, heading);
    let ghost head = seq![text_block("heading_2"@, runs(article.title@))];
    assert(trees(children@) =~= head);
    assert(highlights@.take(0) =~= Seq::<Highlight>::empty());
    assert(head + all_highlight_blocks(highlights@.take(0)) =~= head);
    for i in 0..highlights.len()
        invariant
            trees(children@) == head + all_highlight_blocks(highlights@.take(i as int)),
    {
        assert(highlights@.take(i + 1).drop_last() =~= highlights@.take(i as int));
        let ghost before = all_highlight_blocks(highlights@.take(i as int));
        let h = &highlights[i];
        extend(
            &mut children,
            notion_blocks_from_runs("quote", notion_rich_text(h.quote.as_str())),
        );
        let note = text::trim(h.note.as_str());
        if !note.as_str().is_empty() {
            extend(
                &mut children,
                notion_blocks_from_runs("paragraph", notion_italic_rich_text(note.as_str())),
            );
        }
        assert(trees(children@) =~= head + (before + highlight_blocks(highlights@[i as int])));
    }
    assert(highlights@.take(highlights@.len() as int) =~= highlights@);
    children
}

/// A body of blocks.
pub open spec fn children_body(blocks: Seq<JsonTree>) -> JsonTree {
    JsonTree::Object(seq![("children"@, JsonTree::List(blocks))])
}

/// The body that appends an article's highlights to a Notion page.
pub fn build_notion_body(article: &ExportArticle, highlights: &Vec<Highlight>) -> (r: Json)
    ensures
        r@ == children_body(notion_blocks(*article, highlights@)),
{
    object1("children", Json::list(notion_children(article, highlights)))
}

/// The headers of a request to Notion.
pub open spec fn notion_headers(token: Seq<char>) -> Seq<(Seq<char>, Seq<char>)> {
    seq![
        ("Authorization"@, "Bearer "@ + token),
        ("Notion-Version"@, "2022-06-28"@),
        ("Content-Type"@, "application/json"@),
    ]
}

fn headers_for(token: &str) -> (r: Vec<(String, String)>)
    ensures
        pairs(r@) == notion_headers(token@),
{
    let auth = text::cat("Bearer ", token);
    pairs3(
        "Authorization",
        auth.as_str(),
        "Notion-Version",
        "2022-06-28",
        "Content-Type",
        "application/json",
    )
}

/// The request that appends blocks to a Notion block.
pub open spec fn append_request(token: Seq<char>, id: Seq<char>, blocks: Seq<JsonTree>) -> RequestView {
    RequestView {
        method: Method::Patch,
        url: "https://api.notion.com/v1/blocks/"@ + id + "/children"@,
        headers: notion_headers(token),
        body: BodyView::Json(children_body(blocks)),
        timeout: None,
    }
}

/// The requests that append blocks to a Notion block, at most 100 in each.
pub open spec fn append_requests(
    token: Seq<char>,
    id: Seq<char>,
    blocks: Seq<JsonTree>,
) -> Seq<RequestView> {
    chunked(blocks, 100).map_values(|c: Seq<JsonTree>| append_request(token, id, c))
}

/// What a list of requests says.
pub open spec fn requests(v: Seq<Request>) -> Seq<RequestView> {
    v.map_values(|r: Request| r@)
}

/// The requests that append blocks to a Notion block.
pub fn append_notion_children(token: &str, block_id: &str, children: Vec<Json>) -> (r: Vec<Request>)
    ensures
        requests(r@) == append_requests(token@, block_id@, trees(children@)),
{
    proof {
        lemma_chunked_trees(children@, 100);
    }
    let ghost all = append_requests(token@, block_id@, trees(children@));
    let parts = split_list(children, NOTION_MAX_CHILDREN);
    let ghost pieces = lists(parts@);
    let mut out: Vec<Request> = Vec::new();
    assert(requests(out@) =~= all.take(0));
    for part in it: parts
        invariant
            pieces == lists(it.seq()),
            pieces == chunked(children@, 100),
            chunked(children@, 100).map_values(|c: Seq<Json>| trees(c)) == chunked(
                trees(children@),
                100,
            ),
            all == append_requests(token@, block_id@, trees(children@)),
            requests(out@) == all.take(it.index()),
    {
        let ghost before = out@;
        assert(pieces[it.index()] == part@);
        assert(chunked(children@, 100).map_values(|c: Seq<Json>| trees(c))[it.index()] == trees(
            part@,
        ));
        let request = Request {
            method: Method::Patch,
            url: text::cat3("https://api.notion.com/v1/blocks/", block_id, "/children"),
            headers: headers_for(token),
            body: Body::Json(object1("children", Json::list(part))),
            timeout: None,
        };
        let ghost said = request@;
        assert(said == all[it.index()]);
        out.push(request);
        assert(requests(out@) =~= requests(before).push(said));
        assert(all.take(it.index() + 1) =~= all.take(it.index()).push(said));
    }
    assert(pieces.len() == all.len());
    assert(all.take(all.len() as int) =~= all);
    out
}

/// The requests that append an article's highlights to a Notion page, in
/// batches that Notion takes; without any highlight there is nothing to send,
/// which is an error.
pub fn post_to_notion(
    token: &str,
    page_id: &str,
    article: &ExportArticle,
    highlights: &Vec<Highlight>,
) -> (r: Result<Vec<Request>, AppError>)
    ensures
        if highlights@.len() == 0 {
            r matches Err(e) && e@ == ErrorView::Code("noHighlights"@)
        } else {
            r matches Ok(batches) && requests(batches@) == append_requests(
                token@,
                page_id@,
                notion_blocks(*article, highlights@),
            )
        },
{
    if highlights.len() == 0 {
        return Err(AppError::code("noHighlights"));
    }
    Ok(append_notion_children(token, page_id, notion_children(article, highlights)))
}

// ─────────────────────── a whole article as a page ───────────────────────

/// The paragraphs of a line: none of a blank one.
pub open spec fn line_blocks(line: Seq<char>) -> Seq<JsonTree> {
    paragraphs_of("paragraph"@, runs(text::trimmed(line)))
}

/// The paragraphs of lines.
pub open spec fn lines_blocks(lines: Seq<Seq<char>>) -> Seq<JsonTree>
    decreases lines.len(),
{
    if lines.len() == 0 {
        Seq::empty()
    } else {
        lines_blocks(lines.drop_last()) + line_blocks(lines.last())
    }
}

/// A plain text as paragraphs, one for each line that is not blank, or more
/// where a line is too long for one.
pub fn notion_paragraphs(text: &str) -> (r: Vec<Json>)
    ensures
        trees(r@) == lines_blocks(text::pieces(text@, '\n')),
{
    let lines = text::split(text, '\n');
    let ghost all = text::views(lines@);
    let mut blocks: Vec<Json> = Vec::new();
    assert(all.take(0) =~= Seq::<Seq<char>>::empty());
    assert(trees(blocks@) =~= Seq::<JsonTree>::empty());
    for i in 0..lines.len()
        invariant
            all == text::views(lines@),
            trees(blocks@) == lines_blocks(all.take(i as int)),
    {
        assert(all.take(i + 1).drop_last() =~= all.take(i as int));
        let line = text::trim(lines[i].as_str());
        let ghost before = trees(blocks@);
        if !line.as_str().is_empty() {
            extend(&mut blocks, spread_runs("paragraph", notion_rich_text(line.as_str())));
        } else {
            assert(runs(line@) =~= Seq::<JsonTree>::empty());
            assert(line_blocks(lines@[i as int]@) =~= Seq::<JsonTree>::empty());
            assert(before + Seq::<JsonTree>::empty() =~= before);
        }
    }
    assert(all.take(all.len() as int) =~= all);
    blocks
}

/// What is known of an article, in one line.
pub open spec fn meta_text(a: ExportArticle) -> Seq<char> {
    let parts = seq!["Source: "@ + a.feed_title@];
    let parts = match text::nonempty_of(text::view_of(a.author)) {
        Some(author) => parts.push("By "@ + author),
        None => parts,
    };
    let parts = match text::nonempty_of(text::view_of(a.published_at)) {
        Some(date) => parts.push(date),
        None => parts,
    };
    text::joined(parts, "  ·  "@)
}

fn write_meta(a: &ExportArticle) -> (r: String)
    ensures
        r@ == meta_text(*a),
{
    let source = text::cat("Source: ", a.feed_title.as_str());
    let mut parts = text::list1(source.as_str());
    match &a.author {
        Some(author) => {
            if !author.as_str().is_empty() {
                let by = text::cat("By ", author.as_str());
                text::append(&mut parts, by.as_str());
            }
        },
        None => {},
    }
    match &a.published_at {
        Some(date) => {
            if !date.as_str().is_empty() {
                text::append(&mut parts, date.as_str());
            }
        },
        None => {},
    }
    text::join(&parts, "  ·  ")
}

/// The bookmark of an article's page, where it has a URL.
pub open spec fn bookmark(url: Option<Seq<char>>) -> Seq<JsonTree> {
    match text::nonempty_of(url) {
        Some(url) => seq![
            block("bookmark"@, JsonTree::Object(seq![("url"@, JsonTree::Text(url))])),
        ],
        None => Seq::empty(),
    }
}

/// The callout of an article's page.
pub open spec fn callout(a: ExportArticle) -> JsonTree {
    block(
        "callout"@,
        JsonTree::Object(
            seq![
                ("rich_text"@, JsonTree::List(runs(meta_text(a)))),
                (
                    "icon"@,
                    JsonTree::Object(
                        seq![
                            ("type"@, JsonTree::Text("emoji"@)),
                            ("emoji"@, JsonTree::Text("📰"@)),
                        ],
                    ),
                ),
            ],
        ),
    )
}

/// The blocks of an article's page: a bookmark where it has a URL, what is
/// known of it, and its text.
pub open spec fn page_blocks(a: ExportArticle, body: Seq<char>) -> Seq<JsonTree> {
    bookmark(text::view_of(a.url)) + seq![callout(a)] + lines_blocks(text::pieces(body, '\n'))
}

/// The blocks of an article's page.
pub fn notion_page_children(article: &ExportArticle, body_text: &str) -> (r: Vec<Json>)
    ensures
        trees(r@) == page_blocks(*article, body_text@),
{
    let mut children: Vec<Json> = Vec::new();
    match &article.url {
        Some(url) => {
            if !url.as_str().is_empty() {
                let content = object1("url", Json::text(url.as_str()));
                append(&mut children, make_block("bookmark", content));
            }
        },
        None => {},
    }
    assert(trees(children@) =~= bookmark(text::view_of(article.url)));
    let rich_text = Json::list(notion_rich_text(write_meta(article).as_str()));
    let icon = object2("type", Json::text("emoji"), "emoji", Json::text("📰"));
    let content = object2("rich_text", rich_text, "icon", icon);
    append(&mut children, make_block("callout", content));
    assert(trees(children@) =~= bookmark(text::view_of(article.url)) + seq![callout(*article)]);
    extend(&mut children, notion_paragraphs(body_text));
    children
}

/// The first so many of the blocks.
pub open spec fn first_blocks(blocks: Seq<JsonTree>) -> Seq<JsonTree> {
    if blocks.len() <= 100 {
        blocks
    } else {
        blocks.take(100)
    }
}

/// The blocks behind those.
pub open spec fn other_blocks(blocks: Seq<JsonTree>) -> Seq<JsonTree> {
    if blocks.len() <= 100 {
        Seq::empty()
    } else {
        blocks.skip(100)
    }
}

/// The body that creates a page with these blocks.
pub open spec fn page_body(parent: Seq<char>, title: Seq<char>, blocks: Seq<JsonTree>) -> JsonTree {
    JsonTree::Object(
        seq![
            ("parent"@, JsonTree::Object(seq![("page_id"@, JsonTree::Text(parent))])),
            (
                "properties"@,
                JsonTree::Object(
                    seq![("title"@, JsonTree::Object(seq![("title"@, JsonTree::List(runs(title)))]))],
                ),
            ),
            ("children"@, JsonTree::List(first_blocks(blocks))),
        ],
    )
}

/// The body that creates a Notion page for an article: with as many blocks as
/// Notion takes in one request.
pub fn build_notion_page(parent_page_id: &str, article: &ExportArticle, body_text: &str) -> (r:
    Json)
    ensures
        r@ == page_body(parent_page_id@, article.title@, page_blocks(*article, body_text@)),
{
    let mut children = notion_page_children(article, body_text);
    let ghost all = trees(children@);
    assert(all.len() == children@.len());
    children.truncate(NOTION_MAX_CHILDREN);
    assert(trees(children@) =~= first_blocks(all));
    let title = object1("title", Json::list(notion_rich_text(article.title.as_str())));
    object3(
        "parent",
        object1("page_id", Json::text(parent_page_id)),
        "properties",
        object1("title", title),
        "children",
        Json::list(children),
    )
}

/// The request that creates a Notion page for an article.
pub fn post_article_to_notion(
    token: &str,
    parent_page_id: &str,
    article: &ExportArticle,
    body_text: &str,
) -> (r: Request)
    ensures
        r@ == (RequestView {
            method: Method::Post,
            url: "https://api.notion.com/v1/pages"@,
            headers: notion_headers(token@),
            body: BodyView::Json(
                page_body(parent_page_id@, article.title@, page_blocks(*article, body_text@)),
            ),
            timeout: None,
        }),
{
    Request {
        method: Method::Post,
        url: "https://api.notion.com/v1/pages".to_owned(),
        headers: headers_for(token),
        body: Body::Json(build_notion_page(parent_page_id, article, body_text)),
        timeout: None,
    }
}

/// What has to be appended to a page that was created: nothing where all
/// blocks were in the first request; else the answer has to say the page's
/// id.
pub open spec fn overflow_outcome(
    token: Seq<char>,
    blocks: Seq<JsonTree>,
    answer: Option<JsonTree>,
) -> Result<Seq<RequestView>, ErrorView> {
    let id = match answer {
        Some(v) => text_in(v.field("id"@)),
        None => None,
    };
    if blocks.len() <= 100 {
        Ok(Seq::empty())
    } else {
        match id {
            Some(id) => Ok(append_requests(token, id, other_blocks(blocks))),
            None => Err(ErrorView::Other("Notion: missing page id in create response"@)),
        }
    }
}

/// What a fallible function that gives requests came back with.
pub open spec fn requests_outcome(r: Result<Vec<Request>, AppError>) -> Result<
    Seq<RequestView>,
    ErrorView,
> {
    match r {
        Ok(v) => Ok(requests(v@)),
        Err(e) => Err(e@),
    }
}

/// The requests that append what did not fit into the first one, by the
/// document that the answer to that one is.
pub fn append_overflow(
    token: &str,
    article: &ExportArticle,
    body_text: &str,
    answer: &Option<Json>,
) -> (r: Result<Vec<Request>, AppError>)
    ensures
        requests_outcome(r) == overflow_outcome(
            token@,
            page_blocks(*article, body_text@),
            match *answer {
                Some(j) => Some(j@),
                None => None,
            },
        ),
{
    let mut children = notion_page_children(article, body_text);
    let ghost all = trees(children@);
    assert(all.len() == children@.len());
    if children.len() <= NOTION_MAX_CHILDREN {
        let none: Vec<Request> = Vec::new();
        assert(requests(none@) =~= Seq::<RequestView>::empty());
        return Ok(none);
    }
    let id = match answer {
        Some(v) => match v.field("id") {
            Some(id) => id.as_text(),
            None => None,
        },
        None => None,
    };
    match id {
        Some(id) => {
            let rest = children.split_off(NOTION_MAX_CHILDREN);
            assert(trees(rest@) =~= other_blocks(all));
            Ok(append_notion_children(token, id.as_str(), rest))
        },
        None => Err(AppError::other("Notion: missing page id in create response")),
    }
}

/// The document in the text of an answer, where there is one.
pub open spec fn answer_document(answer: Option<Seq<char>>) -> Option<JsonTree> {
    match answer {
        Some(s) => json_document(s),
        None => None,
    }
}

/// The requests that append what did not fit into the first one, by the text
/// of the answer to that one, where it could be read.
pub fn append_overflow_of(
    token: &str,
    article: &ExportArticle,
    body_text: &str,
    answer: &Option<String>,
) -> (r: Result<Vec<Request>, AppError>)
    ensures
        requests_outcome(r) == overflow_outcome(
            token@,
            page_blocks(*article, body_text@),
            answer_document(text::view_of(*answer)),
        ),
{
    let document = match answer {
        Some(s) => parse(s.as_str()),
        None => None,
    };
    append_overflow(token, article, body_text, &document)
}

// ───────────────────────────── laws ─────────────────────────────

/// Each line but an empty last one starts with the mark of a blockquote.
pub open spec fn is_quoted(s: Seq<char>) -> bool {
    let lines = text::pieces(s, '\n');
    &&& lines.last().len() == 0
    &&& forall|i: int|
        0 <= i < lines.len() - 1 ==> (#[trigger] lines[i]).len() > 0 && lines[i][0] == '>'
}

proof fn lemma_longer_line(s: Seq<char>, tail: Seq<char>)
    requires
        !tail.contains('\n'),
    ensures
        text::pieces(s + tail, '\n') == text::pieces(s, '\n').drop_last().push(
            text::pieces(s, '\n').last() + tail,
        ),
    decreases tail.len(),
{
    let lines = text::pieces(s, '\n');
    text::lemma_pieces_nonempty(s, '\n');
    if tail.len() == 0 {
        assert(s + tail =~= s);
        assert(lines.last() + tail =~= lines.last());
        assert(lines.drop_last().push(lines.last()) =~= lines);
    } else {
        let less = tail.drop_last();
        assert forall|i: int| 0 <= i < less.len() implies less[i] != '\n' by {
            assert(tail.contains(tail[i]));
        }
        assert(tail.contains(tail.last()));
        lemma_longer_line(s, less);
        assert((s + tail).drop_last() =~= s + less);
        let before = text::pieces(s + less, '\n');
        assert(before.last() == lines.last() + less);
        assert((lines.last() + less).push(tail.last()) =~= lines.last() + tail);
        assert(before.drop_last() =~= lines.drop_last());
    }
}

proof fn lemma_quoted_line(s: Seq<char>, line: Seq<char>)
    requires
        is_quoted(s),
        !line.contains('\n'),
        line.len() > 0,
        line[0] == '>',
    ensures
        is_quoted(s + (line + seq!['\n'])),
{
    let lines = text::pieces(s, '\n');
    text::lemma_pieces_nonempty(s, '\n');
    lemma_longer_line(s, line);
    let all = s + (line + seq!['\n']);
    assert(all.drop_last() =~= s + line);
    assert(lines.last() + line =~= line);
    let now = text::pieces(all, '\n');
    assert(now =~= lines.drop_last().push(line).push(Seq::empty()));
    assert forall|i: int| 0 <= i < now.len() - 1 implies (#[trigger] now[i]).len() > 0
        && now[i][0] == '>' by {
        if i < lines.len() - 1 {
            assert(now[i] == lines[i]);
        } else {
            assert(now[i] == line);
        }
    }
}

proof fn lemma_escaped_line(s: Seq<char>)
    requires
        !s.contains('\n'),
    ensures
        !escaped(s).contains('\n'),
    decreases s.len(),
{
    if s.len() > 0 {
        let less = s.drop_last();
        assert forall|i: int| 0 <= i < less.len() implies less[i] != '\n' by {
            assert(s.contains(s[i]));
        }
        assert(s.contains(s.last()));
        lemma_escaped_line(less);
        let before = escaped(less);
        assert forall|i: int| 0 <= i < escaped(s).len() implies escaped(s)[i] != '\n' by {
            if i < before.len() {
                assert(escaped(s)[i] == before[i]);
                assert(before.contains(before[i]));
            }
        }
    }
}

proof fn lemma_quoted_lines(
    s: Seq<char>,
    lines: Seq<Seq<char>>,
    prefix: Seq<char>,
    suffix: Seq<char>,
)
    requires
        is_quoted(s),
        forall|i: int| 0 <= i < lines.len() ==> !(#[trigger] lines[i]).contains('\n'),
        prefix.len() > 0,
        prefix[0] == '>',
        !prefix.contains('\n'),
        !suffix.contains('\n'),
    ensures
        is_quoted(s + marked_lines(lines, prefix, suffix)),
    decreases lines.len(),
{
    if lines.len() == 0 {
        assert(s + marked_lines(lines, prefix, suffix) =~= s);
    } else {
        let less = lines.drop_last();
        assert forall|i: int| 0 <= i < less.len() implies !(#[trigger] less[i]).contains('\n') by {
            assert(less[i] == lines[i]);
        }
        lemma_quoted_lines(s, less, prefix, suffix);
        lemma_escaped_line(lines.last());
        let text = escaped(lines.last());
        let line = prefix + text + suffix;
        assert forall|i: int| 0 <= i < line.len() implies line[i] != '\n' by {
            if i < prefix.len() {
                assert(prefix.contains(prefix[i]));
            } else if i < prefix.len() + text.len() {
                assert(text.contains(text[i - prefix.len()]));
            } else {
                assert(suffix.contains(suffix[i - prefix.len() - text.len()]));
            }
        }
        lemma_quoted_line(s + marked_lines(less, prefix, suffix), line);
        assert(s + marked_lines(lines, prefix, suffix) =~= s + marked_lines(less, prefix, suffix)
            + (line + seq!['\n']));
    }
}

/// However many lines a quote and its note have, every line of a highlight's
/// block keeps the mark of a blockquote.
pub proof fn law_every_quoted_line_is_marked(h: Highlight)
    ensures
        is_quoted(blockquote(h)),
{
    reveal_strlit("> ");
    reveal_strlit("");
    reveal_strlit(">\n");
    reveal_strlit("> *");
    reveal_strlit("*");
    let empty = Seq::<char>::empty();
    assert(is_quoted(empty));
    text::lemma_pieces_are_clean(h.quote@, '\n');
    let quote = marked_lines(text::pieces(h.quote@, '\n'), "> "@, ""@);
    lemma_quoted_lines(empty, text::pieces(h.quote@, '\n'), "> "@, ""@);
    assert(empty + quote =~= quote);
    let note = text::trimmed(h.note@);
    if note.len() > 0 {
        lemma_quoted_line(quote, seq!['>']);
        assert(">\n"@ =~= seq!['>'] + seq!['\n']);
        text::lemma_pieces_are_clean(note, '\n');
        lemma_quoted_lines(quote + ">\n"@, text::pieces(note, '\n'), "> *"@, "*"@);
    }
}

/// What an escaped text says: each character behind a backslash, and each
/// other one, stands for itself.
pub open spec fn unescaped(s: Seq<char>) -> Seq<char>
    decreases s.len(),
{
    if s.len() == 0 {
        Seq::empty()
    } else if s[0] == '\\' && s.len() >= 2 {
        seq![s[1]] + unescaped(s.skip(2))
    } else {
        seq![s[0]] + unescaped(s.drop_first())
    }
}

proof fn lemma_unescaped_add(a: Seq<char>, b: Seq<char>)
    ensures
        unescaped(escaped(a) + b) == a + unescaped(b),
    decreases a.len(),
{
    if a.len() == 0 {
        assert(escaped(a) + b =~= b);
        assert(a + unescaped(b) =~= unescaped(b));
    } else {
        let less = a.drop_last();
        let c = a.last();
        if is_marker(c) {
            let tail = seq!['\\', c] + b;
            assert(escaped(a) + b =~= escaped(less) + tail);
            lemma_unescaped_add(less, tail);
            assert(tail.skip(2) =~= b);
        } else {
            let tail = seq![c] + b;
            assert(escaped(a) + b =~= escaped(less) + tail);
            lemma_unescaped_add(less, tail);
            assert(tail.drop_first() =~= b);
        }
        assert(less + (seq![c] + unescaped(b)) =~= a + unescaped(b));
    }
}

/// Escaping loses nothing: read as Markdown, an escaped text says what the
/// text said.
pub proof fn law_escaping_keeps_the_text(s: Seq<char>)
    ensures
        unescaped(escaped(s)) == s,
{
    let none = Seq::<char>::empty();
    lemma_unescaped_add(s, none);
    assert(escaped(s) + none =~= escaped(s));
    assert(s + unescaped(none) =~= s);
}

/// No run is longer than Notion takes or empty, and the runs one behind the
/// other are the text.
pub proof fn law_runs_carry_the_text(s: Seq<char>)
    ensures
        forall|i: int| 0 <= i < chunked(s, 2000).len() ==> 0 < (#[trigger] chunked(s, 2000)[i]).len()
            <= 2000,
        flat(chunked(s, 2000)) == s,
        runs(s).len() == chunked(s, 2000).len(),
        italic_runs(s).len() == chunked(s, 2000).len(),
{
    law_chunks_are_bounded(s, 2000);
    law_chunks_keep_everything(s, 2000);
}

/// However long a quote, a note or a line is, no block of it holds more runs
/// than Notion takes, and its blocks hold all its runs in order.
pub proof fn law_blocks_carry_the_runs(block_type: Seq<char>, rich_text: Seq<JsonTree>)
    ensures
        forall|i: int|
            0 <= i < chunked(rich_text, 100).len() ==> 0 < (#[trigger] chunked(
                rich_text,
                100,
            )[i]).len() <= 100,
        flat(chunked(rich_text, 100)) == rich_text,
        paragraphs_of(block_type, rich_text).len() == chunked(rich_text, 100).len(),
        blocks_of(block_type, rich_text).len() >= 1,
{
    law_chunks_are_bounded(rich_text, 100);
    law_chunks_keep_everything(rich_text, 100);
}

/// No request appends more blocks than Notion takes, and the requests append
/// all blocks in order.
pub proof fn law_requests_carry_the_blocks(token: Seq<char>, id: Seq<char>, blocks: Seq<JsonTree>)
    ensures
        forall|i: int|
            0 <= i < append_requests(token, id, blocks).len() ==> #[trigger] append_requests(
                token,
                id,
                blocks,
            )[i] == append_request(token, id, chunked(blocks, 100)[i]) && 0 < chunked(
                blocks,
                100,
            )[i].len() <= 100,
        flat(chunked(blocks, 100)) == blocks,
{
    law_chunks_are_bounded(blocks, 100);
    law_chunks_keep_everything(blocks, 100);
}

/// The request that creates a page carries the first blocks, as many as
/// Notion takes, and the requests behind it carry exactly the others.
pub proof fn law_page_loses_no_blocks(blocks: Seq<JsonTree>)
    ensures
        first_blocks(blocks).len() <= 100,
        first_blocks(blocks) + flat(chunked(other_blocks(blocks), 100)) == blocks,
{
    law_chunks_keep_everything(other_blocks(blocks), 100);
    assert(first_blocks(blocks) + other_blocks(blocks) =~= blocks);
}

/// Every highlight is sent to Readwise, once and in order: the list in the
/// body has as many entries as there are highlights, and each of them starts
/// with the quote of its own highlight, names the article, and ends with the
/// highlight's note where that is not blank.
pub proof fn law_every_highlight_is_sent(a: ExportArticle, highlights: Seq<Highlight>, i: int)
    requires
        0 <= i < highlights.len(),
    ensures
        readwise_body(a, highlights) matches JsonTree::Object(body) && body.len() == 1 && body[0].0
            == "highlights"@ && (body[0].1 matches JsonTree::List(items) && items.len()
            == highlights.len() && (items[i] matches JsonTree::Object(entry) && entry.len() >= 4
            && entry[0] == ("text"@, JsonTree::Text(highlights[i].quote@)) && entry[1] == (
            "title"@,
            JsonTree::Text(a.title@),
        ) && entry[2] == ("source_type"@, JsonTree::Text("papr"@)) && entry[3] == (
            "category"@,
            JsonTree::Text("articles"@),
        ) && (text::trimmed(highlights[i].note@).len() > 0 ==> entry.last() == (
            "note"@,
            JsonTree::Text(text::trimmed(highlights[i].note@)),
        )))),
{
}

/// The fields of an entry for Readwise: the author and the URL of the article
/// where they are known, and a note where there is one, and no others.
pub proof fn law_readwise_entries_are_complete(a: ExportArticle, h: Highlight)
    ensures
        readwise_item(a, h) matches JsonTree::Object(entry) && ({
            let author: int = if a.author matches Some(s) && s@.len() > 0 {
                1
            } else {
                0
            };
            let url: int = if a.url matches Some(s) && s@.len() > 0 {
                1
            } else {
                0
            };
            let note: int = if text::trimmed(h.note@).len() > 0 {
                1
            } else {
                0
            };
            &&& entry.len() == 4 + author + url + note
            &&& author == 1 ==> entry[4] == ("author"@, JsonTree::Text(a.author->0@))
            &&& url == 1 ==> entry[4 + author] == ("source_url"@, JsonTree::Text(a.url->0@))
            &&& note == 1 ==> entry[4 + author + url] == (
                "note"@,
                JsonTree::Text(text::trimmed(h.note@)),
            )
        }),
{
}

/// In Markdown a backslash stands before each character that would start
/// something, and before no other.
pub proof fn law_markers_are_escaped(s: Seq<char>, c: char)
    ensures
        escaped(Seq::empty()) == Seq::<char>::empty(),
        c == '\\' || c == '`' || c == '*' || c == '_' || c == '[' || c == ']' || c == '<' || c
            == '>' || c == '#' || c == '|' ==> escaped(s.push(c)) == escaped(s) + seq!['\\', c],
        !(c == '\\' || c == '`' || c == '*' || c == '_' || c == '[' || c == ']' || c == '<' || c
            == '>' || c == '#' || c == '|') ==> escaped(s.push(c)) == escaped(s).push(c),
{
    assert(s.push(c).drop_last() =~= s);
    assert(escaped(s) + seq![c] =~= escaped(s).push(c));
}

proof fn lemma_marked_lines(lines: Seq<Seq<char>>, prefix: Seq<char>, suffix: Seq<char>)
    ensures
        marked_lines(lines, prefix, suffix) == text::concatenated(
            lines.map_values(|line: Seq<char>| prefix + escaped(line) + suffix + seq!['\n']),
        ),
    decreases lines.len(),
{
    let f = |line: Seq<char>| prefix + escaped(line) + suffix + seq!['\n'];
    if lines.len() > 0 {
        lemma_marked_lines(lines.drop_last(), prefix, suffix);
        assert(lines.map_values(f).drop_last() =~= lines.drop_last().map_values(f));
    }
}

/// A highlight keeps every line of its quote, in order and as a quote, and
/// every line of its note, where there is one, in italics behind an empty line.
pub proof fn law_highlights_keep_every_line(h: Highlight)
    ensures
        ({
            let quote = text::concatenated(
                text::pieces(h.quote@, '\n').map_values(
                    |line: Seq<char>| "> "@ + escaped(line) + "\n"@,
                ),
            );
            let note = text::trimmed(h.note@);
            &&& note.len() == 0 ==> blockquote(h) == quote
            &&& note.len() > 0 ==> blockquote(h) == quote + ">\n"@ + text::concatenated(
                text::pieces(note, '\n').map_values(
                    |line: Seq<char>| "> *"@ + escaped(line) + "*\n"@,
                ),
            )
        }),
{
    reveal_strlit("");
    reveal_strlit("\n");
    reveal_strlit("*");
    reveal_strlit("*\n");
    assert("*\n"@ =~= "*"@ + seq!['\n']);
    assert("\n"@ =~= seq!['\n']);
    let note = text::trimmed(h.note@);
    let a = text::pieces(h.quote@, '\n');
    let b = text::pieces(note, '\n');
    lemma_marked_lines(a, "> "@, ""@);
    lemma_marked_lines(b, "> *"@, "*"@);
    let f = |line: Seq<char>| "> "@ + escaped(line) + ""@ + seq!['\n'];
    let g = |line: Seq<char>| "> "@ + escaped(line) + "\n"@;
    assert forall|i: int| 0 <= i < a.len() implies a.map_values(f)[i] == a.map_values(g)[i] by {
        assert(f(a[i]) =~= g(a[i]));
    }
    assert(a.map_values(f) =~= a.map_values(g));
    let p = |line: Seq<char>| "> *"@ + escaped(line) + "*"@ + seq!['\n'];
    let q = |line: Seq<char>| "> *"@ + escaped(line) + "*\n"@;
    assert forall|i: int| 0 <= i < b.len() implies b.map_values(p)[i] == b.map_values(q)[i] by {
        assert(p(b[i]) =~= q(b[i]));
    }
    assert(b.map_values(p) =~= b.map_values(q));
}

/// A document holds every highlight, in order, an empty line between each two:
/// one more is added at its end.
pub proof fn law_documents_hold_every_highlight(
    a: ExportArticle,
    highlights: Seq<Highlight>,
    h: Highlight,
)
    ensures
        markdown(a, Seq::empty()) == markdown_head(a) + "_No highlights yet._\n"@,
        markdown(a, seq![h]) == markdown_head(a) + blockquote(h),
        highlights.len() > 0 ==> markdown(a, highlights.push(h)) == markdown(a, highlights) + "\n"@
            + blockquote(h),
{
    assert(highlights.push(h).drop_last() =~= highlights);
    if highlights.len() > 0 {
        assert(markdown(a, highlights.push(h)) =~= markdown(a, highlights) + "\n"@ + blockquote(h));
    }
}

/// A document starts with the article's title and source, and says who wrote it,
/// when it was published and where it is exactly where that is known.
pub proof fn law_documents_say_what_they_are_of(a: ExportArticle)
    ensures
        markdown_head(a) == "# "@ + escaped(a.title@) + "\n\n"@ + "- **Source:** "@ + escaped(
            a.feed_title@,
        ) + "\n"@ + (if a.author matches Some(s) && s@.len() > 0 {
            "- **Author:** "@ + escaped(a.author->0@) + "\n"@
        } else {
            Seq::empty()
        }) + (if a.published_at matches Some(s) && s@.len() > 0 {
            "- **Published:** "@ + escaped(a.published_at->0@) + "\n"@
        } else {
            Seq::empty()
        }) + (if a.url matches Some(s) && s@.len() > 0 {
            "- **Link:** "@ + a.url->0@ + "\n"@
        } else {
            Seq::empty()
        }) + "\n"@ + "## Highlights\n\n"@,
{
    if a.author is Some {
        lemma_escaped_nonempty(a.author->0@);
    }
    if a.published_at is Some {
        lemma_escaped_nonempty(a.published_at->0@);
    }
}

/// Highlights go to Readwise under the user's token, in one request.
pub proof fn law_readwise_requests(
    token: Seq<char>,
    a: ExportArticle,
    highlights: Seq<Highlight>,
)
    ensures
        ({
            let r = readwise_request(token, a, highlights);
            &&& r.method == Method::Post
            &&& r.url == "https://readwise.io/api/v2/highlights/"@
            &&& r.headers == seq![
                ("Authorization"@, "Token "@ + token),
                ("Content-Type"@, "application/json"@),
            ]
            &&& r.body == BodyView::Json(readwise_body(a, highlights))
        }),
{
}

/// A service's answer counts by its status: an accepted one gives its text
/// where that could be read, a refused one an error that names the service, the
/// status and what was answered, and a failed request an error of the network.
pub proof fn law_service_answers(service: Seq<char>, reply: Reply)
    ensures
        reply matches Reply::Body(s) ==> service_outcome(service, reply) == Ok::<
            Option<Seq<char>>,
            ErrorView,
        >(Some(s@)),
        reply matches Reply::Broken(e) ==> service_outcome(service, reply) == Ok::<
            Option<Seq<char>>,
            ErrorView,
        >(None),
        reply matches Reply::Refused { status, detail, .. } ==> service_outcome(service, reply)
            == Err::<Option<Seq<char>>, ErrorView>(
            ErrorView::Other(service + " error "@ + status@ + ": "@ + detail@),
        ),
        reply matches Reply::Failed(e) ==> service_outcome(service, reply) == Err::<
            Option<Seq<char>>,
            ErrorView,
        >(ErrorView::Network(e@)),
{
}

/// Each run of a text is of type text and says its own part of it; a run in
/// italics is marked so, and a plain one is not.
pub proof fn law_runs_say_their_part(s: Seq<char>, i: int)
    requires
        0 <= i < chunked(s, 2000).len(),
    ensures
        runs(s)[i] == JsonTree::Object(
            seq![
                ("type"@, JsonTree::Text("text"@)),
                (
                    "text"@,
                    JsonTree::Object(seq![("content"@, JsonTree::Text(chunked(s, 2000)[i]))]),
                ),
            ],
        ),
        italic_runs(s)[i] == JsonTree::Object(
            seq![
                ("type"@, JsonTree::Text("text"@)),
                (
                    "text"@,
                    JsonTree::Object(seq![("content"@, JsonTree::Text(chunked(s, 2000)[i]))]),
                ),
                ("annotations"@, JsonTree::Object(seq![("italic"@, JsonTree::Bool(true))])),
            ],
        ),
{
}

/// Each block is of its type and holds its own runs, and an empty text is one
/// block without any.
pub proof fn law_blocks_hold_their_runs(block_type: Seq<char>, rich_text: Seq<JsonTree>, i: int)
    ensures
        rich_text.len() == 0 ==> blocks_of(block_type, rich_text) == seq![
            JsonTree::Object(
                seq![
                    ("object"@, JsonTree::Text("block"@)),
                    ("type"@, JsonTree::Text(block_type)),
                    (
                        block_type,
                        JsonTree::Object(seq![("rich_text"@, JsonTree::List(Seq::empty()))]),
                    ),
                ],
            ),
        ],
        rich_text.len() == 0 ==> paragraphs_of(block_type, rich_text).len() == 0,
        rich_text.len() > 0 ==> blocks_of(block_type, rich_text) == paragraphs_of(
            block_type,
            rich_text,
        ),
        0 <= i < chunked(rich_text, 100).len() ==> paragraphs_of(block_type, rich_text)[i]
            == JsonTree::Object(
            seq![
                ("object"@, JsonTree::Text("block"@)),
                ("type"@, JsonTree::Text(block_type)),
                (
                    block_type,
                    JsonTree::Object(
                        seq![("rich_text"@, JsonTree::List(chunked(rich_text, 100)[i]))],
                    ),
                ),
            ],
        ),
{
}

/// Notion gets a heading with the article's title and then every highlight, in
/// order: one more adds the blocks of its quote, and those of its note in
/// italics where that is not blank.
pub proof fn law_notion_gets_every_highlight(
    a: ExportArticle,
    highlights: Seq<Highlight>,
    h: Highlight,
)
    ensures
        notion_blocks(a, Seq::empty()) == seq![
            JsonTree::Object(
                seq![
                    ("object"@, JsonTree::Text("block"@)),
                    ("type"@, JsonTree::Text("heading_2"@)),
                    (
                        "heading_2"@,
                        JsonTree::Object(seq![("rich_text"@, JsonTree::List(runs(a.title@)))]),
                    ),
                ],
            ),
        ],
        notion_blocks(a, highlights.push(h)) == notion_blocks(a, highlights) + blocks_of(
            "quote"@,
            runs(h.quote@),
        ) + (if text::trimmed(h.note@).len() == 0 {
            Seq::empty()
        } else {
            blocks_of("paragraph"@, italic_runs(text::trimmed(h.note@)))
        }),
{
    assert(highlights.push(h).drop_last() =~= highlights);
    assert(notion_blocks(a, Seq::empty()) =~= seq![text_block("heading_2"@, runs(a.title@))]);
    assert(notion_blocks(a, highlights.push(h)) =~= notion_blocks(a, highlights) + blocks_of(
        "quote"@,
        runs(h.quote@),
    ) + (if text::trimmed(h.note@).len() == 0 {
        Seq::empty()
    } else {
        blocks_of("paragraph"@, italic_runs(text::trimmed(h.note@)))
    }));
}

/// A request to Notion appends its blocks to the block it is for, under the
/// user's token.
pub proof fn law_append_requests(token: Seq<char>, id: Seq<char>, blocks: Seq<JsonTree>)
    ensures
        ({
            let r = append_request(token, id, blocks);
            &&& r.method == Method::Patch
            &&& r.url == "https://api.notion.com/v1/blocks/"@ + id + "/children"@
            &&& r.headers == seq![
                ("Authorization"@, "Bearer "@ + token),
                ("Notion-Version"@, "2022-06-28"@),
                ("Content-Type"@, "application/json"@),
            ]
            &&& r.body == BodyView::Json(
                JsonTree::Object(seq![("children"@, JsonTree::List(blocks))]),
            )
        }),
        append_requests(token, id, blocks).len() == chunked(blocks, 100).len(),
{
}

/// The page of an article holds every line of its text that is not blank, in
/// order, each in paragraphs of its own.
pub proof fn law_pages_hold_every_line(lines: Seq<Seq<char>>, line: Seq<char>)
    ensures
        lines_blocks(Seq::empty()) == Seq::<JsonTree>::empty(),
        text::trimmed(line).len() == 0 ==> lines_blocks(lines.push(line)) == lines_blocks(lines),
        text::trimmed(line).len() > 0 ==> lines_blocks(lines.push(line)) == lines_blocks(lines)
            + paragraphs_of("paragraph"@, runs(text::trimmed(line))),
{
    assert(lines.push(line).drop_last() =~= lines);
    if text::trimmed(line).len() == 0 {
        assert(runs(text::trimmed(line)) =~= Seq::<JsonTree>::empty());
        assert(line_blocks(line) =~= Seq::<JsonTree>::empty());
        assert(lines_blocks(lines) + line_blocks(line) =~= lines_blocks(lines));
    }
}

/// The page of an article starts with a bookmark where it has a URL, then says
/// its source, its author and its date where they are known, and then its text.
pub proof fn law_pages_say_what_they_are_of(a: ExportArticle, body: Seq<char>)
    ensures
        ({
            let bookmarks: Seq<JsonTree> = if a.url matches Some(s) && s@.len() > 0 {
                seq![
                    JsonTree::Object(
                        seq![
                            ("object"@, JsonTree::Text("block"@)),
                            ("type"@, JsonTree::Text("bookmark"@)),
                            (
                                "bookmark"@,
                                JsonTree::Object(seq![("url"@, JsonTree::Text(a.url->0@))]),
                            ),
                        ],
                    ),
                ]
            } else {
                Seq::empty()
            };
            let known = "Source: "@ + a.feed_title@ + (if a.author matches Some(s) && s@.len()
                > 0 {
                "  ·  "@ + ("By "@ + a.author->0@)
            } else {
                Seq::empty()
            }) + (if a.published_at matches Some(s) && s@.len() > 0 {
                "  ·  "@ + a.published_at->0@
            } else {
                Seq::empty()
            });
            &&& meta_text(a) == known
            &&& page_blocks(a, body) == bookmarks + seq![callout(a)] + lines_blocks(
                text::pieces(body, '\n'),
            )
            &&& callout(a) matches JsonTree::Object(v) && v.len() == 3 && v[1] == (
                "type"@,
                JsonTree::Text("callout"@),
            ) && v[2].0 == "callout"@ && (v[2].1 matches JsonTree::Object(c) && c.len() == 2 && c[0]
                == ("rich_text"@, JsonTree::List(runs(known))))
        }),
{
    let sep = "  ·  "@;
    let first = seq!["Source: "@ + a.feed_title@];
    let second: Seq<Seq<char>> = if a.author matches Some(s) && s@.len() > 0 {
        seq!["By "@ + a.author->0@]
    } else {
        Seq::empty()
    };
    let third: Seq<Seq<char>> = if a.published_at matches Some(s) && s@.len() > 0 {
        seq![a.published_at->0@]
    } else {
        Seq::empty()
    };
    text::law_joining_in_parts(first, second, sep);
    text::law_joining_in_parts(second, third, sep);
    text::law_joining_in_parts(third, second, sep);
    text::law_joining_in_parts(first + second, third, sep);
    if second.len() == 0 {
        assert(first + second =~= first);
    } else {
        assert(first.push(second[0]) =~= first + second);
    }
    if third.len() == 0 {
        assert(first + second + third =~= first + second);
    } else {
        assert((first + second).push(third[0]) =~= first + second + third);
    }
    let known = "Source: "@ + a.feed_title@ + (if second.len() > 0 {
        sep + second[0]
    } else {
        Seq::empty()
    }) + (if third.len() > 0 {
        sep + third[0]
    } else {
        Seq::empty()
    });
    assert(meta_text(a) =~= known);
}

/// A page is created below its parent, under the article's title, with the
/// first blocks; what did not fit is appended to the page that the answer names,
/// and nothing is where all of it fit.
pub proof fn law_pages_are_created(
    parent: Seq<char>,
    title: Seq<char>,
    token: Seq<char>,
    blocks: Seq<JsonTree>,
    answer: Option<JsonTree>,
)
    ensures
        page_body(parent, title, blocks) == JsonTree::Object(
            seq![
                ("parent"@, JsonTree::Object(seq![("page_id"@, JsonTree::Text(parent))])),
                (
                    "properties"@,
                    JsonTree::Object(
                        seq![
                            (
                                "title"@,
                                JsonTree::Object(seq![("title"@, JsonTree::List(runs(title)))]),
                            ),
                        ],
                    ),
                ),
                ("children"@, JsonTree::List(first_blocks(blocks))),
            ],
        ),
        blocks.len() <= 100 ==> first_blocks(blocks) == blocks && overflow_outcome(
            token,
            blocks,
            answer,
        ) == Ok::<Seq<RequestView>, ErrorView>(Seq::empty()),
        blocks.len() > 100 ==> first_blocks(blocks) == blocks.take(100) && (answer matches Some(v)
            && v.field("id"@) is Some && v.field("id"@)->0.as_text() is Some ==> overflow_outcome(
            token,
            blocks,
            answer,
        ) == Ok::<Seq<RequestView>, ErrorView>(
            append_requests(token, answer->0.field("id"@)->0.as_text()->0, blocks.skip(100)),
        )),
        blocks.len() > 100 && !(answer matches Some(v) && v.field("id"@) is Some && v.field(
            "id"@,
        )->0.as_text() is Some) ==> overflow_outcome(token, blocks, answer) == Err::<
            Seq<RequestView>,
            ErrorView,
        >(ErrorView::Other("Notion: missing page id in create response"@)),
{
}

/// The document in an answer is that of its text, and requests say what they
/// hold, in order.
pub proof fn law_answers_are_documents(
    s: Seq<char>,
    v: Seq<Request>,
    made: Vec<Request>,
    e: AppError,
    i: int,
)
    ensures
        answer_document(Some(s)) == json_document(s),
        answer_document(None) is None,
        requests(v).len() == v.len(),
        0 <= i < v.len() ==> requests(v)[i] == v[i]@,
        requests_outcome(Ok(made)) == Ok::<Seq<RequestView>, ErrorView>(requests(made@)),
        requests_outcome(Err(e)) == Err::<Seq<RequestView>, ErrorView>(e@),
{
}

/// How much Notion takes.
pub proof fn law_limits()
    ensures
        NOTION_MAX_CHILDREN == 100,
        NOTION_RUN_CHARS == 2000,
        NOTION_MAX_RUNS == 100,
{
}

} // verus!
