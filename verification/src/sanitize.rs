//! HTML sanitising and text extraction. Every piece of HTML that a feed or a
//! page supplies passes through [`sanitize`] before it is stored or shown.

use vstd::prelude::*;
use crate::markup::{
    edge_views, fragment_edges, parse_edges, EdgeView, Markup, MarkupEdge, MarkupView,
};
use crate::text;

verus! {

// ───────────────────────────── sanitising ─────────────────────────────

/// `url::Url`, a parsed URL.
#[verifier::external_type_specification]
#[verifier::external_body]
pub struct ExUrl(url::Url);

/// The serialisation of a `url::Url`, which is all that tells one from another.
pub uninterp spec fn url_text(url: url::Url) -> Seq<char>;

/// The serialisation of the URL that `url::Url::parse` reads out of a text,
/// where the text is an absolute URL.
pub uninterp spec fn parsed_url(text: Seq<char>) -> Option<Seq<char>>;

/// What `ammonia` leaves of an HTML text, with its default lists of tags and
/// attributes, the attribute `attribute` allowed on every tag, `rel` put on
/// links, and relative URLs rewritten against `base` where there is one.
pub uninterp spec fn cleaned(
    html: Seq<char>,
    rel: Seq<char>,
    attribute: Seq<char>,
    base: Option<Seq<char>>,
) -> Seq<char>;

/// `url::Url::parse`: the result is fixed by the text.
#[verifier::external_body]
fn parse_url(text: &str) -> (r: Option<url::Url>)
    ensures
        parsed_url(text@) == (match r {
            Some(url) => Some(url_text(url)),
            None => None,
        }),
{
    url::Url::parse(text).ok()
}

/// `ammonia::Builder::clean`, after `link_rel`, `add_generic_attributes` and
/// `url_relative`: the result is fixed by the arguments. Which tags and
/// attributes are left is the builder's default, and is not stated here. The
/// builder panics where `rel` is both set and allowed.
#[verifier::external_body]
fn clean(html: &str, rel: &str, attribute: &str, base: Option<url::Url>) -> (r: String)
    requires
        attribute@ != "rel"@,
    ensures
        r@ == cleaned(
            html@,
            rel@,
            attribute@,
            match base {
                Some(url) => Some(url_text(url)),
                None => None,
            },
        ),
{
    let mut builder = ammonia::Builder::default();
    builder.link_rel(Some(rel)).add_generic_attributes([attribute]);
    if let Some(base) = base {
        builder.url_relative(ammonia::UrlRelative::RewriteWithBase(base));
    }
    builder.clean(html).to_string()
}

/// What untrusted HTML is sanitised to: relative URLs are rewritten against
/// `base` where that is a URL.
pub open spec fn sanitized(html: Seq<char>, base: Option<Seq<char>>) -> Seq<char> {
    cleaned(
        html,
        "noopener noreferrer nofollow"@,
        "loading"@,
        match base {
            Some(b) => parsed_url(b),
            None => None,
        },
    )
}

/// Sanitises untrusted HTML for safe rendering inside the reader.
pub fn sanitize(html: &str, base: Option<&str>) -> (r: String)
    ensures
        r@ == sanitized(html@, text::str_of(base)),
{
    let parsed_base = match base {
        Some(b) => parse_url(b),
        None => None,
    };
    proof {
        reveal_strlit("loading");
        reveal_strlit("rel");
        assert("loading"@[0] != "rel"@[0]);
    }
    clean(html, "noopener noreferrer nofollow", "loading", parsed_base)
}

// ─────────────────────────── text extraction ───────────────────────────

/// A tag whose text is no copy to read.
pub open spec fn is_skipped(name: Seq<char>) -> bool {
    name == "script"@ || name == "style"@ || name == "template"@ || name == "noscript"@
}

/// A block-level tag: its edges are word boundaries.
pub open spec fn is_block(name: Seq<char>) -> bool {
    ||| name == "address"@ || name == "article"@ || name == "aside"@ || name == "blockquote"@
    ||| name == "br"@ || name == "caption"@ || name == "dd"@ || name == "div"@ || name == "dl"@
    ||| name == "dt"@ || name == "figcaption"@ || name == "figure"@ || name == "footer"@
    ||| name == "h1"@ || name == "h2"@ || name == "h3"@ || name == "h4"@ || name == "h5"@
    ||| name == "h6"@ || name == "header"@ || name == "hr"@ || name == "li"@ || name == "main"@
    ||| name == "nav"@ || name == "ol"@ || name == "p"@ || name == "pre"@ || name == "section"@
    ||| name == "table"@ || name == "td"@ || name == "th"@ || name == "tr"@ || name == "ul"@
}

fn skipped(name: &str) -> (r: bool)
    ensures
        r == is_skipped(name@),
{
    text::same(name, "script") || text::same(name, "style") || text::same(name, "template")
        || text::same(name, "noscript")
}

fn block(name: &str) -> (r: bool)
    ensures
        r == is_block(name@),
{
    text::same(name, "address") || text::same(name, "article") || text::same(name, "aside")
        || text::same(name, "blockquote") || text::same(name, "br") || text::same(name, "caption")
        || text::same(name, "dd") || text::same(name, "div") || text::same(name, "dl")
        || text::same(name, "dt") || text::same(name, "figcaption") || text::same(name, "figure")
        || text::same(name, "footer") || text::same(name, "h1") || text::same(name, "h2")
        || text::same(name, "h3") || text::same(name, "h4") || text::same(name, "h5")
        || text::same(name, "h6") || text::same(name, "header") || text::same(name, "hr")
        || text::same(name, "li") || text::same(name, "main") || text::same(name, "nav")
        || text::same(name, "ol") || text::same(name, "p") || text::same(name, "pre")
        || text::same(name, "section") || text::same(name, "table") || text::same(name, "td")
        || text::same(name, "th") || text::same(name, "tr") || text::same(name, "ul")
}

/// How many skipped elements are open behind these edges.
pub open spec fn skip_depth(edges: Seq<EdgeView>) -> nat
    decreases edges.len(),
{
    if edges.len() == 0 {
        0
    } else {
        let before = skip_depth(edges.drop_last());
        match edges.last() {
            EdgeView::Open(MarkupView::Element(name)) if is_skipped(name) => before + 1,
            EdgeView::Close(MarkupView::Element(name)) if is_skipped(name) && before > 0 => (before
                - 1) as nat,
            _ => before,
        }
    }
}

/// What one edge adds to the text, `depth` skipped elements being open: a run
/// of text itself, a space at a block's edge, and nothing inside a skipped
/// element.
pub open spec fn edge_text(edge: EdgeView, depth: nat) -> Seq<char> {
    if depth > 0 {
        Seq::empty()
    } else {
        match edge {
            EdgeView::Open(MarkupView::Text(t)) => t,
            EdgeView::Open(MarkupView::Element(name)) => if !is_skipped(name) && is_block(name) {
                seq![' ']
            } else {
                Seq::empty()
            },
            EdgeView::Close(MarkupView::Element(name)) => if !is_skipped(name) && is_block(name) {
                seq![' ']
            } else {
                Seq::empty()
            },
            _ => Seq::empty(),
        }
    }
}

/// The text that these edges carry, block boundaries as spaces.
pub open spec fn carried_text(edges: Seq<EdgeView>) -> Seq<char>
    decreases edges.len(),
{
    if edges.len() == 0 {
        Seq::empty()
    } else {
        carried_text(edges.drop_last()) + edge_text(edges.last(), skip_depth(edges.drop_last()))
    }
}

/// The words that these edges carry, one space between each two.
pub open spec fn collapsed_text(edges: Seq<EdgeView>) -> Seq<char> {
    text::joined(text::words(carried_text(edges)), seq![' '])
}

/// The words of a traversed fragment, one space between each two.
pub fn edges_to_text(edges: &Vec<MarkupEdge>) -> (r: String)
    ensures
        r@ == collapsed_text(edge_views(edges@)),
{
    let ghost all = edge_views(edges@);
    let mut out = String::new();
    let mut skip: usize = 0;
    assert(all.take(0) =~= Seq::<EdgeView>::empty());
    for i in 0..edges.len()
        invariant
            all == edge_views(edges@),
            skip <= i,
            skip == skip_depth(all.take(i as int)),
            out@ == carried_text(all.take(i as int)),
    {
        let ghost before = out@;
        let ghost depth = skip as nat;
        let ghost now = all.take(i + 1);
        assert(now.drop_last() =~= all.take(i as int));
        assert(now.last() == edges@[i as int]@);
        match &edges[i] {
            MarkupEdge::Open(node) => match node {
                Markup::Element(name) => {
                    if skipped(name.as_str()) {
                        skip = skip + 1;
                    } else if skip == 0 && block(name.as_str()) {
                        out.push(' ');
                    }
                },
                Markup::Text(t) => {
                    if skip == 0 {
                        out.push_str(t.as_str());
                    }
                },
                Markup::Other => {},
            },
            MarkupEdge::Close(node) => match node {
                Markup::Element(name) => {
                    if skipped(name.as_str()) {
                        if skip > 0 {
                            skip = skip - 1;
                        }
                    } else if skip == 0 && block(name.as_str()) {
                        out.push(' ');
                    }
                },
                Markup::Text(_) => {},
                Markup::Other => {},
            },
        }
        assert(out@ =~= before + edge_text(now.last(), depth));
    }
    assert(all.take(all.len() as int) =~= all);
    text::collapse(out.as_str())
}

/// Strips all markup from HTML: entities are decoded, the words on either
/// side of a block boundary stay apart, inline tags join their text, and
/// white space is collapsed.
pub fn html_to_text(html: &str) -> (r: String)
    ensures
        r@ == collapsed_text(fragment_edges(html@)),
{
    let edges = parse_edges(html);
    edges_to_text(&edges)
}

/// Every white space character of a text is a lone space between two others.
pub open spec fn is_collapsed(s: Seq<char>) -> bool {
    forall|i: int|
        0 <= i < s.len() && text::is_space(#[trigger] s[i]) ==> {
            &&& s[i] == ' '
            &&& 0 < i < s.len() - 1
            &&& !text::is_space(s[i - 1])
            &&& !text::is_space(s[i + 1])
        }
}

/// A run of characters without white space.
pub open spec fn is_word(w: Seq<char>) -> bool {
    w.len() > 0 && forall|i: int| 0 <= i < w.len() ==> !text::is_space(#[trigger] w[i])
}

proof fn lemma_words(s: Seq<char>)
    ensures
        forall|k: int| 0 <= k < text::words(s).len() ==> is_word(#[trigger] text::words(s)[k]),
        s.len() > 0 && !text::is_space(s.last()) ==> text::words(s).len() > 0,
    decreases s.len(),
{
    if s.len() > 0 {
        lemma_words(s.drop_last());
        let before = text::words(s.drop_last());
        let c = s.last();
        if !text::is_space(c) {
            if s.len() >= 2 && !text::is_space(s[s.len() - 2]) {
                let grown = before.last().push(c);
                assert(is_word(before[before.len() - 1]));
                assert(is_word(grown));
                assert forall|k: int| 0 <= k < text::words(s).len() implies is_word(
                    #[trigger] text::words(s)[k],
                ) by {
                    if k < before.len() - 1 {
                        assert(text::words(s)[k] == before[k]);
                    }
                }
            } else {
                assert(is_word(seq![c]));
            }
        }
    }
}

proof fn lemma_joined_words_are_collapsed(words: Seq<Seq<char>>)
    requires
        forall|k: int| 0 <= k < words.len() ==> is_word(#[trigger] words[k]),
    ensures
        is_collapsed(text::joined(words, seq![' '])),
        words.len() > 0 ==> text::joined(words, seq![' ']).len() > 0 && !text::is_space(
            text::joined(words, seq![' ']).last(),
        ),
    decreases words.len(),
{
    let sep = seq![' '];
    if words.len() == 1 {
        assert(is_word(words[0]));
    } else if words.len() > 1 {
        let head = words.drop_last();
        let front = text::joined(head, sep);
        let w = words.last();
        assert(is_word(words[words.len() - 1]));
        lemma_joined_words_are_collapsed(head);
        let all = front + sep + w;
        assert forall|i: int| 0 <= i < all.len() && text::is_space(#[trigger] all[i]) implies all[i]
            == ' ' && 0 < i < all.len() - 1 && !text::is_space(all[i - 1]) && !text::is_space(
            all[i + 1],
        ) by {
            if i < front.len() {
                assert(all[i] == front[i]);
                assert(all[i - 1] == front[i - 1]);
                assert(all[i + 1] == front[i + 1]);
            } else if i == front.len() {
                assert(all[i - 1] == front.last());
                assert(all[i + 1] == w[0]);
            } else {
                assert(all[i] == w[i - front.len() - 1]);
            }
        }
        assert(all.last() == w[w.len() - 1]);
    }
}

/// Extracted text is collapsed: it holds no white space but single spaces
/// between words.
pub proof fn law_text_is_collapsed(edges: Seq<EdgeView>)
    ensures
        is_collapsed(collapsed_text(edges)),
{
    lemma_words(carried_text(edges));
    lemma_joined_words_are_collapsed(text::words(carried_text(edges)));
}

/// An edge of an inline element leaves the text as it is, so that inline tags
/// never break a word.
pub proof fn law_inline_tags_join(edges: Seq<EdgeView>, name: Seq<char>, open: bool)
    requires
        !is_skipped(name),
        !is_block(name),
    ensures
        carried_text(
            edges.push(
                if open {
                    EdgeView::Open(MarkupView::Element(name))
                } else {
                    EdgeView::Close(MarkupView::Element(name))
                },
            ),
        ) == carried_text(edges),
{
    let edge = if open {
        EdgeView::Open(MarkupView::Element(name))
    } else {
        EdgeView::Close(MarkupView::Element(name))
    };
    assert(edges.push(edge).drop_last() =~= edges);
    assert(carried_text(edges) + Seq::<char>::empty() =~= carried_text(edges));
}

/// Outside skipped elements, the edge of a block element adds a space.
pub proof fn law_block_edges_part_words(edges: Seq<EdgeView>, name: Seq<char>, open: bool)
    requires
        is_block(name),
        !is_skipped(name),
        skip_depth(edges) == 0,
    ensures
        carried_text(
            edges.push(
                if open {
                    EdgeView::Open(MarkupView::Element(name))
                } else {
                    EdgeView::Close(MarkupView::Element(name))
                },
            ),
        ) == carried_text(edges).push(' '),
{
    let edge = if open {
        EdgeView::Open(MarkupView::Element(name))
    } else {
        EdgeView::Close(MarkupView::Element(name))
    };
    assert(edges.push(edge).drop_last() =~= edges);
    assert(carried_text(edges) + seq![' '] =~= carried_text(edges).push(' '));
}

/// Inside a skipped element nothing is added.
pub proof fn law_skipped_text_is_dropped(edges: Seq<EdgeView>, edge: EdgeView)
    requires
        skip_depth(edges) > 0,
    ensures
        carried_text(edges.push(edge)) == carried_text(edges),
{
    assert(edges.push(edge).drop_last() =~= edges);
    assert(carried_text(edges) + Seq::<char>::empty() =~= carried_text(edges));
}

/// Outside skipped elements, each edge of a paragraph, line break, heading,
/// list item, table cell or other block parts the words on its two sides.
pub proof fn law_these_tags_part_words(
    edges: Seq<EdgeView>,
    name: Seq<char>,
    open: bool,
    t: Seq<char>,
)
    requires
        skip_depth(edges) == 0,
        ({
            ||| name == "address"@ || name == "article"@ || name == "aside"@ || name == "blockquote"@
            ||| name == "br"@ || name == "caption"@ || name == "dd"@ || name == "div"@
            ||| name == "dl"@ || name == "dt"@ || name == "figcaption"@ || name == "figure"@
            ||| name == "footer"@ || name == "h1"@ || name == "h2"@ || name == "h3"@
            ||| name == "h4"@ || name == "h5"@ || name == "h6"@ || name == "header"@
            ||| name == "hr"@ || name == "li"@ || name == "main"@ || name == "nav"@
            ||| name == "ol"@ || name == "p"@ || name == "pre"@ || name == "section"@
            ||| name == "table"@ || name == "td"@ || name == "th"@ || name == "tr"@
            ||| name == "ul"@
        }),
    ensures
        ({
            let edge = if open {
                EdgeView::Open(MarkupView::Element(name))
            } else {
                EdgeView::Close(MarkupView::Element(name))
            };
            &&& skip_depth(edges.push(edge)) == 0
            &&& carried_text(edges.push(edge)) == carried_text(edges).push(' ')
            &&& text::words(
                carried_text(edges.push(edge).push(EdgeView::Open(MarkupView::Text(t)))),
            ) == text::words(carried_text(edges)) + text::words(t)
        }),
{
    lemma_blocks_are_read(name);
    let edge = if open {
        EdgeView::Open(MarkupView::Element(name))
    } else {
        EdgeView::Close(MarkupView::Element(name))
    };
    let run = EdgeView::Open(MarkupView::Text(t));
    let now = edges.push(edge);
    law_block_edges_part_words(edges, name, open);
    assert(now.drop_last() =~= edges);
    assert(now.push(run).drop_last() =~= now);
    text::law_white_space_parts_words(carried_text(edges), ' ', t);
    assert(carried_text(edges).push(' ') =~= carried_text(edges) + seq![' ']);
}

proof fn lemma_blocks_are_read(name: Seq<char>)
    requires
        is_block(name),
    ensures
        !is_skipped(name),
{
    reveal_strlit("address");
    reveal_strlit("article");
    reveal_strlit("aside");
    reveal_strlit("blockquote");
    reveal_strlit("br");
    reveal_strlit("caption");
    reveal_strlit("dd");
    reveal_strlit("div");
    reveal_strlit("dl");
    reveal_strlit("dt");
    reveal_strlit("figcaption");
    reveal_strlit("figure");
    reveal_strlit("footer");
    reveal_strlit("h1");
    reveal_strlit("h2");
    reveal_strlit("h3");
    reveal_strlit("h4");
    reveal_strlit("h5");
    reveal_strlit("h6");
    reveal_strlit("header");
    reveal_strlit("hr");
    reveal_strlit("li");
    reveal_strlit("main");
    reveal_strlit("nav");
    reveal_strlit("ol");
    reveal_strlit("p");
    reveal_strlit("pre");
    reveal_strlit("section");
    reveal_strlit("table");
    reveal_strlit("td");
    reveal_strlit("th");
    reveal_strlit("tr");
    reveal_strlit("ul");
    reveal_strlit("script");
    reveal_strlit("style");
    reveal_strlit("template");
    reveal_strlit("noscript");
    assert("script"@[0] == 's' && "script"@.len() == 6);
    assert("style"@[0] == 's' && "style"@.len() == 5);
    assert("template"@[0] == 't' && "template"@.len() == 8);
    assert("noscript"@[0] == 'n' && "noscript"@.len() == 8);
    if is_skipped(name) {
        if name == "script"@ {
            assert(name[1] == 'c');
        } else if name == "style"@ {
            assert(name[1] == 't');
        } else if name == "template"@ {
            assert(name[1] == 'e');
        } else {
            assert(name[1] == 'o');
        }
    }
}

/// A tag that is neither one of the blocks nor one whose text is dropped joins
/// the words on its two sides.
pub proof fn law_other_tags_join_words(edges: Seq<EdgeView>, name: Seq<char>, open: bool)
    requires
        !({
            ||| name == "address"@ || name == "article"@ || name == "aside"@ || name == "blockquote"@
            ||| name == "br"@ || name == "caption"@ || name == "dd"@ || name == "div"@
            ||| name == "dl"@ || name == "dt"@ || name == "figcaption"@ || name == "figure"@
            ||| name == "footer"@ || name == "h1"@ || name == "h2"@ || name == "h3"@
            ||| name == "h4"@ || name == "h5"@ || name == "h6"@ || name == "header"@
            ||| name == "hr"@ || name == "li"@ || name == "main"@ || name == "nav"@
            ||| name == "ol"@ || name == "p"@ || name == "pre"@ || name == "section"@
            ||| name == "table"@ || name == "td"@ || name == "th"@ || name == "tr"@
            ||| name == "ul"@ || name == "script"@ || name == "style"@ || name == "template"@
            ||| name == "noscript"@
        }),
    ensures
        ({
            let edge = if open {
                EdgeView::Open(MarkupView::Element(name))
            } else {
                EdgeView::Close(MarkupView::Element(name))
            };
            &&& skip_depth(edges.push(edge)) == skip_depth(edges)
            &&& carried_text(edges.push(edge)) == carried_text(edges)
        }),
{
    law_inline_tags_join(edges, name, open);
    let edge = if open {
        EdgeView::Open(MarkupView::Element(name))
    } else {
        EdgeView::Close(MarkupView::Element(name))
    };
    assert(edges.push(edge).drop_last() =~= edges);
}

/// Scripts, styles, templates and what stands in for scripts are skipped from
/// their opening to the closing that belongs to it.
pub proof fn law_these_tags_are_skipped(edges: Seq<EdgeView>, name: Seq<char>)
    requires
        name == "script"@ || name == "style"@ || name == "template"@ || name == "noscript"@,
    ensures
        skip_depth(Seq::empty()) == 0,
        skip_depth(edges.push(EdgeView::Open(MarkupView::Element(name)))) == skip_depth(edges) + 1,
        skip_depth(edges.push(EdgeView::Close(MarkupView::Element(name)))) == (if skip_depth(edges)
            > 0 {
            skip_depth(edges) - 1
        } else {
            0
        }),
        carried_text(edges.push(EdgeView::Open(MarkupView::Element(name)))) == carried_text(edges),
        carried_text(edges.push(EdgeView::Close(MarkupView::Element(name)))) == carried_text(edges),
{
    let a = EdgeView::Open(MarkupView::Element(name));
    let b = EdgeView::Close(MarkupView::Element(name));
    assert(edges.push(a).drop_last() =~= edges);
    assert(edges.push(b).drop_last() =~= edges);
    assert(carried_text(edges) + Seq::<char>::empty() =~= carried_text(edges));
}

/// Outside skipped elements every run of text is taken over as it is, once, and
/// what is neither text nor element adds nothing.
pub proof fn law_text_is_taken_over(edges: Seq<EdgeView>, t: Seq<char>)
    ensures
        carried_text(Seq::empty()) == Seq::<char>::empty(),
        skip_depth(edges) == 0 ==> carried_text(edges.push(EdgeView::Open(MarkupView::Text(t))))
            == carried_text(edges) + t,
        carried_text(edges.push(EdgeView::Close(MarkupView::Text(t)))) == carried_text(edges),
        carried_text(edges.push(EdgeView::Open(MarkupView::Other))) == carried_text(edges),
        carried_text(edges.push(EdgeView::Close(MarkupView::Other))) == carried_text(edges),
        skip_depth(edges.push(EdgeView::Open(MarkupView::Text(t)))) == skip_depth(edges),
        skip_depth(edges.push(EdgeView::Close(MarkupView::Text(t)))) == skip_depth(edges),
        skip_depth(edges.push(EdgeView::Open(MarkupView::Other))) == skip_depth(edges),
        skip_depth(edges.push(EdgeView::Close(MarkupView::Other))) == skip_depth(edges),
{
    let a = EdgeView::Open(MarkupView::Text(t));
    let b = EdgeView::Close(MarkupView::Text(t));
    let c = EdgeView::Open(MarkupView::Other);
    let d = EdgeView::Close(MarkupView::Other);
    assert(edges.push(a).drop_last() =~= edges);
    assert(edges.push(b).drop_last() =~= edges);
    assert(edges.push(c).drop_last() =~= edges);
    assert(edges.push(d).drop_last() =~= edges);
    assert(carried_text(edges) + Seq::<char>::empty() =~= carried_text(edges));
}

/// Extracted text says the words that the markup carries, all of them and in
/// order.
pub proof fn law_text_keeps_the_words(edges: Seq<EdgeView>)
    ensures
        text::words(collapsed_text(edges)) == text::words(carried_text(edges)),
{
    lemma_words(carried_text(edges));
    lemma_words_joined(text::words(carried_text(edges)));
}

proof fn lemma_words_joined(words: Seq<Seq<char>>)
    requires
        forall|k: int| 0 <= k < words.len() ==> is_word(#[trigger] words[k]),
    ensures
        text::words(text::joined(words, seq![' '])) == words,
    decreases words.len(),
{
    if words.len() == 1 {
        assert(is_word(words[0]));
        text::law_one_word(words[0]);
        assert(words =~= seq![words[0]]);
    } else if words.len() > 1 {
        let head = words.drop_last();
        lemma_words_joined(head);
        assert(is_word(words[words.len() - 1]));
        text::law_one_word(words.last());
        text::law_white_space_parts_words(text::joined(head, seq![' ']), ' ', words.last());
        assert(head + seq![words.last()] =~= words);
    }
}

/// HTML is sanitised with links that give nothing away, against the base where
/// that is a URL, and against none otherwise.
pub proof fn law_sanitising_settings(html: Seq<char>, base: Option<Seq<char>>)
    ensures
        base is None || parsed_url(base->0) is None ==> sanitized(html, base) == cleaned(
            html,
            "noopener noreferrer nofollow"@,
            "loading"@,
            None,
        ),
        base matches Some(b) && parsed_url(b) is Some ==> sanitized(html, base) == cleaned(
            html,
            "noopener noreferrer nofollow"@,
            "loading"@,
            parsed_url(base->0),
        ),
{
}

} // verus!
