use papr::markup::{Markup, MarkupEdge};
use papr::sanitize::{edges_to_text, html_to_text, sanitize};
use papr::text;

#[test]
fn block_boundaries_keep_words_apart() {
    assert_eq!(html_to_text("<h1>Title</h1><p>Body</p>"), "Title Body");
}

#[test]
fn inline_tags_do_not_break_words() {
    assert_eq!(html_to_text("un<b>der</b>line"), "underline");
}

#[test]
fn html_entities_are_decoded() {
    assert_eq!(html_to_text("<p>Tom &amp; Jerry</p>"), "Tom & Jerry");
    assert_eq!(html_to_text("caf&#233;"), "café");
    assert_eq!(html_to_text("a &lt;tag&gt; b"), "a <tag> b");
}

#[test]
fn script_and_style_content_is_dropped() {
    assert_eq!(
        html_to_text("<p>hi</p><script>alert(1)</script><style>x{}</style>"),
        "hi"
    );
}

#[test]
fn whitespace_is_collapsed() {
    assert_eq!(html_to_text("<p>  lots   of\n\n  space </p>"), "lots of space");
}

#[test]
fn empty_and_plain_input() {
    assert_eq!(html_to_text(""), "");
    assert_eq!(html_to_text("just text"), "just text");
}

#[test]
fn deeply_nested_markup_does_not_overflow() {
    let deep = format!("{}word{}", "<div>".repeat(5000), "</div>".repeat(5000));
    assert_eq!(html_to_text(&deep), "word");
}

#[test]
fn sanitize_strips_scripts_and_event_handlers() {
    let out = sanitize("<p onclick=\"steal()\">hi</p><script>evil()</script>", None);
    assert!(!out.contains("script"), "script tag survived: {out}");
    assert!(!out.contains("onclick"), "event handler survived: {out}");
    assert!(out.contains("hi"));
}

#[test]
fn sanitize_adds_rel_to_links() {
    let out = sanitize("<a href=\"https://example.com\">x</a>", None);
    assert!(out.contains("noopener"), "link rel missing: {out}");
}

#[test]
fn sanitize_rewrites_relative_urls_against_base() {
    let out = sanitize("<img src=\"/pic.png\">", Some("https://example.com/post/"));
    assert!(
        out.contains("https://example.com/pic.png"),
        "relative URL not rewritten: {out}"
    );
}

#[test]
fn a_base_that_is_no_url_rewrites_nothing() {
    let plain = sanitize("<img src=\"pic.png\">", None);
    assert_eq!(sanitize("<img src=\"pic.png\">", Some("not a url")), plain);
    assert!(!plain.contains("http"), "{plain}");
}

fn open(name: &str) -> MarkupEdge {
    MarkupEdge::Open(Markup::Element(name.to_string()))
}

fn close(name: &str) -> MarkupEdge {
    MarkupEdge::Close(Markup::Element(name.to_string()))
}

fn words(s: &str) -> MarkupEdge {
    MarkupEdge::Open(Markup::Text(s.to_string()))
}

#[test]
fn edges_become_text() {
    let edges = vec![
        open("p"),
        words("one"),
        open("script"),
        words("two"),
        close("script"),
        close("p"),
        open("p"),
        words("three"),
        open("em"),
        words("four"),
        close("em"),
        MarkupEdge::Open(Markup::Other),
        close("p"),
    ];
    assert_eq!(edges_to_text(&edges), "one threefour");
    assert_eq!(edges_to_text(&vec![]), "");
}

// ── text ──

#[test]
fn white_space_is_that_of_unicode() {
    for n in 0..=0x10FFFFu32 {
        if let Some(c) = char::from_u32(n) {
            assert_eq!(text::whitespace(c), c.is_whitespace(), "{n:x}");
        }
    }
}

#[test]
fn text_is_cut_as_std_cuts_it() {
    let samples = ["", " ", "a", "  a b ", "\u{3000}x\u{a0}", "a/b//", "//", "-a--b-", "é\n ü"];
    for s in samples {
        assert_eq!(text::trim(s), s.trim());
        assert_eq!(text::trim_end_of(s, '/'), s.trim_end_matches('/'));
        assert_eq!(text::split(s, '-'), s.split('-').collect::<Vec<_>>());
        assert_eq!(
            text::collapse(s),
            s.split_whitespace().collect::<Vec<_>>().join(" ")
        );
        assert_eq!(text::byte_len(s), s.len());
        for p in ["", "a", "-", "//", "x"] {
            assert_eq!(text::ends_with(s, p), s.ends_with(p));
            assert_eq!(text::holds(s, p), s.contains(p));
            assert_eq!(text::strip_prefix(s, p).as_deref(), s.strip_prefix(p));
            assert_eq!(text::strip_suffix(s, p).as_deref(), s.strip_suffix(p));
        }
        for other in samples {
            assert_eq!(text::same(s, other), s == other);
            assert_eq!(text::is_before(s, other), s < other, "{s:?} {other:?}");
            assert_eq!(text::same_ignoring_case(s, other), s.eq_ignore_ascii_case(other));
        }
    }
    assert!(text::same_ignoring_case("UncategoRized", "uncategorized"));
    assert!(!text::same_ignoring_case("É", "é"));
}

#[test]
fn numbers_are_written_and_read_as_std_does() {
    for n in [0, 1, -1, 9, 10, -10, 1234567890, i64::MAX, i64::MIN] {
        assert_eq!(text::integer(n), n.to_string());
        assert_eq!(text::parse_i64(&n.to_string()), Some(n));
    }
    for s in ["", "+", "-", "+7", "007", "-0", "1x", " 1", "1 ", "9223372036854775808", "-9223372036854775809"] {
        assert_eq!(text::parse_i64(s), s.parse::<i64>().ok(), "{s}");
    }
    assert_eq!(text::natural(u64::MAX), u64::MAX.to_string());
    assert_eq!(text::count(usize::MAX), usize::MAX.to_string());
}
