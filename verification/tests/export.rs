use papr::error::AppError;
use papr::export::{
    append_overflow, append_overflow_of, build_markdown, build_notion_body, build_notion_page,
    build_readwise_body, escape_md, highlight_block, notion_paragraphs, notion_page_children,
    notion_rich_text, post_article_to_notion, post_to_notion, post_to_readwise, service_reply,
    ExportArticle, NOTION_MAX_CHILDREN, NOTION_MAX_RUNS, NOTION_RUN_CHARS,
};
use papr::json::{object1, Json};
use papr::models::Highlight;
use papr::net::{Body, Method, Reply, Request};

fn sample_article() -> ExportArticle {
    ExportArticle {
        title: "Rust in 2024".to_string(),
        url: Some("https://example.com/rust".to_string()),
        author: Some("Jane Doe".to_string()),
        feed_title: "Example Blog".to_string(),
        published_at: Some("2024-01-15".to_string()),
    }
}

fn hl(id: i64, quote: &str, note: &str) -> Highlight {
    Highlight {
        id,
        article_id: 1,
        quote: quote.to_string(),
        prefix: String::new(),
        suffix: String::new(),
        text_offset: 0,
        color: "yellow".to_string(),
        note: note.to_string(),
        created_at: "2024-01-15 10:00:00".to_string(),
    }
}

fn at<'a>(j: &'a Json, key: &str) -> &'a Json {
    j.field(key).expect(key)
}

fn nth(j: &Json, i: usize) -> &Json {
    j.item(i).expect("item")
}

fn items(j: &Json) -> &Vec<Json> {
    match j {
        Json::List(v) => v,
        _ => panic!("not a list"),
    }
}

fn said(j: &Json) -> String {
    j.as_text().expect("text")
}

fn content(run: &Json) -> String {
    said(at(at(run, "text"), "content"))
}

fn kind(block: &Json) -> String {
    said(at(block, "type"))
}

// ── Markdown ──

#[test]
fn markdown_includes_header_and_metadata() {
    let md = build_markdown(&sample_article(), &vec![hl(1, "borrow checker", "")]);
    assert!(md.starts_with("# Rust in 2024\n"));
    assert!(md.contains("- **Source:** Example Blog"));
    assert!(md.contains("- **Author:** Jane Doe"));
    assert!(md.contains("- **Published:** 2024-01-15"));
    assert!(md.contains("- **Link:** https://example.com/rust"));
    assert!(md.contains("> borrow checker"));
}

#[test]
fn markdown_escapes_special_characters() {
    let mut a = sample_article();
    a.title = "C# *vs* _Rust_".to_string();
    let md = build_markdown(&a, &vec![hl(1, "a [link] and #hash", "")]);
    assert!(md.contains("# C\\# \\*vs\\* \\_Rust\\_"));
    assert!(md.contains("> a \\[link\\] and \\#hash"));
}

#[test]
fn markdown_renders_note_as_nested_italic() {
    let md = build_markdown(&sample_article(), &vec![hl(1, "the quote", "my thought")]);
    assert!(md.contains("> the quote\n>\n> *my thought*\n"));
}

#[test]
fn markdown_multiple_highlights_separated() {
    let md = build_markdown(
        &sample_article(),
        &vec![hl(1, "first", ""), hl(2, "second", "noted")],
    );
    assert!(md.contains("> first\n"));
    assert!(md.contains("> second\n"));
    assert!(md.contains("> *noted*"));
}

#[test]
fn markdown_empty_highlight_list() {
    let md = build_markdown(&sample_article(), &vec![]);
    assert!(md.contains("## Highlights"));
    assert!(md.contains("_No highlights yet._"));
}

#[test]
fn markdown_omits_absent_metadata() {
    let a = ExportArticle {
        title: "Untitled".to_string(),
        url: None,
        author: None,
        feed_title: "Feed".to_string(),
        published_at: None,
    };
    let md = build_markdown(&a, &vec![hl(1, "q", "")]);
    assert!(!md.contains("**Author:**"));
    assert!(!md.contains("**Link:**"));
    assert!(!md.contains("**Published:**"));
}

#[test]
fn markdown_multiline_quote_keeps_blockquote_marker() {
    let md = build_markdown(&sample_article(), &vec![hl(1, "line one\nline two", "")]);
    assert!(md.contains("> line one\n> line two\n"));
}

#[test]
fn markdown_document_in_full() {
    let md = build_markdown(
        &sample_article(),
        &vec![hl(1, "one", " hm\nwell "), hl(2, "two", "  ")],
    );
    assert_eq!(
        md,
        "# Rust in 2024\n\n- **Source:** Example Blog\n- **Author:** Jane Doe\n\
         - **Published:** 2024-01-15\n- **Link:** https://example.com/rust\n\n\
         ## Highlights\n\n> one\n>\n> *hm*\n> *well*\n\n> two\n"
    );
    let mut a = sample_article();
    a.author = Some(String::new());
    a.url = Some("https://e.com/a_b".to_string());
    a.published_at = None;
    assert_eq!(
        build_markdown(&a, &vec![]),
        "# Rust in 2024\n\n- **Source:** Example Blog\n- **Link:** https://e.com/a_b\n\n\
         ## Highlights\n\n_No highlights yet._\n"
    );
}

#[test]
fn every_line_of_a_block_is_quoted() {
    let block = highlight_block(&hl(1, "a\n\nb > c\n", "x\ny"));
    for line in block.lines() {
        assert!(line.starts_with('>'), "{line}");
    }
    assert!(block.ends_with('\n'));
}

#[test]
fn escaped_markdown_can_be_read_back() {
    let text = "\\ ` * _ [ ] < > # | plain ü";
    let escaped = escape_md(text);
    assert_eq!(escaped, "\\\\ \\` \\* \\_ \\[ \\] \\< \\> \\# \\| plain ü");
    let mut back = String::new();
    let mut chars = escaped.chars();
    while let Some(c) = chars.next() {
        back.push(if c == '\\' { chars.next().unwrap() } else { c });
    }
    assert_eq!(back, text);
}

// ── Readwise ──

#[test]
fn readwise_body_shape() {
    let body = build_readwise_body(&sample_article(), &vec![hl(1, "quote text", "a note")]);
    let list = items(at(&body, "highlights"));
    assert_eq!(list.len(), 1);
    assert_eq!(said(at(&list[0], "text")), "quote text");
    assert_eq!(said(at(&list[0], "title")), "Rust in 2024");
    assert_eq!(said(at(&list[0], "author")), "Jane Doe");
    assert_eq!(said(at(&list[0], "source_url")), "https://example.com/rust");
    assert_eq!(said(at(&list[0], "note")), "a note");
    assert_eq!(said(at(&list[0], "category")), "articles");
    assert_eq!(said(at(&list[0], "source_type")), "papr");
}

#[test]
fn readwise_body_omits_empty_note() {
    let body = build_readwise_body(&sample_article(), &vec![hl(1, "q", "")]);
    assert!(nth(at(&body, "highlights"), 0).field("note").is_none());
}

#[test]
fn readwise_body_special_characters_preserved() {
    let body = build_readwise_body(
        &sample_article(),
        &vec![hl(1, "quote with \"quotes\" & <tags>", "emoji 🎉")],
    );
    let first = nth(at(&body, "highlights"), 0);
    assert_eq!(said(at(first, "text")), "quote with \"quotes\" & <tags>");
    assert_eq!(said(at(first, "note")), "emoji 🎉");
}

#[test]
fn readwise_body_multiple_highlights() {
    let body = build_readwise_body(
        &sample_article(),
        &vec![hl(1, "a", ""), hl(2, "b", ""), hl(3, "c", "")],
    );
    assert_eq!(items(at(&body, "highlights")).len(), 3);
}

#[test]
fn readwise_request_and_errors() {
    let none = post_to_readwise("t", &sample_article(), &vec![]);
    assert_eq!(none, Err(AppError::Code("noHighlights".to_string())));
    let marks = vec![hl(1, "q", "")];
    let request = post_to_readwise("t", &sample_article(), &marks).unwrap();
    assert_eq!(request.method, Method::Post);
    assert_eq!(request.url, "https://readwise.io/api/v2/highlights/");
    assert_eq!(
        request.headers,
        vec![
            ("Authorization".to_string(), "Token t".to_string()),
            ("Content-Type".to_string(), "application/json".to_string()),
        ]
    );
    assert_eq!(request.body, Body::Json(build_readwise_body(&sample_article(), &marks)));
    let refused = Reply::Refused {
        status: "401 Unauthorized".to_string(),
        detail: "bad token".to_string(),
        message: "HTTP status client error".to_string(),
    };
    assert_eq!(
        service_reply("Readwise", refused),
        Err(AppError::Other("Readwise error 401 Unauthorized: bad token".to_string()))
    );
    assert_eq!(
        service_reply("Readwise", Reply::Failed("timeout".to_string())),
        Err(AppError::Network("timeout".to_string()))
    );
    assert_eq!(
        service_reply("Readwise", Reply::Body("ok".to_string())),
        Ok(Some("ok".to_string()))
    );
    assert_eq!(service_reply("Readwise", Reply::Broken("cut".to_string())), Ok(None));
}

// ── Notion ──

#[test]
fn notion_body_shape() {
    let body = build_notion_body(&sample_article(), &vec![hl(1, "the quote", "")]);
    let children = items(at(&body, "children"));
    assert_eq!(children.len(), 2);
    assert_eq!(kind(&children[0]), "heading_2");
    assert_eq!(kind(&children[1]), "quote");
    assert_eq!(
        content(nth(at(at(&children[1], "quote"), "rich_text"), 0)),
        "the quote"
    );
}

#[test]
fn notion_body_note_adds_paragraph() {
    let body = build_notion_body(&sample_article(), &vec![hl(1, "q", "my note")]);
    let children = items(at(&body, "children"));
    assert_eq!(children.len(), 3);
    assert_eq!(kind(&children[2]), "paragraph");
    let run = nth(at(at(&children[2], "paragraph"), "rich_text"), 0);
    assert_eq!(at(at(run, "annotations"), "italic"), &Json::Bool(true));
}

#[test]
fn notion_body_special_characters_preserved() {
    let body = build_notion_body(&sample_article(), &vec![hl(1, "quotes \" & <tags> 🎉", "")]);
    let quote = nth(at(&body, "children"), 1);
    assert_eq!(
        content(nth(at(at(quote, "quote"), "rich_text"), 0)),
        "quotes \" & <tags> 🎉"
    );
}

#[test]
fn notion_body_long_note_splits_into_capped_runs() {
    let long_note = "n".repeat(5000);
    let body = build_notion_body(&sample_article(), &vec![hl(1, "q", &long_note)]);
    let children = items(at(&body, "children"));
    assert_eq!(children.len(), 3);
    let runs = items(at(at(&children[2], "paragraph"), "rich_text"));
    assert_eq!(runs.len(), 3);
    for run in runs {
        let len = content(run).chars().count();
        assert!(len <= 2000, "run exceeds the limit: {len}");
        assert_eq!(at(at(run, "annotations"), "italic"), &Json::Bool(true));
    }
    let total: usize = runs.iter().map(|r| content(r).chars().count()).sum();
    assert_eq!(total, 5000);
}

#[test]
fn notion_body_overlong_quote_splits_across_blocks() {
    let huge = "q".repeat(NOTION_RUN_CHARS * NOTION_MAX_RUNS * 2 + 500);
    let body = build_notion_body(&sample_article(), &vec![hl(1, &huge, "")]);
    let children = items(at(&body, "children"));
    let quotes: Vec<&Json> = children.iter().filter(|c| kind(c) == "quote").collect();
    assert!(quotes.len() >= 3, "the long quote should span several blocks");
    let mut total_runs = 0usize;
    for q in &quotes {
        let runs = items(at(at(q, "quote"), "rich_text"));
        assert!(runs.len() <= NOTION_MAX_RUNS, "quote block exceeds run cap");
        total_runs += runs.len();
    }
    assert_eq!(total_runs, huge.chars().count().div_ceil(NOTION_RUN_CHARS));
}

#[test]
fn notion_body_overlong_note_splits_across_blocks() {
    let huge = "n".repeat(NOTION_RUN_CHARS * NOTION_MAX_RUNS + 1234);
    let body = build_notion_body(&sample_article(), &vec![hl(1, "q", &huge)]);
    let children = items(at(&body, "children"));
    let notes: Vec<&Json> = children.iter().filter(|c| kind(c) == "paragraph").collect();
    assert!(notes.len() >= 2, "the long note should span several blocks");
    for p in &notes {
        let runs = items(at(at(p, "paragraph"), "rich_text"));
        assert!(runs.len() <= NOTION_MAX_RUNS, "note block exceeds run cap");
        for run in runs {
            assert_eq!(at(at(run, "annotations"), "italic"), &Json::Bool(true));
        }
    }
}

#[test]
fn notion_rich_text_splits_long_runs() {
    let long = "x".repeat(5000);
    let runs = notion_rich_text(&long);
    assert_eq!(runs.len(), 3);
    let total: usize = runs.iter().map(|r| content(r).chars().count()).sum();
    assert_eq!(total, 5000);
}

#[test]
fn runs_one_behind_the_other_are_the_text() {
    let text: String = (0..4100).map(|i| if i % 7 == 0 { '界' } else { 'a' }).collect();
    let runs = notion_rich_text(&text);
    let joined: String = runs.iter().map(content).collect();
    assert_eq!(joined, text);
    assert_eq!(runs.len(), 3);
    assert!(notion_rich_text("").is_empty());
}

#[test]
fn notion_body_empty_highlights_just_heading() {
    let body = build_notion_body(&sample_article(), &vec![]);
    assert_eq!(items(at(&body, "children")).len(), 1);
}

#[test]
fn an_empty_quote_still_has_a_block() {
    let body = build_notion_body(&sample_article(), &vec![hl(1, "", "")]);
    let children = items(at(&body, "children"));
    assert_eq!(children.len(), 2);
    assert!(items(at(at(&children[1], "quote"), "rich_text")).is_empty());
}

// ── a whole article as a page ──

#[test]
fn notion_page_shape() {
    let body = build_notion_page("PARENT", &sample_article(), "First line.\nSecond line.");
    assert_eq!(said(at(at(&body, "parent"), "page_id")), "PARENT");
    let title = at(at(at(&body, "properties"), "title"), "title");
    assert_eq!(content(nth(title, 0)), "Rust in 2024");
    let children = items(at(&body, "children"));
    assert_eq!(children.len(), 4);
    assert_eq!(kind(&children[0]), "bookmark");
    assert_eq!(
        said(at(at(&children[0], "bookmark"), "url")),
        "https://example.com/rust"
    );
    assert_eq!(kind(&children[1]), "callout");
    assert_eq!(kind(&children[2]), "paragraph");
    assert_eq!(
        content(nth(at(at(&children[2], "paragraph"), "rich_text"), 0)),
        "First line."
    );
    assert_eq!(
        content(nth(at(at(&children[3], "paragraph"), "rich_text"), 0)),
        "Second line."
    );
}

#[test]
fn notion_page_callout_carries_metadata() {
    let body = build_notion_page("P", &sample_article(), "body");
    let callout = at(nth(at(&body, "children"), 1), "callout");
    let text = content(nth(at(callout, "rich_text"), 0));
    assert!(text.contains("Source: Example Blog"));
    assert!(text.contains("By Jane Doe"));
    assert!(text.contains("2024-01-15"));
    assert_eq!(text, "Source: Example Blog  ·  By Jane Doe  ·  2024-01-15");
    assert_eq!(said(at(at(callout, "icon"), "emoji")), "📰");
}

#[test]
fn notion_page_omits_bookmark_when_no_url() {
    let a = ExportArticle {
        title: "Untitled".to_string(),
        url: None,
        author: None,
        feed_title: "Feed".to_string(),
        published_at: None,
    };
    let body = build_notion_page("P", &a, "only line");
    let children = items(at(&body, "children"));
    assert_eq!(children.len(), 2);
    assert_eq!(kind(&children[0]), "callout");
    let meta = content(nth(at(at(&children[0], "callout"), "rich_text"), 0));
    assert_eq!(meta, "Source: Feed");
}

#[test]
fn notion_page_empty_body_has_no_paragraphs() {
    let body = build_notion_page("P", &sample_article(), "   \n\n  ");
    assert_eq!(items(at(&body, "children")).len(), 2);
    assert!(notion_paragraphs(" \n\t\n").is_empty());
}

#[test]
fn notion_page_special_characters_preserved() {
    let mut a = sample_article();
    a.title = "C# \" & <tags> 🎉".to_string();
    let body = build_notion_page("P", &a, "quotes \" & <tags> 🎉");
    let title = at(at(at(&body, "properties"), "title"), "title");
    assert_eq!(content(nth(title, 0)), "C# \" & <tags> 🎉");
    let paragraph = at(nth(at(&body, "children"), 2), "paragraph");
    assert_eq!(content(nth(at(paragraph, "rich_text"), 0)), "quotes \" & <tags> 🎉");
}

#[test]
fn notion_page_splits_long_lines() {
    let long = "x".repeat(5000);
    let body = build_notion_page("P", &sample_article(), &long);
    let paragraph = at(nth(at(&body, "children"), 2), "paragraph");
    assert_eq!(items(at(paragraph, "rich_text")).len(), 3);
}

#[test]
fn notion_page_splits_overlong_line_across_blocks() {
    let huge = "z".repeat(NOTION_RUN_CHARS * NOTION_MAX_RUNS * 2 + 1234);
    let children = notion_page_children(&sample_article(), &huge);
    let paragraphs: Vec<&Json> = children.iter().filter(|c| kind(c) == "paragraph").collect();
    assert!(paragraphs.len() >= 3, "expected the long line to be split");
    let mut total_runs = 0usize;
    for p in &paragraphs {
        let runs = items(at(at(p, "paragraph"), "rich_text"));
        assert!(runs.len() <= NOTION_MAX_RUNS, "paragraph exceeds run cap");
        total_runs += runs.len();
    }
    let expected = huge.chars().count().div_ceil(NOTION_RUN_CHARS);
    assert_eq!(total_runs, expected, "no body content was dropped");
}

fn many_lines() -> String {
    (0..300).map(|i| format!("line {i}")).collect::<Vec<_>>().join("\n")
}

#[test]
fn notion_page_caps_children_at_notion_limit() {
    let body_text = many_lines();
    let body = build_notion_page("P", &sample_article(), &body_text);
    let children = items(at(&body, "children"));
    assert_eq!(children.len(), NOTION_MAX_CHILDREN);
    let all = notion_page_children(&sample_article(), &body_text);
    assert_eq!(all.len(), 302);
    assert_eq!(&all[..NOTION_MAX_CHILDREN], children.as_slice());
}

#[test]
fn notion_body_caps_children_at_notion_limit_only_when_chunked() {
    let highlights: Vec<Highlight> = (0..150).map(|i| hl(i, "q", "")).collect();
    let body = build_notion_body(&sample_article(), &highlights);
    let children = items(at(&body, "children"));
    assert_eq!(children.len(), 151);
    let batches: Vec<_> = children.chunks(NOTION_MAX_CHILDREN).collect();
    assert_eq!(batches.len(), 2);
    assert_eq!(batches[0].len(), 100);
    assert_eq!(batches[1].len(), 51);
}

fn sent(request: &Request) -> &Vec<Json> {
    match &request.body {
        Body::Json(j) => items(at(j, "children")),
        _ => panic!("no document"),
    }
}

#[test]
fn highlights_go_out_in_batches() {
    let highlights: Vec<Highlight> = (0..150).map(|i| hl(i, "q", "")).collect();
    let batches = post_to_notion("t", "PAGE", &sample_article(), &highlights).unwrap();
    assert_eq!(batches.len(), 2);
    assert_eq!(sent(&batches[0]).len(), 100);
    assert_eq!(sent(&batches[1]).len(), 51);
    for batch in &batches {
        assert_eq!(batch.method, Method::Patch);
        assert_eq!(batch.url, "https://api.notion.com/v1/blocks/PAGE/children");
        assert_eq!(
            batch.headers,
            vec![
                ("Authorization".to_string(), "Bearer t".to_string()),
                ("Notion-Version".to_string(), "2022-06-28".to_string()),
                ("Content-Type".to_string(), "application/json".to_string()),
            ]
        );
    }
    assert_eq!(
        post_to_notion("t", "PAGE", &sample_article(), &vec![]),
        Err(AppError::Code("noHighlights".to_string()))
    );
}

#[test]
fn a_page_and_what_follows_hold_every_block() {
    let text = many_lines();
    let all = notion_page_children(&sample_article(), &text);
    let first = post_article_to_notion("t", "P", &sample_article(), &text);
    assert_eq!(first.method, Method::Post);
    assert_eq!(first.url, "https://api.notion.com/v1/pages");
    let answer = Some(object1("id", Json::text("NEW")));
    let rest = append_overflow("t", &sample_article(), &text, &answer).unwrap();
    assert_eq!(rest.len(), 3);
    assert_eq!(rest[0].url, "https://api.notion.com/v1/blocks/NEW/children");
    let mut blocks: Vec<&Json> = sent(&first).iter().collect();
    for request in &rest {
        assert!(sent(request).len() <= NOTION_MAX_CHILDREN);
        blocks.extend(sent(request));
    }
    assert_eq!(blocks, all.iter().collect::<Vec<_>>());
}

#[test]
fn a_page_without_an_id_is_an_error() {
    let text = many_lines();
    let missing = Err(AppError::Other(
        "Notion: missing page id in create response".to_string(),
    ));
    assert_eq!(append_overflow("t", &sample_article(), &text, &None), missing);
    assert_eq!(append_overflow_of("t", &sample_article(), &text, &None), missing);
    let odd = Some("{\"id\": 7}".to_string());
    assert_eq!(append_overflow_of("t", &sample_article(), &text, &odd), missing);
    let torn = Some("{\"id\":".to_string());
    assert_eq!(append_overflow_of("t", &sample_article(), &text, &torn), missing);
    let named = Some("{\"object\": \"page\", \"id\": \"NEW\"}".to_string());
    assert_eq!(
        append_overflow_of("t", &sample_article(), &text, &named).unwrap().len(),
        3
    );
    // A short page needs no answer at all.
    assert_eq!(append_overflow("t", &sample_article(), "one line", &None), Ok(vec![]));
}
