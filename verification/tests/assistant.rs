use papr::ai::{
    closing_event, extract_delta, extract_error, line_data, plain_url, read_line, stream_chat,
    AiConfig, AiEvent, ChatOutcome, LineEvent, Provider, SseReader, SseStep, MAX_SSE_BUFFER,
};
use papr::assistant::{
    ai_failed, ai_output, cmd_ask, cmd_digest, cmd_summarize, cmd_translate, load_ai,
    response_language, summary_to_save, Recent, Source,
};
use papr::cli::AxiError;
use papr::error::AppError;
use papr::json::{object1, object2, Json};
use papr::net::{Body, Method};
use papr::subscribe::{SubscribeAction, SubscribeEvent, SubscribeStage, Subscription};

fn s(text: &str) -> String {
    text.to_string()
}

fn choices(content: &str) -> Json {
    Json::List(vec![object1("delta", object1("content", Json::text(content)))])
}

// ── what a frame says ──

#[test]
fn openai_null_error_field_is_not_an_error() {
    let chunk = object2("choices", choices("hello"), "error", Json::Null);
    assert_eq!(extract_error(&chunk, Provider::OpenAi), None);
    assert_eq!(extract_delta(&chunk, Provider::OpenAi).as_deref(), Some("hello"));
}

#[test]
fn openai_real_error_object_is_surfaced() {
    let chunk = object1("error", object1("message", Json::text("rate limit exceeded")));
    assert_eq!(
        extract_error(&chunk, Provider::OpenAi).as_deref(),
        Some("rate limit exceeded")
    );
}

#[test]
fn openai_error_object_without_message_falls_back() {
    let chunk = object1("error", object1("code", Json::Number(s("500"))));
    assert_eq!(
        extract_error(&chunk, Provider::OpenAi).as_deref(),
        Some("stream error")
    );
}

#[test]
fn openai_plain_delta_chunk_has_no_error() {
    let chunk = object1("choices", choices("x"));
    assert_eq!(extract_error(&chunk, Provider::OpenAi), None);
}

#[test]
fn anthropic_error_event_is_surfaced() {
    let chunk = object2(
        "type",
        Json::text("error"),
        "error",
        object1("message", Json::text("overloaded")),
    );
    assert_eq!(
        extract_error(&chunk, Provider::Anthropic).as_deref(),
        Some("overloaded")
    );
}

#[test]
fn anthropic_content_delta_is_not_an_error() {
    let chunk = object2(
        "type",
        Json::text("content_block_delta"),
        "delta",
        object2("type", Json::text("text_delta"), "text", Json::text("world")),
    );
    assert_eq!(extract_error(&chunk, Provider::Anthropic), None);
    assert_eq!(
        extract_delta(&chunk, Provider::Anthropic).as_deref(),
        Some("world")
    );
}

#[test]
fn frames_that_say_nothing() {
    let empty = object1("error", object1("message", Json::text("")));
    assert_eq!(extract_error(&empty, Provider::OpenAi).as_deref(), Some("stream error"));
    let bare = object1("type", Json::text("error"));
    assert_eq!(extract_error(&bare, Provider::Anthropic).as_deref(), Some("stream error"));
    assert_eq!(extract_error(&empty, Provider::Anthropic), None);
    assert_eq!(extract_delta(&bare, Provider::Anthropic), None);
    assert_eq!(extract_delta(&Json::Null, Provider::OpenAi), None);
}

#[test]
fn lines_carry_documents() {
    assert_eq!(line_data(" data: {} \n").as_deref(), Some("{}"));
    assert_eq!(line_data("event: ping"), None);
    let line = |l: &str| read_line(l, Provider::OpenAi);
    assert_eq!(line("data: [DONE]"), LineEvent::Nothing);
    assert_eq!(line("data:"), LineEvent::Nothing);
    assert_eq!(line("data: {broken"), LineEvent::Nothing);
    assert_eq!(
        line("data:{\"choices\":[{\"delta\":{\"content\":\"h\\u00e9\"}}]}\r\n"),
        LineEvent::Delta(s("hé"))
    );
    assert_eq!(
        line("data: {\"error\": {\"message\": \"no\"}}"),
        LineEvent::Error(s("no"))
    );
}

// ── the stream ──

fn frame(text: &str) -> String {
    format!("event: x\ndata: {{\"choices\":[{{\"delta\":{{\"content\":\"{text}\"}}}}]}}\n\n")
}

fn drain(mut reader: SseReader) -> (SseReader, Vec<String>, Option<AppError>) {
    let mut said = vec![];
    loop {
        let (next, step) = reader.next();
        reader = next;
        match step {
            SseStep::Delta(t) => said.push(t),
            SseStep::Failed(e) => return (reader, said, Some(e)),
            SseStep::More => return (reader, said, None),
        }
    }
}

#[test]
fn a_stream_reads_the_same_however_it_is_cut() {
    let bytes = format!("{}{}data: [DONE]\n", frame("wör"), frame("ld")).into_bytes();
    for size in 1..bytes.len() + 1 {
        let mut reader = SseReader::open(Provider::OpenAi, None).unwrap();
        let mut said = vec![];
        for chunk in bytes.chunks(size) {
            let (next, more, failed) = drain(reader.take_in(&chunk.to_vec()).unwrap());
            assert_eq!(failed, None);
            reader = next;
            said.extend(more);
        }
        assert_eq!(said, vec!["wör", "ld"], "{size}");
        assert_eq!(reader.finish(true), ChatOutcome { text: s("wörld"), completed: true });
    }
}

#[test]
fn an_unfinished_line_says_nothing_yet() {
    let reader = SseReader::open(Provider::OpenAi, None).unwrap();
    let bytes = frame("a").into_bytes();
    let end = bytes.len() - 2;
    let (reader, said, _) = drain(reader.take_in(&bytes[..end].to_vec()).unwrap());
    assert!(said.is_empty());
    let (reader, said, _) = drain(reader.take_in(&b"\n".to_vec()).unwrap());
    assert_eq!(said, vec!["a"]);
    assert_eq!(reader.finish(false), ChatOutcome { text: s("a"), completed: false });
}

#[test]
fn streams_fail() {
    let e = SseReader::open(Provider::OpenAi, Some((s("401 Unauthorized"), s("no key")))).unwrap_err();
    assert_eq!(e, AppError::Other(s("AI API error 401 Unauthorized: no key")));
    let reader = SseReader::open(Provider::OpenAi, None).unwrap();
    let bytes = format!("{}data: {{\"error\":{{\"message\":\"slow down\"}}}}\n", frame("a"));
    let (_, said, failed) = drain(reader.take_in(&bytes.into_bytes()).unwrap());
    assert_eq!(said, vec!["a"]);
    assert_eq!(failed, Some(AppError::Other(s("AI stream error: slow down"))));
    let reader = SseReader::open(Provider::OpenAi, None).unwrap();
    let reader = reader.take_in(&vec![b'x'; MAX_SSE_BUFFER]).unwrap();
    assert_eq!(
        reader.take_in(&vec![b'x']).unwrap_err(),
        AppError::Other(s("AI stream error: response is not server-sent events"))
    );
}

#[test]
fn bytes_that_are_no_text_are_replaced() {
    let reader = SseReader::open(Provider::OpenAi, None).unwrap();
    let mut bytes = b"data: {\"choices\":[{\"delta\":{\"content\":\"a".to_vec();
    bytes.push(0xFF);
    bytes.extend(b"b\"}}]}\n");
    let (_, said, _) = drain(reader.take_in(&bytes).unwrap());
    assert_eq!(said, vec!["a\u{FFFD}b"]);
}

#[test]
fn listeners_hear_the_end() {
    let outcome = Ok(ChatOutcome { text: s("x"), completed: true });
    assert_eq!(closing_event(&outcome), AiEvent::Done);
    assert_eq!(
        closing_event(&Err(AppError::Other(s("boom")))),
        AiEvent::Error(s("boom"))
    );
}

// ── configuration and requests ──

#[test]
fn configurations_have_defaults() {
    let cfg = AiConfig::new(None, Some(s(" k ")), Some(s("  ")), Some(s(" / ")), "m-1").unwrap();
    assert_eq!(cfg.provider, Provider::Anthropic);
    assert_eq!(cfg.api_key, " k ");
    assert_eq!(cfg.model(), "m-1");
    assert_eq!(cfg.base_url, "https://api.anthropic.com/v1");
    let cfg = AiConfig::new(Some(s("openai")), Some(s("k")), None, Some(s(" http://l/v1// ")), "m-1").unwrap();
    assert_eq!(cfg.provider, Provider::OpenAi);
    assert_eq!(cfg.model(), "gpt-4.1-mini");
    assert_eq!(cfg.base_url, "http://l/v1");
    assert_eq!(
        AiConfig::new(None, Some(s(" \n")), None, None, "m-1"),
        Err(AppError::Code(s("noAiKey")))
    );
    assert_eq!(plain_url(Some(s("/"))), None);
    let e = load_ai(None, None, None, None, "m-1").unwrap_err();
    assert_eq!(e.message, "no AI provider configured");
    assert_eq!(e.help.len(), 2);
    assert_eq!(load_ai(None, Some(s("k")), Some(s("m")), None, "m-1").unwrap().model, "m");
}

fn field<'a>(body: &'a Body, key: &str) -> &'a Json {
    match body {
        Body::Json(j) => j.field(key).expect(key),
        _ => panic!("no document"),
    }
}

#[test]
fn each_provider_is_asked_its_way() {
    let cfg = AiConfig::new(None, Some(s("k")), Some(s("m")), None, "m-1").unwrap();
    let r = stream_chat(&cfg, "sys", "usr");
    assert_eq!(r.method, Method::Post);
    assert_eq!(r.url, "https://api.anthropic.com/v1/messages");
    assert_eq!(
        r.headers,
        vec![
            (s("x-api-key"), s("k")),
            (s("anthropic-version"), s("2023-06-01")),
            (s("content-type"), s("application/json")),
        ]
    );
    assert_eq!(r.timeout, Some(300));
    assert_eq!(field(&r.body, "model"), &Json::text("m"));
    assert_eq!(field(&r.body, "max_tokens"), &Json::Number(s("1024")));
    assert_eq!(field(&r.body, "system"), &Json::text("sys"));
    assert_eq!(field(&r.body, "stream"), &Json::Bool(true));
    let message = |role: &str, text: &str| object2("role", Json::text(role), "content", Json::text(text));
    assert_eq!(field(&r.body, "messages"), &Json::List(vec![message("user", "usr")]));

    let cfg = AiConfig::new(Some(s("openai")), Some(s("k")), Some(s("m")), None, "m-1").unwrap();
    let r = stream_chat(&cfg, "sys", "usr");
    assert_eq!(r.url, "https://api.openai.com/v1/chat/completions");
    assert_eq!(r.headers, vec![(s("Authorization"), s("Bearer k"))]);
    assert_eq!(
        field(&r.body, "messages"),
        &Json::List(vec![message("system", "sys"), message("user", "usr")])
    );
}

// ── the commands ──

#[test]
fn answers_come_in_the_users_language() {
    assert_eq!(
        response_language(&Some(s("zh"))),
        "\n\nAlways write your response in Simplified Chinese."
    );
    assert_eq!(
        response_language(&Some(s("ja"))),
        "\n\nAlways write your response in Japanese."
    );
    assert_eq!(response_language(&None), "\n\nAlways write your response in English.");
    assert_eq!(
        ai_output(&vec![(s("id"), s("1"))], " a\nb "),
        "id: 1\ntext:\n  a\n  b\n"
    );
    assert_eq!(ai_output(&vec![], ""), "text:\n  \n");
    assert_eq!(ai_failed("x"), AxiError::runtime("AI request failed: x"));
}

#[test]
fn summaries_need_a_body() {
    assert_eq!(
        cmd_summarize(1, None, "!").unwrap_err(),
        AxiError::runtime("article #1 not found")
    );
    assert_eq!(
        cmd_summarize(1, Some((s("T"), s(" "))), "!").unwrap_err(),
        AxiError::runtime("article #1 has no body to summarize")
    );
    let p = cmd_summarize(1, Some((s("T"), "x".repeat(9000))), "!").unwrap();
    assert_eq!(
        p.system,
        "You are a sharp news editor. Summarize the article so a reader can decide \
         whether to read it in full.\n\nFormat in markdown: a bold **TL;DR** one-liner, \
         then 3-5 single-idea bullets. Output only that.!"
    );
    assert_eq!(p.user, format!("Title: T\n\n{}", "x".repeat(8000)));
    assert_eq!(summary_to_save(true, " a "), Some(s("a")));
    assert_eq!(summary_to_save(true, "  "), None);
    assert_eq!(summary_to_save(false, "a"), None);
}

#[test]
fn questions_are_asked_of_articles() {
    let (p, sources) = cmd_ask("why?", &vec![], "!");
    assert_eq!(p.user, "No relevant articles were found.\n\nQuestion: why?");
    assert_eq!(sources, "none");
    let source = |id: i64| Source {
        id,
        title: format!("T{id}"),
        feed_title: s("F"),
        body: "y".repeat(1300),
    };
    let (p, sources) = cmd_ask("why?", &vec![source(1), source(2)], "!");
    let body = "y".repeat(1200);
    assert_eq!(
        p.user,
        format!(
            "Articles from the user's feeds:\n\n## T1 — F\n{body}\n\n## T2 — F\n{body}\n\n---\n\nQuestion: why?"
        )
    );
    assert_eq!(sources, "1,2");
    assert_eq!(
        p.system,
        "You answer the user's question using only the provided articles from their RSS \
         subscriptions. Cite the article titles you draw from. If the articles do not \
         contain the answer, say so plainly.!"
    );
}

#[test]
fn digests_and_translations() {
    assert_eq!(
        cmd_digest(&vec![], "!").unwrap_err(),
        "digest: 0 recent articles to brief on\n"
    );
    let recent = vec![Recent { title: s("T"), feed: s("F"), text: "z".repeat(500) }];
    let p = cmd_digest(&recent, "!").unwrap();
    assert_eq!(
        p.user,
        format!("Recent articles from my feeds:\n\n- [F] T: {}\n", "z".repeat(400))
    );
    assert_eq!(
        p.system,
        "You are the user's personal news briefer. From the recent articles, write a crisp \
         briefing: group related items into 2-4 themed sections with short headers, lead with \
         what matters most, keep it skimmable. Plain prose, no preamble.!"
    );
    assert_eq!(
        cmd_translate(1, None, "French").unwrap_err(),
        AxiError::runtime("article #1 not found")
    );
    assert_eq!(
        cmd_translate(1, Some((s("T"), s(""))), "French").unwrap_err(),
        AxiError::runtime("article #1 has no text to translate")
    );
    let p = cmd_translate(1, Some((s("T"), s("b"))), "French").unwrap();
    assert_eq!(
        p.system,
        "You are a professional translator. Translate the article into French, preserving \
         meaning, tone and paragraph structure. Output only the translation, no notes."
    );
    assert_eq!(p.user, "Title: T\n\nb");
}

// ── subscribing ──

fn outcome(run: Subscription) -> Result<String, AxiError> {
    match run.stage {
        SubscribeStage::Done(result) => result,
        other => panic!("{other:?}"),
    }
}

#[test]
fn a_feed_is_subscribed_to() {
    let mut run = Subscription::new("https://e/feed");
    assert_eq!(run.action(), SubscribeAction::Fetch(s("https://e/feed")));
    run = run.answer(SubscribeEvent::Fetched(Ok(s("https://e/feed2"))));
    assert_eq!(run.action(), SubscribeAction::Parse(s("https://e/feed2")));
    run = run.answer(SubscribeEvent::Parsed(Ok(None)));
    assert_eq!(run.action(), SubscribeAction::Find(s("https://e/feed2")));
    run = run.answer(SubscribeEvent::Found(None));
    assert_eq!(
        run.action(),
        SubscribeAction::Insert { url: s("https://e/feed2"), title: s("https://e/feed2") }
    );
    run = run.answer(SubscribeEvent::Inserted { id: 4, kind: s("rss") });
    assert_eq!(run.action(), SubscribeAction::Ingest(4));
    run = run.answer(SubscribeEvent::Ingested(9));
    assert_eq!(run.action(), SubscribeAction::Done);
    assert_eq!(
        outcome(run).unwrap(),
        "feed:\n  id: 4\n  title: https://e/feed2\n  url: https://e/feed2\n  type: rss\n  articles: 9\n\
         help[2]:\n  Run `papr list --feed 4` to read it\n  Run `papr refresh --feed 4` to fetch more later\n"
    );
}

#[test]
fn a_page_leads_to_its_feed() {
    let page = || {
        Subscription::new("https://e")
            .answer(SubscribeEvent::Fetched(Ok(s("https://e/"))))
            .answer(SubscribeEvent::Parsed(Err(s("not xml"))))
    };
    assert_eq!(page().action(), SubscribeAction::Discover(s("https://e/")));
    let none = page().answer(SubscribeEvent::Discovered(vec![]));
    assert_eq!(
        outcome(none).unwrap_err(),
        AxiError::runtime_help(
            "no feed found at https://e",
            vec![s("Pass the feed URL directly if you have it")]
        )
    );
    let found = || page().answer(SubscribeEvent::Discovered(vec![s("https://e/a"), s("https://e/b")]));
    assert_eq!(found().action(), SubscribeAction::Fetch(s("https://e/a")));
    assert_eq!(
        outcome(found().answer(SubscribeEvent::Fetched(Err(s("dns"))))).unwrap_err(),
        AxiError::runtime("could not fetch https://e/a: dns")
    );
    let fetched = found().answer(SubscribeEvent::Fetched(Ok(s("https://e/a2"))));
    let bad = fetched.answer(SubscribeEvent::Parsed(Err(s("eof"))));
    assert_eq!(
        outcome(bad).unwrap_err(),
        AxiError::runtime("discovered feed did not parse: eof")
    );
    let known = found()
        .answer(SubscribeEvent::Fetched(Ok(s("https://e/a2"))))
        .answer(SubscribeEvent::Parsed(Ok(Some(s("T")))))
        .answer(SubscribeEvent::Found(Some(3)));
    assert_eq!(
        outcome(known).unwrap(),
        "feed: #3 already subscribed (no-op)\nhelp[1]:\n  Run `papr list --feed 3` to read it\n"
    );
}

#[test]
fn subscriptions_fail() {
    let failed = Subscription::new("https://e").answer(SubscribeEvent::Fetched(Err(s("dns"))));
    assert_eq!(
        outcome(failed).unwrap_err(),
        AxiError::runtime("could not fetch https://e: dns")
    );
    let failed = Subscription::new("https://e")
        .answer(SubscribeEvent::Fetched(Ok(s("https://e"))))
        .answer(SubscribeEvent::Parsed(Ok(None)))
        .answer(SubscribeEvent::StoreFailed(s("locked")));
    assert_eq!(outcome(failed).unwrap_err(), AxiError::runtime("locked"));
}
