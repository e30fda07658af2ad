use papr::error::AppError;
use papr::json::{object1, object2, Json};
use papr::net::{Body, Method, Reply};
use papr::translate::{chunk_blocks, group_pieces};
use papr::translate_api::{
    build_request_body, default_base_url, ensure_success, parse_response, provider_lang_code,
    translate_html, translate_html_youdao, translated, youdao_input, youdao_sign, TranslateConfig,
    TranslateProvider, TRANSLATE_CHUNK_BUDGET,
};
use papr::translate_llm::{language_name, strip_code_fence, translate_system_prompt};

fn at<'a>(j: &'a Json, key: &str) -> &'a Json {
    j.field(key).expect(key)
}

fn said(j: &Json) -> String {
    j.as_text().expect("text")
}

fn list(items: Vec<Json>) -> Json {
    Json::List(items)
}

// ── batches ──

#[test]
fn groups_multiple_blocks_into_one_batch_under_budget() {
    let out = chunk_blocks("<p>a</p><p>b</p><p>c</p>", 1000);
    assert_eq!(out, vec!["<p>a</p><p>b</p><p>c</p>"]);
}

#[test]
fn splits_into_batches_when_over_budget() {
    let out = chunk_blocks("<p>a</p><p>b</p><p>c</p>", 8);
    assert_eq!(out, vec!["<p>a</p>", "<p>b</p>", "<p>c</p>"]);
    assert_eq!(out.concat(), "<p>a</p><p>b</p><p>c</p>");
}

#[test]
fn never_splits_a_single_oversized_block() {
    let big = format!("<p>{}</p>", "x".repeat(100));
    let out = chunk_blocks(&big, 8);
    assert_eq!(out, vec![big]);
}

#[test]
fn unwraps_a_single_generic_container() {
    let out = chunk_blocks("<div><p>a</p><p>b</p></div>", 8);
    assert_eq!(out, vec!["<p>a</p>", "<p>b</p>"]);
}

#[test]
fn unwraps_nested_generic_containers() {
    let out = chunk_blocks("<div><section><p>a</p><p>b</p></section></div>", 8);
    assert_eq!(out, vec!["<p>a</p>", "<p>b</p>"]);
}

#[test]
fn does_not_unwrap_structural_containers() {
    let out = chunk_blocks("<ul><li>a</li><li>b</li></ul>", 1000);
    assert_eq!(out, vec!["<ul><li>a</li><li>b</li></ul>"]);
}

#[test]
fn keeps_images_inside_their_block() {
    let html = r#"<p>intro</p><figure><img src="https://e.com/a.png"></figure>"#;
    let out = chunk_blocks(html, 8);
    assert_eq!(out.len(), 2);
    assert!(out[1].contains("https://e.com/a.png"));
}

#[test]
fn empty_or_whitespace_input_yields_no_batches() {
    assert!(chunk_blocks("", 1000).is_empty());
    assert!(chunk_blocks("   \n  ", 1000).is_empty());
}

#[test]
fn bare_text_is_a_single_batch() {
    assert_eq!(chunk_blocks("just text", 1000), vec!["just text"]);
}

#[test]
fn text_beside_a_wrapper_is_kept() {
    assert_eq!(
        chunk_blocks("intro<div><p>a</p></div>", 1000),
        vec!["intro<div><p>a</p></div>"]
    );
    assert_eq!(
        chunk_blocks("<div><p>a</p></div>outro", 8),
        vec!["<div><p>a</p></div>", "outro"]
    );
    // A blank text or a comment beside the wrapper says nothing.
    assert_eq!(chunk_blocks(" <div><p>a</p><p>b</p></div><!-- c -->\n", 8), vec!["<p>a</p>", "<p>b</p>"]);
    assert_eq!(
        chunk_blocks("<div>x<section><p>a</p></section></div>", 1000),
        vec!["x<section><p>a</p></section>"]
    );
}

#[test]
fn no_split_has_fewer_batches() {
    let pieces: Vec<String> = ["aa", "b", "cccc", "d", "ee", "f"].iter().map(|s| s.to_string()).collect();
    for budget in 1..12 {
        let got = group_pieces(&pieces, budget).len();
        // Every way to cut between neighbours, one bit for each gap.
        for cuts in 0..1u32 << (pieces.len() - 1) {
            let mut groups: Vec<Vec<&str>> = vec![vec![pieces[0].as_str()]];
            for (i, piece) in pieces.iter().enumerate().skip(1) {
                if cuts >> (i - 1) & 1 == 1 {
                    groups.push(vec![]);
                }
                groups.last_mut().unwrap().push(piece);
            }
            if groups.iter().all(|g| g.len() == 1 || g.concat().len() <= budget) {
                assert!(got <= groups.len(), "{budget} {groups:?}");
            }
        }
    }
}

#[test]
fn batches_hold_every_piece_in_order() {
    let pieces: Vec<String> = ["aa", "b", "ccccc", "", "d", "eé"].iter().map(|s| s.to_string()).collect();
    for budget in 0..12 {
        let out = group_pieces(&pieces, budget);
        assert_eq!(out.concat(), "aabcccccdeé");
        for batch in &out {
            assert!(!batch.is_empty());
            assert!(batch.len() <= budget || pieces.contains(batch), "{batch} at {budget}");
        }
    }
    assert_eq!(group_pieces(&pieces, 3), vec!["aab", "ccccc", "d", "eé"]);
    assert!(group_pieces(&vec![], 8).is_empty());
}

// ── the configuration ──

#[test]
fn deepl_free_key_picks_the_free_endpoint() {
    let cfg =
        TranslateConfig::new(Some("deepl".into()), Some("abc:fx".into()), None, None).unwrap();
    assert_eq!(cfg.base_url, "https://api-free.deepl.com");
}

#[test]
fn deepl_paid_key_picks_the_paid_endpoint() {
    let cfg =
        TranslateConfig::new(Some("deepl".into()), Some("abc123".into()), None, None).unwrap();
    assert_eq!(cfg.base_url, "https://api.deepl.com");
}

#[test]
fn config_trims_key_and_base_url() {
    let cfg = TranslateConfig::new(
        Some("google".into()),
        Some("  key123\n".into()),
        None,
        Some(" https://example.com/ ".into()),
    )
    .unwrap();
    assert_eq!(cfg.api_key, "key123");
    assert_eq!(cfg.base_url, "https://example.com");
}

#[test]
fn deepl_requires_a_key() {
    match TranslateConfig::new(Some("deepl".into()), Some("  \n".into()), None, None) {
        Ok(_) => panic!("a blank key must be rejected for DeepL"),
        Err(e) => assert!(e.message().contains("noTranslateKey")),
    }
}

#[test]
fn youdao_defaults_endpoint_and_requires_a_secret() {
    let cfg = TranslateConfig::new(
        Some("youdao".into()),
        Some("app-key".into()),
        Some("app-secret".into()),
        None,
    )
    .unwrap();
    assert_eq!(cfg.provider, TranslateProvider::Youdao);
    assert_eq!(cfg.base_url, "https://openapi.youdao.com");

    match TranslateConfig::new(Some("youdao".into()), Some("app-key".into()), None, None) {
        Ok(_) => panic!("Youdao requires an appSecret"),
        Err(e) => assert!(e.message().contains("noTranslateSecret")),
    }
}

#[test]
fn compatible_allows_a_keyless_endpoint() {
    let cfg = TranslateConfig::new(
        Some("compatible".into()),
        None,
        None,
        Some("https://lt.example".into()),
    )
    .unwrap();
    assert_eq!(cfg.provider, TranslateProvider::Compatible);
    assert!(cfg.api_key.is_empty());
}

#[test]
fn compatible_requires_a_base_url() {
    match TranslateConfig::new(Some("compatible".into()), Some("k".into()), None, None) {
        Ok(_) => panic!("a compatible endpoint has no default base URL"),
        Err(e) => assert!(e.message().contains("noTranslateEndpoint")),
    }
}

#[test]
fn services_go_by_their_settings() {
    assert_eq!(TranslateProvider::parse(None), TranslateProvider::DeepL);
    assert_eq!(TranslateProvider::parse(Some("Google")), TranslateProvider::DeepL);
    assert_eq!(TranslateProvider::parse(Some("google")), TranslateProvider::Google);
    assert_eq!(
        TranslateProvider::parse(Some("libretranslate")),
        TranslateProvider::Compatible
    );
    assert_eq!(
        default_base_url(TranslateProvider::Google, ""),
        Some("https://translation.googleapis.com")
    );
    assert_eq!(default_base_url(TranslateProvider::Compatible, "k"), None);
    assert_eq!(TRANSLATE_CHUNK_BUDGET, 8000);
}

// ── language codes ──

#[test]
fn deepl_codes_are_uppercased_with_variants() {
    assert_eq!(provider_lang_code(TranslateProvider::DeepL, "en"), "EN-US");
    assert_eq!(provider_lang_code(TranslateProvider::DeepL, "pt-BR"), "PT-BR");
    assert_eq!(provider_lang_code(TranslateProvider::DeepL, "zh-Hans"), "ZH");
    assert_eq!(provider_lang_code(TranslateProvider::DeepL, "de"), "DE");
    assert_eq!(provider_lang_code(TranslateProvider::DeepL, "no"), "NB");
}

#[test]
fn google_codes_are_bcp47() {
    assert_eq!(provider_lang_code(TranslateProvider::Google, "zh-Hans"), "zh-CN");
    assert_eq!(provider_lang_code(TranslateProvider::Google, "zh-Hant"), "zh-TW");
    assert_eq!(provider_lang_code(TranslateProvider::Google, "pt-BR"), "pt");
    assert_eq!(provider_lang_code(TranslateProvider::Google, "ja"), "ja");
}

#[test]
fn compatible_codes_are_bare_iso() {
    assert_eq!(provider_lang_code(TranslateProvider::Compatible, "zh-Hans"), "zh");
    assert_eq!(provider_lang_code(TranslateProvider::Compatible, "zh-Hant"), "zh");
    assert_eq!(provider_lang_code(TranslateProvider::Compatible, "fr"), "fr");
    assert_eq!(provider_lang_code(TranslateProvider::Compatible, "no"), "nb");
}

#[test]
fn youdao_codes_spell_chinese_specially() {
    assert_eq!(provider_lang_code(TranslateProvider::Youdao, "zh-Hans"), "zh-CHS");
    assert_eq!(provider_lang_code(TranslateProvider::Youdao, "zh-Hant"), "zh-CHT");
    assert_eq!(provider_lang_code(TranslateProvider::Youdao, "ja"), "ja");
    assert_eq!(provider_lang_code(TranslateProvider::Youdao, "pt-BR"), "pt");
}

#[test]
fn other_codes_fall_back_to_the_language() {
    assert_eq!(provider_lang_code(TranslateProvider::DeepL, "pt"), "PT-PT");
    assert_eq!(provider_lang_code(TranslateProvider::DeepL, "zh-Hant"), "ZH-HANT");
    assert_eq!(provider_lang_code(TranslateProvider::DeepL, "fr-CA"), "FR");
    assert_eq!(provider_lang_code(TranslateProvider::DeepL, "straße"), "STRASSE");
    assert_eq!(provider_lang_code(TranslateProvider::DeepL, ""), "");
    assert_eq!(provider_lang_code(TranslateProvider::Compatible, "sr-Latn-RS"), "sr");
    assert_eq!(provider_lang_code(TranslateProvider::Google, "-x"), "");
}

// ── requests ──

#[test]
fn deepl_body_uses_html_tag_handling() {
    let b = build_request_body(TranslateProvider::DeepL, "<p>hi</p>", "ZH");
    assert_eq!(said(at(&b, "text").item(0).unwrap()), "<p>hi</p>");
    assert_eq!(said(at(&b, "target_lang")), "ZH");
    assert_eq!(said(at(&b, "tag_handling")), "html");
}

#[test]
fn google_body_uses_html_format() {
    let b = build_request_body(TranslateProvider::Google, "<p>hi</p>", "zh-CN");
    assert_eq!(said(at(&b, "q")), "<p>hi</p>");
    assert_eq!(said(at(&b, "target")), "zh-CN");
    assert_eq!(said(at(&b, "format")), "html");
}

#[test]
fn compatible_body_carries_no_key() {
    let b = build_request_body(TranslateProvider::Compatible, "<p>hi</p>", "zh");
    assert_eq!(said(at(&b, "q")), "<p>hi</p>");
    assert_eq!(said(at(&b, "target")), "zh");
    assert_eq!(said(at(&b, "format")), "html");
    assert!(b.field("api_key").is_none());
}

fn config(provider: &str, url: Option<&str>) -> TranslateConfig {
    TranslateConfig::new(
        Some(provider.to_string()),
        Some("k".to_string()),
        Some("s".to_string()),
        url.map(|u| u.to_string()),
    )
    .unwrap()
}

#[test]
fn each_service_gets_the_key_in_its_place() {
    let deepl = translate_html(&config("deepl", None), "<p>hi</p>", "de", 0, 0);
    assert_eq!(deepl.method, Method::Post);
    assert_eq!(deepl.url, "https://api.deepl.com/v2/translate");
    assert_eq!(
        deepl.headers,
        vec![("Authorization".to_string(), "DeepL-Auth-Key k".to_string())]
    );
    assert_eq!(deepl.timeout, Some(120));
    assert_eq!(
        deepl.body,
        Body::Json(build_request_body(TranslateProvider::DeepL, "<p>hi</p>", "DE"))
    );

    let google = translate_html(&config("google", None), "x", "zh-Hans", 0, 0);
    assert_eq!(
        google.url,
        "https://translation.googleapis.com/language/translate/v2?key=k"
    );
    assert!(google.headers.is_empty());

    let own = translate_html(&config("compatible", Some("https://lt/")), "x", "no", 0, 0);
    assert_eq!(own.url, "https://lt/translate");
    match &own.body {
        Body::Json(b) => {
            assert_eq!(said(at(b, "api_key")), "k");
            assert_eq!(said(at(b, "target")), "nb");
            assert_eq!(said(at(b, "source")), "auto");
        }
        _ => panic!("no document"),
    }
    let mut keyless = config("compatible", Some("https://lt"));
    keyless.api_key = String::new();
    assert_eq!(
        translate_html(&keyless, "x", "no", 0, 0).body,
        Body::Json(build_request_body(TranslateProvider::Compatible, "x", "nb"))
    );
}

#[test]
fn youdao_requests_are_signed_forms() {
    let cfg = config("youdao", None);
    let request = translate_html(&cfg, "hello", "zh-Hans", 1_700_000_000, 5);
    assert_eq!(request, translate_html_youdao(&cfg, "hello", "zh-CHS", 1_700_000_000, 5));
    assert_eq!(request.url, "https://openapi.youdao.com/translate_html");
    assert_eq!(request.timeout, Some(120));
    let sign = youdao_sign("k", "hello", "1700000000000000005", "1700000000", "s");
    let expected: Vec<(String, String)> = [
        ("q", "hello"),
        ("from", "auto"),
        ("to", "zh-CHS"),
        ("appKey", "k"),
        ("salt", "1700000000000000005"),
        ("sign", sign.as_str()),
        ("signType", "v3"),
        ("curtime", "1700000000"),
    ]
    .iter()
    .map(|(k, v)| (k.to_string(), v.to_string()))
    .collect();
    assert_eq!(request.body, Body::Form(expected));
}

// ── answers ──

#[test]
fn parses_deepl_response() {
    let v = object1("translations", list(vec![object1("text", Json::text("<p>你好</p>"))]));
    assert_eq!(parse_response(TranslateProvider::DeepL, &v).unwrap(), "<p>你好</p>");
}

#[test]
fn parses_google_response() {
    let v = object1(
        "data",
        object1(
            "translations",
            list(vec![object1("translatedText", Json::text("<p>你好</p>"))]),
        ),
    );
    assert_eq!(parse_response(TranslateProvider::Google, &v).unwrap(), "<p>你好</p>");
}

#[test]
fn parses_compatible_response() {
    let v = object1("translatedText", Json::text("<p>你好</p>"));
    assert_eq!(parse_response(TranslateProvider::Compatible, &v).unwrap(), "<p>你好</p>");
}

#[test]
fn missing_text_is_an_error() {
    let v = object1("unexpected", Json::Bool(true));
    assert!(parse_response(TranslateProvider::DeepL, &v).is_err());
    for provider in [TranslateProvider::DeepL, TranslateProvider::Google, TranslateProvider::Compatible] {
        assert_eq!(
            parse_response(provider, &v),
            Err(AppError::Other("Translation API returned no text".to_string()))
        );
    }
}

#[test]
fn parses_youdao_success_and_surfaces_errors() {
    let ok = object2("errorCode", Json::text("0"), "data", Json::text("<p>你好</p>"));
    assert_eq!(parse_response(TranslateProvider::Youdao, &ok).unwrap(), "<p>你好</p>");
    let bad = object2("errorCode", Json::text("401"), "data", Json::text(""));
    let err = parse_response(TranslateProvider::Youdao, &bad).unwrap_err();
    assert!(err.message().contains("401"), "code not surfaced: {err:?}");
    let none = object1("data", Json::text("x"));
    assert_eq!(
        parse_response(TranslateProvider::Youdao, &none),
        Err(AppError::Other("Youdao error ".to_string()))
    );
}

#[test]
fn an_exchange_ends_in_a_translation_or_an_error() {
    let good = Reply::Body("{\"translations\": [{\"text\": \"hallo\"}]}".to_string());
    assert_eq!(translated(TranslateProvider::DeepL, good), Ok("hallo".to_string()));
    let page = Reply::Body("<html>".to_string());
    assert_eq!(
        translated(TranslateProvider::DeepL, page),
        Err(AppError::Network("error decoding response body".to_string()))
    );
    let refused = Reply::Refused {
        status: "403 Forbidden".to_string(),
        detail: "quota".to_string(),
        message: "m".to_string(),
    };
    assert_eq!(
        translated(TranslateProvider::Google, refused),
        Err(AppError::Other("Translation API error 403 Forbidden: quota".to_string()))
    );
    assert_eq!(
        ensure_success(Reply::Failed("dns".to_string())),
        Err(AppError::Network("dns".to_string()))
    );
    assert_eq!(
        ensure_success(Reply::Broken("cut".to_string())),
        Err(AppError::Network("cut".to_string()))
    );
}

// ── the signature ──

#[test]
fn youdao_input_passes_short_text_through() {
    assert_eq!(youdao_input("hello"), "hello");
    assert_eq!(youdao_input(&"x".repeat(20)), "x".repeat(20));
}

#[test]
fn youdao_input_truncates_long_text_by_char() {
    let q: String = ('a'..='y').collect();
    let got = youdao_input(&q);
    assert_eq!(got, "abcdefghij25pqrstuvwxy");
    let zh = "一二三四五六七八九十壹贰叁肆伍陆柒捌玖拾";
    assert_eq!(youdao_input(zh), zh);
    let zh21 = format!("{zh}甲");
    assert!(youdao_input(&zh21).starts_with("一二三四五六七八九十"));
    assert!(youdao_input(&zh21).contains("21"));
}

#[test]
fn youdao_sign_is_a_lowercase_hex_sha256() {
    let sign = youdao_sign("appkey", "hello", "salt", "1700000000", "secret");
    assert_eq!(sign.len(), 64, "sha256 hex is 64 chars: {sign}");
    assert!(sign.chars().all(|c| c.is_ascii_hexdigit() && !c.is_uppercase()));
    assert_eq!(sign, youdao_sign("appkey", "hello", "salt", "1700000000", "secret"));
    assert_ne!(sign, youdao_sign("appkey", "hello", "salt", "1700000000", "other"));
}

#[test]
fn the_signature_is_the_hash_of_its_parts() {
    // The hash of the empty text, and of "abc".
    assert_eq!(
        youdao_sign("", "", "", "", ""),
        "e3b0c44298fc1c149afbf4c8996fb92427ae41e4649b934ca495991b7852b855"
    );
    assert_eq!(
        youdao_sign("a", "b", "c", "", ""),
        "ba7816bf8f01cfea414140de5dae2223b00361a396177a9cb410ff61f20015ad"
    );
    assert_eq!(
        youdao_sign("", "", "a", "b", "c"),
        "ba7816bf8f01cfea414140de5dae2223b00361a396177a9cb410ff61f20015ad"
    );
}

// ── translation by the model ──

#[test]
fn language_name_maps_codes_with_english_fallback() {
    assert_eq!(language_name("zh-Hans"), "Simplified Chinese");
    assert_eq!(language_name("zh-Hant"), "Traditional Chinese");
    assert_eq!(language_name("ja"), "Japanese");
    assert_eq!(language_name("pt-BR"), "Brazilian Portuguese");
    assert_eq!(language_name("en"), "English");
    assert_eq!(language_name("xx"), "English");
}

#[test]
fn every_offered_language_has_a_name() {
    let names = [
        ("ar", "Arabic"),
        ("bg", "Bulgarian"),
        ("cs", "Czech"),
        ("da", "Danish"),
        ("de", "German"),
        ("el", "Greek"),
        ("es", "Spanish"),
        ("et", "Estonian"),
        ("fi", "Finnish"),
        ("fr", "French"),
        ("he", "Hebrew"),
        ("hi", "Hindi"),
        ("hu", "Hungarian"),
        ("id", "Indonesian"),
        ("it", "Italian"),
        ("ko", "Korean"),
        ("lt", "Lithuanian"),
        ("lv", "Latvian"),
        ("nl", "Dutch"),
        ("no", "Norwegian"),
        ("pl", "Polish"),
        ("pt", "Portuguese"),
        ("ro", "Romanian"),
        ("ru", "Russian"),
        ("sk", "Slovak"),
        ("sl", "Slovenian"),
        ("sv", "Swedish"),
        ("th", "Thai"),
        ("tr", "Turkish"),
        ("uk", "Ukrainian"),
        ("vi", "Vietnamese"),
    ];
    for (code, name) in names {
        assert_eq!(language_name(code), name);
    }
}

#[test]
fn prompt_names_the_target_language() {
    let p = translate_system_prompt("Simplified Chinese");
    assert!(p.contains("Simplified Chinese"), "missing language: {p}");
}

#[test]
fn prompt_demands_html_be_preserved() {
    let p = translate_system_prompt("Japanese");
    let lower = p.to_lowercase();
    assert!(lower.contains("html"), "no HTML mention: {p}");
    assert!(
        lower.contains("preserve") || lower.contains("keep"),
        "no preserve directive: {p}"
    );
}

#[test]
fn the_model_is_asked_in_these_words() {
    let prompt = papr::translate_llm::translate_html("<p>hi</p>", "ja");
    assert_eq!(prompt.user, "<p>hi</p>");
    assert_eq!(
        prompt.system,
        "You are a professional translator. Translate the text content of the \
         HTML fragment into Japanese.\n\n\
         Rules:\n\
         - Preserve every HTML tag, attribute, and the overall structure exactly.\n\
         - Translate only human-readable text; do not translate code or URLs.\n\
         - Keep images, links, and all other markup intact.\n\
         - Output only the translated HTML fragment: no preamble, no code fences."
    );
}

#[test]
fn strips_language_tagged_fence() {
    assert_eq!(strip_code_fence("```html\n<p>x</p>\n```"), "<p>x</p>");
}

#[test]
fn strips_bare_fence() {
    assert_eq!(strip_code_fence("```\n<p>x</p>\n```"), "<p>x</p>");
}

#[test]
fn leaves_unfenced_content_untouched() {
    assert_eq!(strip_code_fence("<p>x</p>"), "<p>x</p>");
    assert_eq!(strip_code_fence("  <p>x</p>  "), "<p>x</p>");
}

#[test]
fn odd_fences() {
    assert_eq!(strip_code_fence("```html\n<p>x</p>"), "<p>x</p>");
    assert_eq!(strip_code_fence("```<p>x</p>```"), "<p>x</p>");
    assert_eq!(strip_code_fence("``` "), "");
    assert_eq!(strip_code_fence("```````"), "`");
    assert_eq!(strip_code_fence(" ```\n a\n b \n``` "), "a\n b");
}
