//! Article translation by a dedicated machine-translation API: DeepL, Google
//! Cloud Translation, Youdao, or an endpoint compatible with LibreTranslate,
//! each with the user's own key. They take an HTML fragment and give it back
//! translated, its markup kept.

use vstd::prelude::*;
use vstd::utf8::encode_utf8;
use sha2::Digest;
use crate::ai::{plain_root, plain_url};
use crate::error::{text_outcome, AppError, ErrorView};
use crate::json::{
    field_in, fields, item_in, json_document, list1, object3, parse, put, text_in, tree_of, Json,
    JsonTree,
};
use crate::net::{pairs, pairs1, put_pair, Body, BodyView, Method, Reply, Request, RequestView};
use crate::text;

verus! {

/// How many seconds a translation request may take.
pub const TRANSLATE_REQUEST_TIMEOUT: u64 = 120;

/// How many characters of input one batch is made for.
pub const TRANSLATE_CHUNK_BUDGET: usize = 8000;

/// A translation service.
#[derive(Clone, Copy, Debug, PartialEq, Eq, Structural)]
pub enum TranslateProvider {
    DeepL,
    Google,
    /// An endpoint compatible with LibreTranslate.
    Compatible,
    /// Youdao's translation of web pages: its requests are signed forms.
    Youdao,
}

/// The service that a setting names; DeepL where it names none.
pub open spec fn provider_of(setting: Option<Seq<char>>) -> TranslateProvider {
    if setting == Some("google"@) {
        TranslateProvider::Google
    } else if setting == Some("compatible"@) || setting == Some("libretranslate"@) {
        TranslateProvider::Compatible
    } else if setting == Some("youdao"@) {
        TranslateProvider::Youdao
    } else {
        TranslateProvider::DeepL
    }
}

impl TranslateProvider {
    /// The service that a setting names; DeepL where it names none.
    pub fn parse(s: Option<&str>) -> (r: Self)
        ensures
            r == provider_of(text::str_of(s)),
    {
        match s {
            Some(s) => if text::same(s, "google") {
                TranslateProvider::Google
            } else if text::same(s, "compatible") || text::same(s, "libretranslate") {
                TranslateProvider::Compatible
            } else if text::same(s, "youdao") {
                TranslateProvider::Youdao
            } else {
                TranslateProvider::DeepL
            },
            None => TranslateProvider::DeepL,
        }
    }
}

/// A resolved configuration. `api_secret` is what a request is signed with,
/// and `base_url` has no slash at its end.
#[derive(Debug, PartialEq, Eq)]
pub struct TranslateConfig {
    pub provider: TranslateProvider,
    pub api_key: String,
    pub api_secret: String,
    pub base_url: String,
}

/// What a [`TranslateConfig`] says.
pub struct ConfigView {
    pub provider: TranslateProvider,
    pub api_key: Seq<char>,
    pub api_secret: Seq<char>,
    pub base_url: Seq<char>,
}

impl View for TranslateConfig {
    type V = ConfigView;

    open spec fn view(&self) -> ConfigView {
        ConfigView {
            provider: self.provider,
            api_key: self.api_key@,
            api_secret: self.api_secret@,
            base_url: self.base_url@,
        }
    }
}

/// A text without white space around it, where anything is left of it.
pub open spec fn pasted(s: Option<Seq<char>>) -> Option<Seq<char>> {
    text::nonempty_of(text::trimmed_of(s))
}

fn paste(s: Option<String>) -> (r: Option<String>)
    ensures
        text::view_of(r) == pasted(text::view_of(s)),
{
    match s {
        Some(s) => text::nonempty(Some(text::trim(s.as_str()))),
        None => None,
    }
}

/// The official root of a service. DeepL's depends on whether the key is one
/// of its free ones; a compatible endpoint has none.
pub open spec fn official_root(provider: TranslateProvider, api_key: Seq<char>) -> Option<Seq<char>> {
    match provider {
        TranslateProvider::DeepL => if text::ends(api_key, ":fx"@) {
            Some("https://api-free.deepl.com"@)
        } else {
            Some("https://api.deepl.com"@)
        },
        TranslateProvider::Google => Some("https://translation.googleapis.com"@),
        TranslateProvider::Youdao => Some("https://openapi.youdao.com"@),
        TranslateProvider::Compatible => None,
    }
}

/// The official root of a service, where it has one.
pub fn default_base_url(provider: TranslateProvider, api_key: &str) -> (r: Option<&'static str>)
    ensures
        text::str_of(r) == official_root(provider, api_key@),
{
    match provider {
        TranslateProvider::DeepL => if text::ends_with(api_key, ":fx") {
            Some("https://api-free.deepl.com")
        } else {
            Some("https://api.deepl.com")
        },
        TranslateProvider::Google => Some("https://translation.googleapis.com"),
        TranslateProvider::Youdao => Some("https://openapi.youdao.com"),
        TranslateProvider::Compatible => None,
    }
}

/// The configuration that raw settings make. A key is needed, but for a
/// compatible endpoint; Youdao needs a secret too; and a compatible endpoint
/// needs a URL.
pub open spec fn config_of(
    provider: Option<Seq<char>>,
    api_key: Option<Seq<char>>,
    api_secret: Option<Seq<char>>,
    base_url: Option<Seq<char>>,
) -> Result<ConfigView, ErrorView> {
    let p = provider_of(provider);
    let key = text::or_else(pasted(api_key), Seq::empty());
    let secret = text::or_else(pasted(api_secret), Seq::empty());
    if p != TranslateProvider::Compatible && key.len() == 0 {
        Err(ErrorView::Code("noTranslateKey"@))
    } else if p == TranslateProvider::Youdao && secret.len() == 0 {
        Err(ErrorView::Code("noTranslateSecret"@))
    } else {
        match (plain_root(base_url), official_root(p, key)) {
            (Some(url), _) => Ok(
                ConfigView { provider: p, api_key: key, api_secret: secret, base_url: url },
            ),
            (None, Some(url)) => Ok(
                ConfigView { provider: p, api_key: key, api_secret: secret, base_url: url },
            ),
            (None, None) => Err(ErrorView::Code("noTranslateEndpoint"@)),
        }
    }
}

impl TranslateConfig {
    /// The configuration that raw settings make.
    pub fn new(
        provider: Option<String>,
        api_key: Option<String>,
        api_secret: Option<String>,
        base_url: Option<String>,
    ) -> (r: Result<Self, AppError>)
        ensures
            config_of(
                text::view_of(provider),
                text::view_of(api_key),
                text::view_of(api_secret),
                text::view_of(base_url),
            ) == (match r {
                Ok(cfg) => Ok(cfg@),
                Err(e) => Err(e@),
            }),
    {
        let service = TranslateProvider::parse(text::slice_of(&provider));
        let none = "";
        proof {
            reveal_strlit("");
            assert(none@ =~= Seq::<char>::empty());
        }
        let key = text::or(paste(api_key), none);
        if service != TranslateProvider::Compatible && key.as_str().is_empty() {
            return Err(AppError::code("noTranslateKey"));
        }
        let secret = text::or(paste(api_secret), none);
        if service == TranslateProvider::Youdao && secret.as_str().is_empty() {
            return Err(AppError::code("noTranslateSecret"));
        }
        let url = match plain_url(base_url) {
            Some(url) => url,
            None => match default_base_url(service, key.as_str()) {
                Some(url) => url.to_owned(),
                None => {
                    return Err(AppError::code("noTranslateEndpoint"));
                },
            },
        };
        Ok(TranslateConfig { provider: service, api_key: key, api_secret: secret, base_url: url })
    }
}

// ───────────────────────────── language codes ─────────────────────────────

/// A character of ASCII in upper case.
pub open spec fn ascii_capital(c: char) -> char {
    if 'a' <= c && c <= 'z' {
        (c as int - 32) as char
    } else {
        c
    }
}

/// All characters are ASCII.
pub open spec fn is_plain(s: Seq<char>) -> bool {
    forall|i: int| 0 <= i < s.len() ==> (#[trigger] s[i] as int) < 128
}

/// The text that `str::to_uppercase` makes of a text.
pub uninterp spec fn upper_case(s: Seq<char>) -> Seq<char>;

/// `str::to_uppercase`: the result is fixed by the text, and of a text in
/// ASCII it is the text with each small letter replaced by its capital.
#[verifier::external_body]
fn to_upper(s: &str) -> (r: String)
    ensures
        r@ == upper_case(s@),
        is_plain(s@) ==> r@ == s@.map_values(|c: char| ascii_capital(c)),
{
    s.to_uppercase()
}

/// The language in a code: what stands before its first hyphen.
pub open spec fn subtag(code: Seq<char>) -> Seq<char> {
    text::pieces(code, '-')[0]
}

/// The code that a service has for a language.
pub open spec fn service_code(provider: TranslateProvider, code: Seq<char>) -> Seq<char> {
    match provider {
        TranslateProvider::DeepL => if code == "en"@ {
            "EN-US"@
        } else if code == "pt"@ {
            "PT-PT"@
        } else if code == "pt-BR"@ {
            "PT-BR"@
        } else if code == "no"@ {
            "NB"@
        } else if code == "zh-Hans"@ {
            "ZH"@
        } else if code == "zh-Hant"@ {
            "ZH-HANT"@
        } else {
            upper_case(subtag(code))
        },
        TranslateProvider::Google => if code == "zh-Hans"@ {
            "zh-CN"@
        } else if code == "zh-Hant"@ {
            "zh-TW"@
        } else if code == "pt-BR"@ {
            "pt"@
        } else {
            subtag(code)
        },
        TranslateProvider::Compatible => if code == "zh-Hans"@ || code == "zh-Hant"@ {
            "zh"@
        } else if code == "no"@ {
            "nb"@
        } else {
            subtag(code)
        },
        TranslateProvider::Youdao => if code == "zh-Hans"@ {
            "zh-CHS"@
        } else if code == "zh-Hant"@ {
            "zh-CHT"@
        } else {
            subtag(code)
        },
    }
}

fn language_of(code: &str) -> (r: String)
    ensures
        r@ == subtag(code@),
{
    let parts = text::split(code, '-');
    assert(text::views(parts@)[0] == parts@[0]@);
    parts[0].clone()
}

/// The code that a service has for a language.
pub fn provider_lang_code(provider: TranslateProvider, app_code: &str) -> (r: String)
    ensures
        r@ == service_code(provider, app_code@),
        provider == TranslateProvider::DeepL && is_plain(subtag(app_code@)) ==> upper_case(
            subtag(app_code@),
        ) == subtag(app_code@).map_values(|c: char| ascii_capital(c)),
{
    let base = language_of(app_code);
    match provider {
        TranslateProvider::DeepL => {
            let upper = to_upper(base.as_str());
            if text::same(app_code, "en") {
                "EN-US".to_owned()
            } else if text::same(app_code, "pt") {
                "PT-PT".to_owned()
            } else if text::same(app_code, "pt-BR") {
                "PT-BR".to_owned()
            } else if text::same(app_code, "no") {
                "NB".to_owned()
            } else if text::same(app_code, "zh-Hans") {
                "ZH".to_owned()
            } else if text::same(app_code, "zh-Hant") {
                "ZH-HANT".to_owned()
            } else {
                upper
            }
        },
        TranslateProvider::Google => if text::same(app_code, "zh-Hans") {
            "zh-CN".to_owned()
        } else if text::same(app_code, "zh-Hant") {
            "zh-TW".to_owned()
        } else if text::same(app_code, "pt-BR") {
            "pt".to_owned()
        } else {
            base
        },
        TranslateProvider::Compatible => if text::same(app_code, "zh-Hans") || text::same(
            app_code,
            "zh-Hant",
        ) {
            "zh".to_owned()
        } else if text::same(app_code, "no") {
            "nb".to_owned()
        } else {
            base
        },
        TranslateProvider::Youdao => if text::same(app_code, "zh-Hans") {
            "zh-CHS".to_owned()
        } else if text::same(app_code, "zh-Hant") {
            "zh-CHT".to_owned()
        } else {
            base
        },
    }
}

// ───────────────────────── requests with a JSON body ─────────────────────────

/// The body that asks for one batch. It holds no key.
pub open spec fn request_body(
    provider: TranslateProvider,
    html: Seq<char>,
    target: Seq<char>,
) -> Seq<(Seq<char>, JsonTree)> {
    match provider {
        TranslateProvider::DeepL => seq![
            ("text"@, JsonTree::List(seq![JsonTree::Text(html)])),
            ("target_lang"@, JsonTree::Text(target)),
            ("tag_handling"@, JsonTree::Text("html"@)),
        ],
        TranslateProvider::Google => seq![
            ("q"@, JsonTree::Text(html)),
            ("target"@, JsonTree::Text(target)),
            ("format"@, JsonTree::Text("html"@)),
        ],
        _ => seq![
            ("q"@, JsonTree::Text(html)),
            ("source"@, JsonTree::Text("auto"@)),
            ("target"@, JsonTree::Text(target)),
            ("format"@, JsonTree::Text("html"@)),
        ],
    }
}

fn compatible_fields(html: &str, target: &str) -> (r: Vec<(String, Json)>)
    ensures
        fields(r@) == request_body(TranslateProvider::Compatible, html@, target@),
{
    let mut v: Vec<(String, Json)> = Vec::new();
    put(&mut v, "q", Json::text(html));
    put(&mut v, "source", Json::text("auto"));
    put(&mut v, "target", Json::text(target));
    put(&mut v, "format", Json::text("html"));
    assert(fields(v@) =~= request_body(TranslateProvider::Compatible, html@, target@));
    v
}

/// The body that asks for one batch, of a service that takes JSON.
pub fn build_request_body(provider: TranslateProvider, html: &str, target: &str) -> (r: Json)
    requires
        provider != TranslateProvider::Youdao,
    ensures
        r@ == JsonTree::Object(request_body(provider, html@, target@)),
{
    match provider {
        TranslateProvider::DeepL => object3(
            "text",
            list1(Json::text(html)),
            "target_lang",
            Json::text(target),
            "tag_handling",
            Json::text("html"),
        ),
        TranslateProvider::Google => object3(
            "q",
            Json::text(html),
            "target",
            Json::text(target),
            "format",
            Json::text("html"),
        ),
        _ => Json::object(compatible_fields(html, target)),
    }
}

/// The request for one batch, of a service that takes JSON. DeepL has the key
/// in a header, Google in the URL, and a compatible endpoint in the body,
/// where there is one.
pub open spec fn json_request(cfg: ConfigView, html: Seq<char>, target: Seq<char>) -> RequestView {
    let body = request_body(cfg.provider, html, target);
    let keyed = cfg.provider == TranslateProvider::Compatible && cfg.api_key.len() > 0;
    RequestView {
        method: Method::Post,
        url: match cfg.provider {
            TranslateProvider::DeepL => cfg.base_url + "/v2/translate"@,
            TranslateProvider::Google => cfg.base_url + "/language/translate/v2?key="@
                + cfg.api_key,
            _ => cfg.base_url + "/translate"@,
        },
        headers: match cfg.provider {
            TranslateProvider::DeepL => seq![
                ("Authorization"@, "DeepL-Auth-Key "@ + cfg.api_key),
            ],
            _ => Seq::empty(),
        },
        body: BodyView::Json(
            JsonTree::Object(
                if keyed {
                    body.push(("api_key"@, JsonTree::Text(cfg.api_key)))
                } else {
                    body
                },
            ),
        ),
        timeout: Some(120),
    }
}

fn ask_json(cfg: &TranslateConfig, html: &str, target: &str) -> (r: Request)
    requires
        cfg.provider != TranslateProvider::Youdao,
    ensures
        r@ == json_request(cfg@, html@, target@),
{
    let url = match cfg.provider {
        TranslateProvider::DeepL => text::cat(cfg.base_url.as_str(), "/v2/translate"),
        TranslateProvider::Google => text::cat3(
            cfg.base_url.as_str(),
            "/language/translate/v2?key=",
            cfg.api_key.as_str(),
        ),
        _ => text::cat(cfg.base_url.as_str(), "/translate"),
    };
    let headers = match cfg.provider {
        TranslateProvider::DeepL => pairs1(
            "Authorization",
            text::cat("DeepL-Auth-Key ", cfg.api_key.as_str()).as_str(),
        ),
        _ => Vec::new(),
    };
    assert(pairs(headers@) =~= json_request(cfg@, html@, target@).headers);
    let body = match cfg.provider {
        TranslateProvider::Compatible => {
            let mut v = compatible_fields(html, target);
            if !cfg.api_key.as_str().is_empty() {
                put(&mut v, "api_key", Json::text(cfg.api_key.as_str()));
            }
            Json::object(v)
        },
        _ => build_request_body(cfg.provider, html, target),
    };
    Request {
        method: Method::Post,
        url,
        headers,
        body: Body::Json(body),
        timeout: Some(TRANSLATE_REQUEST_TIMEOUT),
    }
}

// ───────────────────────────── Youdao ─────────────────────────────

/// The part of a query that is signed: all of a short one, else its ends with
/// its length between them.
pub open spec fn signed_part(q: Seq<char>) -> Seq<char> {
    if q.len() <= 20 {
        q
    } else {
        q.take(10) + text::decimal(q.len()) + q.skip(q.len() - 10)
    }
}

/// The part of a query that is signed.
pub fn youdao_input(q: &str) -> (r: String)
    ensures
        r@ == signed_part(q@),
{
    let chars = text::chars_of(q);
    let len: usize = chars.len();
    if len <= 20 {
        return q.to_owned();
    }
    let first = text::text_between(&chars, 0, 10);
    let last = text::text_between(&chars, len - 10, len);
    assert(first@ =~= q@.take(10));
    assert(last@ =~= q@.skip(q@.len() - 10));
    text::cat3(first.as_str(), text::count(len).as_str(), last.as_str())
}

/// The SHA-256 hash that `sha2` computes of bytes.
pub uninterp spec fn sha256_digest(data: Seq<u8>) -> Seq<u8>;

/// `Digest::digest` of `sha2::Sha256`: the hash is fixed by the bytes and has
/// 32 of them.
#[verifier::external_body]
fn sha256(data: &[u8]) -> (r: Vec<u8>)
    ensures
        r@ == sha256_digest(data@),
        r@.len() == 32,
{
    sha2::Sha256::digest(data).to_vec()
}

/// The hexadecimal digit for a number below 16, in lower case.
pub open spec fn hex_digit(n: int) -> char {
    if n < 10 {
        (48 + n) as char
    } else {
        (87 + n) as char
    }
}

/// Bytes in hexadecimal, two digits each.
pub open spec fn hex_text(data: Seq<u8>) -> Seq<char>
    decreases data.len(),
{
    if data.len() == 0 {
        Seq::empty()
    } else {
        hex_text(data.drop_last()) + seq![
            hex_digit(data.last() as int / 16),
            hex_digit(data.last() as int % 16),
        ]
    }
}

/// `hex::encode`: two digits for each byte, the high one first, in lower
/// case. The result has to fit in memory.
#[verifier::external_body]
fn hex_encode(data: &Vec<u8>) -> (r: String)
    requires
        2 * data@.len() <= isize::MAX,
    ensures
        r@ == hex_text(data@),
{
    hex::encode(data)
}

/// The text whose hash a request is signed with.
pub open spec fn signed_text(
    app_key: Seq<char>,
    q: Seq<char>,
    salt: Seq<char>,
    curtime: Seq<char>,
    app_secret: Seq<char>,
) -> Seq<char> {
    app_key + signed_part(q) + salt + curtime + app_secret
}

/// The signature of a request: the hash, in hexadecimal, of the key, what is
/// signed of the query, the salt, the time and the secret.
pub open spec fn signature(
    app_key: Seq<char>,
    q: Seq<char>,
    salt: Seq<char>,
    curtime: Seq<char>,
    app_secret: Seq<char>,
) -> Seq<char> {
    hex_text(sha256_digest(encode_utf8(signed_text(app_key, q, salt, curtime, app_secret))))
}

/// A small letter or a digit of a hexadecimal numeral.
pub open spec fn is_small_hex(c: char) -> bool {
    ('0' <= c && c <= '9') || ('a' <= c && c <= 'f')
}

/// The signature of a request: 64 hexadecimal digits, in lower case.
pub fn youdao_sign(app_key: &str, q: &str, salt: &str, curtime: &str, app_secret: &str) -> (r:
    String)
    ensures
        r@ == signature(app_key@, q@, salt@, curtime@, app_secret@),
        r@.len() == 64,
        forall|i: int| 0 <= i < r@.len() ==> is_small_hex(#[trigger] r@[i]),
{
    let raw = text::cat5(app_key, youdao_input(q).as_str(), salt, curtime, app_secret);
    let hash = sha256(raw.as_str().as_bytes());
    proof {
        law_hex_is_small_and_twice_as_long(hash@);
    }
    hex_encode(&hash)
}

/// The form of a signed request.
pub open spec fn signed_form(
    cfg: ConfigView,
    html: Seq<char>,
    target: Seq<char>,
    salt: Seq<char>,
    curtime: Seq<char>,
) -> Seq<(Seq<char>, Seq<char>)> {
    seq![
        ("q"@, html),
        ("from"@, "auto"@),
        ("to"@, target),
        ("appKey"@, cfg.api_key),
        ("salt"@, salt),
        ("sign"@, signature(cfg.api_key, html, salt, curtime, cfg.api_secret)),
        ("signType"@, "v3"@),
        ("curtime"@, curtime),
    ]
}

/// The signed request for one batch.
pub open spec fn signed_request(
    cfg: ConfigView,
    html: Seq<char>,
    target: Seq<char>,
    salt: Seq<char>,
    curtime: Seq<char>,
) -> RequestView {
    RequestView {
        method: Method::Post,
        url: cfg.base_url + "/translate_html"@,
        headers: Seq::empty(),
        body: BodyView::Form(signed_form(cfg, html, target, salt, curtime)),
        timeout: Some(120),
    }
}

/// The signed request for one batch, made at so many seconds and nanoseconds
/// after the epoch: the seconds are the time in it, and all the nanoseconds
/// its salt.
pub fn translate_html_youdao(
    cfg: &TranslateConfig,
    html: &str,
    target: &str,
    secs: u64,
    subsec_nanos: u32,
) -> (r: Request)
    ensures
        r@ == signed_request(
            cfg@,
            html@,
            target@,
            text::numeral(secs * 1_000_000_000 + subsec_nanos),
            text::decimal(secs as nat),
        ),
{
    let nanos: i128 = secs as i128 * 1_000_000_000 + subsec_nanos as i128;
    let curtime = text::natural(secs);
    let salt = text::wide_integer(nanos);
    let sign = youdao_sign(
        cfg.api_key.as_str(),
        html,
        salt.as_str(),
        curtime.as_str(),
        cfg.api_secret.as_str(),
    );
    let mut form: Vec<(String, String)> = Vec::new();
    put_pair(&mut form, "q", html);
    put_pair(&mut form, "from", "auto");
    put_pair(&mut form, "to", target);
    put_pair(&mut form, "appKey", cfg.api_key.as_str());
    put_pair(&mut form, "salt", salt.as_str());
    put_pair(&mut form, "sign", sign.as_str());
    put_pair(&mut form, "signType", "v3");
    put_pair(&mut form, "curtime", curtime.as_str());
    assert(pairs(form@) =~= signed_form(cfg@, html@, target@, salt@, curtime@));
    let headers: Vec<(String, String)> = Vec::new();
    assert(pairs(headers@) =~= Seq::<(Seq<char>, Seq<char>)>::empty());
    Request {
        method: Method::Post,
        url: text::cat(cfg.base_url.as_str(), "/translate_html"),
        headers,
        body: Body::Form(form),
        timeout: Some(TRANSLATE_REQUEST_TIMEOUT),
    }
}

// ───────────────────────────── one batch ─────────────────────────────

/// The request for one batch.
pub open spec fn batch_request(
    cfg: ConfigView,
    html: Seq<char>,
    app_code: Seq<char>,
    secs: u64,
    subsec_nanos: u32,
) -> RequestView {
    let target = service_code(cfg.provider, app_code);
    if cfg.provider == TranslateProvider::Youdao {
        signed_request(
            cfg,
            html,
            target,
            text::numeral(secs * 1_000_000_000 + subsec_nanos),
            text::decimal(secs as nat),
        )
    } else {
        json_request(cfg, html, target)
    }
}

/// The request that has one HTML fragment translated, made at so many seconds
/// and nanoseconds after the epoch.
pub fn translate_html(
    cfg: &TranslateConfig,
    html: &str,
    app_code: &str,
    secs: u64,
    subsec_nanos: u32,
) -> (r: Request)
    ensures
        r@ == batch_request(cfg@, html@, app_code@, secs, subsec_nanos),
{
    let target = provider_lang_code(cfg.provider, app_code);
    if cfg.provider == TranslateProvider::Youdao {
        translate_html_youdao(cfg, html, target.as_str(), secs, subsec_nanos)
    } else {
        ask_json(cfg, html, target.as_str())
    }
}

/// The translation in a service's answer.
pub open spec fn translation_in(provider: TranslateProvider, v: JsonTree) -> Result<
    Seq<char>,
    ErrorView,
> {
    let found = match provider {
        TranslateProvider::DeepL => text_in(
            field_in(item_in(v.field("translations"@), 0), "text"@),
        ),
        TranslateProvider::Google => text_in(
            field_in(
                item_in(field_in(v.field("data"@), "translations"@), 0),
                "translatedText"@,
            ),
        ),
        TranslateProvider::Compatible => text_in(v.field("translatedText"@)),
        TranslateProvider::Youdao => text_in(v.field("data"@)),
    };
    let code = text::or_else(text_in(v.field("errorCode"@)), ""@);
    if provider == TranslateProvider::Youdao && code != "0"@ {
        Err(ErrorView::Other("Youdao error "@ + code))
    } else {
        match found {
            Some(s) => Ok(s),
            None => Err(ErrorView::Other("Translation API returned no text"@)),
        }
    }
}

fn text_at(j: Option<&Json>) -> (r: Option<String>)
    ensures
        text::view_of(r) == text_in(tree_of(j)),
{
    match j {
        Some(j) => j.as_text(),
        None => None,
    }
}

fn first_text(list: Option<&Json>, key: &str) -> (r: Option<String>)
    ensures
        text::view_of(r) == text_in(field_in(item_in(tree_of(list), 0), key@)),
{
    match list {
        Some(list) => match list.item(0) {
            Some(first) => text_at(first.field(key)),
            None => None,
        },
        None => None,
    }
}

/// The translation in a service's answer.
pub fn parse_response(provider: TranslateProvider, v: &Json) -> (r: Result<String, AppError>)
    ensures
        text_outcome(r) == translation_in(provider, v@),
{
    let found = match provider {
        TranslateProvider::DeepL => first_text(v.field("translations"), "text"),
        TranslateProvider::Google => match v.field("data") {
            Some(data) => first_text(data.field("translations"), "translatedText"),
            None => None,
        },
        TranslateProvider::Compatible => text_at(v.field("translatedText")),
        TranslateProvider::Youdao => {
            let code = text::or(text_at(v.field("errorCode")), "");
            if !text::same(code.as_str(), "0") {
                return Err(AppError::Other(text::cat("Youdao error ", code.as_str())));
            }
            text_at(v.field("data"))
        },
    };
    match found {
        Some(s) => Ok(s),
        None => Err(AppError::other("Translation API returned no text")),
    }
}

/// The text of a successful exchange, or an error that holds the answer.
pub open spec fn success(reply: Reply) -> Result<Seq<char>, ErrorView> {
    match reply {
        Reply::Body(s) => Ok(s@),
        Reply::Refused { status, detail, .. } => Err(
            ErrorView::Other("Translation API error "@ + status@ + ": "@ + detail@),
        ),
        Reply::Failed(e) => Err(ErrorView::Network(e@)),
        Reply::Broken(e) => Err(ErrorView::Network(e@)),
    }
}

/// The text of a successful exchange, or an error that holds the answer.
pub fn ensure_success(reply: Reply) -> (r: Result<String, AppError>)
    ensures
        text_outcome(r) == success(reply),
{
    match reply {
        Reply::Body(s) => Ok(s),
        Reply::Refused { status, detail, .. } => {
            let message = text::cat4(
                "Translation API error ",
                status.as_str(),
                ": ",
                detail.as_str(),
            );
            Err(AppError::Other(message))
        },
        Reply::Failed(e) => Err(AppError::Network(e)),
        Reply::Broken(e) => Err(AppError::Network(e)),
    }
}

/// What a batch comes to, by the answer: its translation, or why there is
/// none.
pub open spec fn batch_outcome(provider: TranslateProvider, reply: Reply) -> Result<
    Seq<char>,
    ErrorView,
> {
    match success(reply) {
        Ok(s) => match json_document(s) {
            Some(v) => translation_in(provider, v),
            None => Err(ErrorView::Network("error decoding response body"@)),
        },
        Err(e) => Err(e),
    }
}

/// What a batch comes to, by the answer: its translation, or why there is
/// none.
pub fn translated(provider: TranslateProvider, reply: Reply) -> (r: Result<String, AppError>)
    ensures
        text_outcome(r) == batch_outcome(provider, reply),
{
    match ensure_success(reply) {
        Ok(s) => match parse(s.as_str()) {
            Some(v) => parse_response(provider, &v),
            None => Err(AppError::Network("error decoding response body".to_owned())),
        },
        Err(e) => Err(e),
    }
}

// ───────────────────────────── laws ─────────────────────────────

/// Hexadecimal takes two digits for each byte, all of them in lower case.
pub proof fn law_hex_is_small_and_twice_as_long(data: Seq<u8>)
    ensures
        hex_text(data).len() == 2 * data.len(),
        forall|i: int| 0 <= i < hex_text(data).len() ==> is_small_hex(#[trigger] hex_text(data)[i]),
    decreases data.len(),
{
    if data.len() > 0 {
        law_hex_is_small_and_twice_as_long(data.drop_last());
        let before = hex_text(data.drop_last());
        let b = data.last() as int;
        assert(0 <= b / 16 < 16 && 0 <= b % 16 < 16);
        assert forall|i: int| 0 <= i < hex_text(data).len() implies is_small_hex(
            #[trigger] hex_text(data)[i],
        ) by {
            if i < before.len() {
                assert(hex_text(data)[i] == before[i]);
            }
        }
    }
}

/// A configuration that was accepted is complete: it has a URL without a
/// slash at its end, a key unless its endpoint may do without, and a secret
/// where requests are signed.
pub proof fn law_configurations_are_complete(
    provider: Option<Seq<char>>,
    api_key: Option<Seq<char>>,
    api_secret: Option<Seq<char>>,
    base_url: Option<Seq<char>>,
)
    ensures
        config_of(provider, api_key, api_secret, base_url) matches Ok(cfg) ==> {
            &&& cfg.base_url.len() > 0
            &&& cfg.base_url.last() != '/'
            &&& cfg.provider != TranslateProvider::Compatible ==> cfg.api_key.len() > 0
            &&& cfg.provider == TranslateProvider::Youdao ==> cfg.api_secret.len() > 0
        },
{
    reveal_strlit("https://api-free.deepl.com");
    reveal_strlit("https://api.deepl.com");
    reveal_strlit("https://translation.googleapis.com");
    reveal_strlit("https://openapi.youdao.com");
    match base_url {
        Some(u) => lemma_no_slash(text::trimmed(u)),
        None => {},
    }
}

proof fn lemma_no_slash(s: Seq<char>)
    ensures
        text::trimmed_end_of(s, '/').len() > 0 ==> text::trimmed_end_of(s, '/').last() != '/',
    decreases s.len(),
{
    if s.len() > 0 && s.last() == '/' {
        lemma_no_slash(s.drop_last());
    }
}

/// A compatible endpoint is asked for bare languages, without a region or a
/// script.
pub proof fn law_bare_codes(code: Seq<char>)
    ensures
        !service_code(TranslateProvider::Compatible, code).contains('-'),
{
    reveal_strlit("zh");
    reveal_strlit("nb");
    text::lemma_pieces_are_clean(code, '-');
}

/// The body of a request holds no key but where the endpoint takes it there.
pub proof fn law_bodies_hold_no_key(
    provider: TranslateProvider,
    html: Seq<char>,
    target: Seq<char>,
)
    ensures
        JsonTree::Object(request_body(provider, html, target)).field("api_key"@) is None,
{
    reveal_with_fuel(crate::json::value_of, 5);
    reveal_strlit("api_key");
    reveal_strlit("text");
    reveal_strlit("target_lang");
    reveal_strlit("tag_handling");
    reveal_strlit("q");
    reveal_strlit("source");
    reveal_strlit("target");
    reveal_strlit("format");
    assert("target_lang"@.len() != "api_key"@.len());
}

/// A service is the one that the setting names, and DeepL otherwise.
pub proof fn law_services_by_setting(setting: Option<Seq<char>>)
    ensures
        provider_of(Some("google"@)) == TranslateProvider::Google,
        provider_of(Some("compatible"@)) == TranslateProvider::Compatible,
        provider_of(Some("libretranslate"@)) == TranslateProvider::Compatible,
        provider_of(Some("youdao"@)) == TranslateProvider::Youdao,
        setting != Some("google"@) && setting != Some("compatible"@) && setting != Some(
            "libretranslate"@,
        ) && setting != Some("youdao"@) ==> provider_of(setting) == TranslateProvider::DeepL,
{
    reveal_strlit("google");
    reveal_strlit("compatible");
    reveal_strlit("libretranslate");
    reveal_strlit("youdao");
    assert("google"@[0] == 'g' && "compatible"@[0] == 'c' && "libretranslate"@[0] == 'l'
        && "youdao"@[0] == 'y');
}

/// DeepL's free keys go to its free root and others to the paid one; Google and
/// Youdao have one root each, and a compatible endpoint has none.
pub proof fn law_official_roots(key: Seq<char>, any: Seq<char>)
    ensures
        official_root(TranslateProvider::DeepL, key + ":fx"@) == Some("https://api-free.deepl.com"@),
        !(key.len() >= 3 && key.skip(key.len() - 3) == ":fx"@) ==> official_root(
            TranslateProvider::DeepL,
            key,
        ) == Some("https://api.deepl.com"@),
        official_root(TranslateProvider::Google, any) == Some("https://translation.googleapis.com"@),
        official_root(TranslateProvider::Youdao, any) == Some("https://openapi.youdao.com"@),
        official_root(TranslateProvider::Compatible, any) is None,
{
    reveal_strlit(":fx");
    let free = key + ":fx"@;
    assert(free.subrange(free.len() - 3, free.len() as int) =~= ":fx"@);
    if text::ends(key, ":fx"@) {
        assert(key.subrange(key.len() - 3, key.len() as int) =~= key.skip(key.len() - 3));
    }
}

/// A configuration has the key, the secret and the URL of the settings, trimmed,
/// and the service's own root where they name none; what is missing is named.
pub proof fn law_configurations_say_what_is_missing(
    provider: Option<Seq<char>>,
    api_key: Option<Seq<char>>,
    api_secret: Option<Seq<char>>,
    base_url: Option<Seq<char>>,
)
    ensures
        ({
            let p = provider_of(provider);
            let c = config_of(provider, api_key, api_secret, base_url);
            let has_key = api_key matches Some(k) && text::trimmed(k).len() > 0;
            let has_secret = api_secret matches Some(k) && text::trimmed(k).len() > 0;
            let has_url = base_url matches Some(u) && text::trimmed_end_of(
                text::trimmed(u),
                '/',
            ).len() > 0;
            let lacks_key = !has_key && p != TranslateProvider::Compatible;
            let lacks_secret = !has_secret && p == TranslateProvider::Youdao;
            let lacks_url = !has_url && p == TranslateProvider::Compatible;
            &&& lacks_key ==> c == Err::<ConfigView, ErrorView>(ErrorView::Code("noTranslateKey"@))
            &&& !lacks_key && lacks_secret ==> c == Err::<ConfigView, ErrorView>(
                ErrorView::Code("noTranslateSecret"@),
            )
            &&& !lacks_key && !lacks_secret && lacks_url ==> c == Err::<ConfigView, ErrorView>(
                ErrorView::Code("noTranslateEndpoint"@),
            )
            &&& !lacks_key && !lacks_secret && !lacks_url ==> (c matches Ok(cfg) && cfg.provider
                == p && (has_key ==> cfg.api_key == text::trimmed(api_key->0)) && (!has_key
                ==> cfg.api_key.len() == 0) && (has_secret ==> cfg.api_secret == text::trimmed(
                api_secret->0,
            )) && (!has_secret ==> cfg.api_secret.len() == 0) && (has_url ==> cfg.base_url
                == text::trimmed_end_of(text::trimmed(base_url->0), '/')) && (!has_url ==> Some(
                cfg.base_url,
            ) == official_root(p, cfg.api_key)))
        }),
{
}

/// Every service gets the codes that it has for Chinese, Portuguese, English and
/// Norwegian, and the bare language for all others.
pub proof fn law_services_have_their_codes(code: Seq<char>)
    ensures
        service_code(TranslateProvider::DeepL, "en"@) == "EN-US"@,
        service_code(TranslateProvider::DeepL, "pt"@) == "PT-PT"@,
        service_code(TranslateProvider::DeepL, "pt-BR"@) == "PT-BR"@,
        service_code(TranslateProvider::DeepL, "no"@) == "NB"@,
        service_code(TranslateProvider::DeepL, "zh-Hans"@) == "ZH"@,
        service_code(TranslateProvider::DeepL, "zh-Hant"@) == "ZH-HANT"@,
        code != "en"@ && code != "pt"@ && code != "pt-BR"@ && code != "no"@ && code != "zh-Hans"@ && code != "zh-Hant"@
            ==> service_code(TranslateProvider::DeepL, code) == upper_case(text::pieces(code, '-')[0]),
        service_code(TranslateProvider::Google, "zh-Hans"@) == "zh-CN"@,
        service_code(TranslateProvider::Google, "zh-Hant"@) == "zh-TW"@,
        service_code(TranslateProvider::Google, "pt-BR"@) == "pt"@,
        code != "zh-Hans"@ && code != "zh-Hant"@ && code != "pt-BR"@
            ==> service_code(TranslateProvider::Google, code) == text::pieces(code, '-')[0],
        service_code(TranslateProvider::Compatible, "zh-Hans"@) == "zh"@,
        service_code(TranslateProvider::Compatible, "zh-Hant"@) == "zh"@,
        service_code(TranslateProvider::Compatible, "no"@) == "nb"@,
        code != "zh-Hans"@ && code != "zh-Hant"@ && code != "no"@
            ==> service_code(TranslateProvider::Compatible, code) == text::pieces(code, '-')[0],
        service_code(TranslateProvider::Youdao, "zh-Hans"@) == "zh-CHS"@,
        service_code(TranslateProvider::Youdao, "zh-Hant"@) == "zh-CHT"@,
        code != "zh-Hans"@ && code != "zh-Hant"@
            ==> service_code(TranslateProvider::Youdao, code) == text::pieces(code, '-')[0],
{
    reveal_strlit("en");
    reveal_strlit("pt");
    reveal_strlit("pt-BR");
    reveal_strlit("no");
    reveal_strlit("zh-Hans");
    reveal_strlit("zh-Hant");
    assert("en"@[0] == 'e' && "no"@[0] == 'n' && "pt"@[0] == 'p' && "pt"@.len() == 2);
    assert("pt-BR"@[0] == 'p' && "pt-BR"@.len() == 5);
    assert("zh-Hans"@[0] == 'z' && "zh-Hans"@[6] == 's');
    assert("zh-Hant"@[0] == 'z' && "zh-Hant"@[6] == 't');
}

/// The language in a code is all of it up to its first hyphen.
pub proof fn law_languages_of_codes(language: Seq<char>, rest: Seq<char>)
    requires
        !language.contains('-'),
    ensures
        subtag(language) == language,
        subtag(language + seq!['-'] + rest) == language,
{
    text::lemma_one_piece(language, '-');
    text::lemma_pieces_add(language, rest, '-');
    assert((seq![language] + text::pieces(rest, '-'))[0] == language);
}

/// A body asks for the whole fragment in the target language, as HTML.
pub proof fn law_bodies_ask_for_the_fragment(html: Seq<char>, target: Seq<char>)
    ensures
        request_body(TranslateProvider::DeepL, html, target) == seq![
            ("text"@, JsonTree::List(seq![JsonTree::Text(html)])),
            ("target_lang"@, JsonTree::Text(target)),
            ("tag_handling"@, JsonTree::Text("html"@)),
        ],
        request_body(TranslateProvider::Google, html, target) == seq![
            ("q"@, JsonTree::Text(html)),
            ("target"@, JsonTree::Text(target)),
            ("format"@, JsonTree::Text("html"@)),
        ],
        request_body(TranslateProvider::Compatible, html, target) == seq![
            ("q"@, JsonTree::Text(html)),
            ("source"@, JsonTree::Text("auto"@)),
            ("target"@, JsonTree::Text(target)),
            ("format"@, JsonTree::Text("html"@)),
        ],
{
}

/// A request goes to the service's own path and has the key where the service
/// wants it: DeepL in a header, Google in the URL, and a compatible endpoint in
/// the body, where there is one.
pub proof fn law_requests_have_their_key(cfg: ConfigView, html: Seq<char>, target: Seq<char>)
    ensures
        ({
            let r = json_request(cfg, html, target);
            let body = request_body(cfg.provider, html, target);
            &&& r.method == Method::Post && r.timeout == Some(120u64)
            &&& cfg.provider == TranslateProvider::DeepL ==> r.url == cfg.base_url
                + "/v2/translate"@ && r.headers == seq![
                ("Authorization"@, "DeepL-Auth-Key "@ + cfg.api_key),
            ] && r.body == BodyView::Json(JsonTree::Object(body))
            &&& cfg.provider == TranslateProvider::Google ==> r.url == cfg.base_url
                + "/language/translate/v2?key="@ + cfg.api_key && r.headers.len() == 0 && r.body
                == BodyView::Json(JsonTree::Object(body))
            &&& cfg.provider == TranslateProvider::Compatible ==> r.url == cfg.base_url
                + "/translate"@ && r.headers.len() == 0 && (cfg.api_key.len() == 0 ==> r.body
                == BodyView::Json(JsonTree::Object(body))) && (cfg.api_key.len() > 0 ==> r.body
                == BodyView::Json(
                JsonTree::Object(body.push(("api_key"@, JsonTree::Text(cfg.api_key)))),
            ))
        }),
{
}

/// A short query is signed whole, a long one by its first and last ten
/// characters with its length between them; and a request is signed over its
/// key, that part, its salt, its time and the secret, in that order.
pub proof fn law_signatures(
    key: Seq<char>,
    q: Seq<char>,
    salt: Seq<char>,
    curtime: Seq<char>,
    secret: Seq<char>,
)
    ensures
        q.len() <= 20 ==> signed_part(q) == q,
        q.len() > 20 ==> signed_part(q) == q.take(10) + text::decimal(q.len()) + q.skip(
            q.len() - 10,
        ),
        signature(key, q, salt, curtime, secret) == hex_text(
            sha256_digest(encode_utf8(key + signed_part(q) + salt + curtime + secret)),
        ),
{
}

/// Each byte is written by two digits, the high one first.
pub proof fn law_hex_digits(data: Seq<u8>, b: u8)
    ensures
        hex_text(Seq::empty()) == Seq::<char>::empty(),
        hex_text(data.push(b)) == hex_text(data) + seq![
            "0123456789abcdef"@[b as int / 16],
            "0123456789abcdef"@[b as int % 16],
        ],
{
    reveal_strlit("0123456789abcdef");
    assert(data.push(b).drop_last() =~= data);
    let high = b as int / 16;
    let low = b as int % 16;
    assert(0 <= high < 16 && 0 <= low < 16);
    assert(hex_digit(high) == "0123456789abcdef"@[high]);
    assert(hex_digit(low) == "0123456789abcdef"@[low]);
}

/// A signed request hands over the whole fragment, the target language, the key,
/// and what its signature was made with.
pub proof fn law_signed_requests(
    cfg: ConfigView,
    html: Seq<char>,
    target: Seq<char>,
    salt: Seq<char>,
    curtime: Seq<char>,
)
    ensures
        signed_request(cfg, html, target, salt, curtime) == (RequestView {
            method: Method::Post,
            url: cfg.base_url + "/translate_html"@,
            headers: Seq::empty(),
            body: BodyView::Form(
                seq![
                    ("q"@, html),
                    ("from"@, "auto"@),
                    ("to"@, target),
                    ("appKey"@, cfg.api_key),
                    ("salt"@, salt),
                    ("sign"@, signature(cfg.api_key, html, salt, curtime, cfg.api_secret)),
                    ("signType"@, "v3"@),
                    ("curtime"@, curtime),
                ],
            ),
            timeout: Some(120),
        }),
{
}

/// A batch is asked for in the service's own code for the language, signed where
/// the service is Youdao and with a document otherwise.
pub proof fn law_batches_are_asked_for(
    cfg: ConfigView,
    html: Seq<char>,
    code: Seq<char>,
    secs: u64,
    nanos: u32,
)
    ensures
        cfg.provider != TranslateProvider::Youdao ==> batch_request(cfg, html, code, secs, nanos)
            == json_request(cfg, html, service_code(cfg.provider, code)),
        cfg.provider == TranslateProvider::Youdao ==> batch_request(cfg, html, code, secs, nanos)
            == signed_request(
            cfg,
            html,
            service_code(TranslateProvider::Youdao, code),
            text::numeral(secs * 1_000_000_000 + nanos),
            text::decimal(secs as nat),
        ),
{
}

/// A translation is found where the service puts it; an answer without one is an
/// error, and so is an answer of Youdao with another code than 0.
pub proof fn law_translations_are_found(v: JsonTree)
    ensures
        ({
            let deepl = text_in(field_in(item_in(v.field("translations"@), 0), "text"@));
            let google = text_in(
                field_in(
                    item_in(field_in(v.field("data"@), "translations"@), 0),
                    "translatedText"@,
                ),
            );
            let compatible = text_in(v.field("translatedText"@));
            let youdao = text_in(v.field("data"@));
            let code = match text_in(v.field("errorCode"@)) {
                Some(s) => s,
                None => ""@,
            };
            let none = Err::<Seq<char>, ErrorView>(
                ErrorView::Other("Translation API returned no text"@),
            );
            &&& translation_in(TranslateProvider::DeepL, v) == (if deepl is Some {
                Ok(deepl->0)
            } else {
                none
            })
            &&& translation_in(TranslateProvider::Google, v) == (if google is Some {
                Ok(google->0)
            } else {
                none
            })
            &&& translation_in(TranslateProvider::Compatible, v) == (if compatible is Some {
                Ok(compatible->0)
            } else {
                none
            })
            &&& translation_in(TranslateProvider::Youdao, v) == (if code != "0"@ {
                Err(ErrorView::Other("Youdao error "@ + code))
            } else if youdao is Some {
                Ok(youdao->0)
            } else {
                none
            })
        }),
{
}

/// A batch comes to the translation in its answer exactly where the exchange
/// succeeded; a refusal is reported with its status and the answer, and a failed
/// exchange as one.
pub proof fn law_batches_come_to_their_answer(provider: TranslateProvider, reply: Reply)
    ensures
        reply matches Reply::Body(s) ==> json_document(s@) is Some ==> batch_outcome(
            provider,
            reply,
        ) == translation_in(provider, json_document(s@)->0),
        reply matches Reply::Body(s) ==> json_document(s@) is None ==> batch_outcome(
            provider,
            reply,
        ) == Err::<Seq<char>, ErrorView>(ErrorView::Network("error decoding response body"@)),
        reply matches Reply::Refused { status, detail, message } ==> batch_outcome(provider, reply)
            == Err::<Seq<char>, ErrorView>(
            ErrorView::Other("Translation API error "@ + status@ + ": "@ + detail@),
        ),
        reply matches Reply::Failed(e) ==> batch_outcome(provider, reply) == Err::<
            Seq<char>,
            ErrorView,
        >(ErrorView::Network(e@)),
        reply matches Reply::Broken(e) ==> batch_outcome(provider, reply) == Err::<
            Seq<char>,
            ErrorView,
        >(ErrorView::Network(e@)),
{
}

/// How long a translation may take, and how much one batch is made for.
pub proof fn law_limits()
    ensures
        TRANSLATE_REQUEST_TIMEOUT == 120,
        TRANSLATE_CHUNK_BUDGET == 8000,
{
}

/// A small letter of ASCII has its capital, and any other character stays.
pub proof fn law_capitals(c: char, s: Seq<char>)
    ensures
        'a' <= c <= 'z' ==> ascii_capital(c) == "ABCDEFGHIJKLMNOPQRSTUVWXYZ"@[c as int - 97],
        !('a' <= c <= 'z') ==> ascii_capital(c) == c,
        is_plain(s) <==> forall|i: int| 0 <= i < s.len() ==> #[trigger] s[i] <= '\u{7f}',
{
    reveal_strlit("ABCDEFGHIJKLMNOPQRSTUVWXYZ");
}

} // verus!
