//! AI features: the configuration of a provider, the requests for a streamed
//! completion, and how the stream of server-sent events is read.

use vstd::prelude::*;
use vstd::utf8::{decode_utf8, valid_utf8};
use crate::error::{AppError, ErrorView};
use crate::json::{
    append, fields, json_document, list1, object2, parse, put, tree_of, trees, Json, JsonTree,
};
use crate::json::{field_in, item_in, text_in};
use crate::net::{pairs1, pairs3, Body, BodyView, Method, Request, RequestView};
use crate::text;

verus! {

/// Seconds that a streamed completion may take.
pub const AI_REQUEST_TIMEOUT_SECS: u64 = 300;

/// How many tokens a completion may have.
pub const MAX_TOKENS: u32 = 1024;

/// How many bytes may wait for the end of their line.
pub const MAX_SSE_BUFFER: usize = 8_388_608;

/// What a streamed completion tells its listener.
#[derive(Debug, PartialEq, Eq)]
pub enum AiEvent {
    Delta(String),
    Done,
    Error(String),
}

// ─────────────────────────── configuration ───────────────────────────

/// The providers of completions.
#[derive(Clone, Copy, Debug, PartialEq, Eq, Structural)]
pub enum Provider {
    Anthropic,
    OpenAi,
}

/// A provider's own API root.
pub open spec fn official_root(provider: Provider) -> Seq<char> {
    match provider {
        Provider::Anthropic => "https://api.anthropic.com/v1"@,
        Provider::OpenAi => "https://api.openai.com/v1"@,
    }
}

/// The model that a provider is asked for unless told otherwise. Which one
/// that is of Anthropic's is the caller's to say.
pub open spec fn default_model(provider: Provider, anthropic_model: Seq<char>) -> Seq<char> {
    match provider {
        Provider::Anthropic => anthropic_model,
        Provider::OpenAi => "gpt-4.1-mini"@,
    }
}

impl Provider {
    /// The provider's own API root.
    pub fn default_base_url(self) -> (r: &'static str)
        ensures
            r@ == official_root(self),
    {
        match self {
            Provider::Anthropic => "https://api.anthropic.com/v1",
            Provider::OpenAi => "https://api.openai.com/v1",
        }
    }
}

/// A resolved configuration. `base_url` has no slash at its end.
#[derive(Debug, PartialEq, Eq)]
pub struct AiConfig {
    pub provider: Provider,
    pub api_key: String,
    pub model: String,
    pub base_url: String,
}

/// What an [`AiConfig`] says.
pub struct AiConfigView {
    pub provider: Provider,
    pub api_key: Seq<char>,
    pub model: Seq<char>,
    pub base_url: Seq<char>,
}

impl View for AiConfig {
    type V = AiConfigView;

    open spec fn view(&self) -> AiConfigView {
        AiConfigView {
            provider: self.provider,
            api_key: self.api_key@,
            model: self.model@,
            base_url: self.base_url@,
        }
    }
}

/// An optional text, unless it is blank.
pub open spec fn unless_blank(s: Option<Seq<char>>) -> Option<Seq<char>> {
    match s {
        Some(s) => if text::trimmed(s).len() == 0 {
            None
        } else {
            Some(s)
        },
        None => None,
    }
}

/// A URL without white space around it nor slashes behind it, unless that
/// leaves nothing.
pub open spec fn plain_root(url: Option<Seq<char>>) -> Option<Seq<char>> {
    match url {
        Some(u) => text::nonempty_of(Some(text::trimmed_end_of(text::trimmed(u), '/'))),
        None => None,
    }
}

/// The configuration that raw settings make: a key is needed, the rest has
/// defaults.
pub open spec fn config_of(
    provider: Option<Seq<char>>,
    api_key: Option<Seq<char>>,
    model: Option<Seq<char>>,
    base_url: Option<Seq<char>>,
    anthropic_model: Seq<char>,
) -> Result<AiConfigView, ErrorView> {
    let p = if provider == Some("openai"@) {
        Provider::OpenAi
    } else {
        Provider::Anthropic
    };
    match unless_blank(api_key) {
        None => Err(ErrorView::Code("noAiKey"@)),
        Some(key) => Ok(
            AiConfigView {
                provider: p,
                api_key: key,
                model: text::or_else(unless_blank(model), default_model(p, anthropic_model)),
                base_url: text::or_else(plain_root(base_url), official_root(p)),
            },
        ),
    }
}

fn not_blank(s: Option<String>) -> (r: Option<String>)
    ensures
        text::view_of(r) == unless_blank(text::view_of(s)),
{
    match s {
        Some(s) => if text::trim(s.as_str()).as_str().is_empty() {
            None
        } else {
            Some(s)
        },
        None => None,
    }
}

/// A URL without white space around it nor slashes behind it.
pub fn plain_url(url: Option<String>) -> (r: Option<String>)
    ensures
        text::view_of(r) == plain_root(text::view_of(url)),
{
    match url {
        Some(u) => text::nonempty(
            Some(text::trim_end_of(text::trim(u.as_str()).as_str(), '/')),
        ),
        None => None,
    }
}

impl AiConfig {
    /// The configuration that raw settings make. Where they name no model,
    /// Anthropic is asked for `anthropic_model`.
    pub fn new(
        provider: Option<String>,
        api_key: Option<String>,
        model: Option<String>,
        base_url: Option<String>,
        anthropic_model: &str,
    ) -> (r: Result<Self, AppError>)
        ensures
            config_of(
                text::view_of(provider),
                text::view_of(api_key),
                text::view_of(model),
                text::view_of(base_url),
                anthropic_model@,
            ) == (match r {
                Ok(config) => Ok(config@),
                Err(e) => Err(e@),
            }),
    {
        let api_key = match not_blank(api_key) {
            Some(key) => key,
            None => {
                return Err(AppError::code("noAiKey"));
            },
        };
        let provider = if text::same_option(&provider, "openai") {
            Provider::OpenAi
        } else {
            Provider::Anthropic
        };
        let model = text::or(
            not_blank(model),
            match provider {
                Provider::Anthropic => anthropic_model,
                Provider::OpenAi => "gpt-4.1-mini",
            },
        );
        let base_url = text::or(plain_url(base_url), provider.default_base_url());
        Ok(AiConfig { provider, api_key, model, base_url })
    }

    /// The model that is asked for.
    pub fn model(&self) -> (r: &str)
        ensures
            r@ == self@.model,
    {
        self.model.as_str()
    }
}

// ───────────────────────────── requests ─────────────────────────────

/// One message of a conversation.
pub open spec fn message(role: Seq<char>, content: Seq<char>) -> JsonTree {
    JsonTree::Object(seq![("role"@, JsonTree::Text(role)), ("content"@, JsonTree::Text(content))])
}

/// The request for a streamed completion.
pub open spec fn chat(cfg: AiConfigView, system: Seq<char>, user: Seq<char>) -> RequestView {
    match cfg.provider {
        Provider::Anthropic => RequestView {
            method: Method::Post,
            url: cfg.base_url + "/messages"@,
            headers: seq![
                ("x-api-key"@, cfg.api_key),
                ("anthropic-version"@, "2023-06-01"@),
                ("content-type"@, "application/json"@),
            ],
            body: BodyView::Json(
                JsonTree::Object(
                    seq![
                        ("model"@, JsonTree::Text(cfg.model)),
                        ("max_tokens"@, JsonTree::Number(text::decimal(1024))),
                        ("system"@, JsonTree::Text(system)),
                        ("stream"@, JsonTree::Bool(true)),
                        ("messages"@, JsonTree::List(seq![message("user"@, user)])),
                    ],
                ),
            ),
            timeout: Some(300),
        },
        Provider::OpenAi => RequestView {
            method: Method::Post,
            url: cfg.base_url + "/chat/completions"@,
            headers: seq![("Authorization"@, "Bearer "@ + cfg.api_key)],
            body: BodyView::Json(
                JsonTree::Object(
                    seq![
                        ("model"@, JsonTree::Text(cfg.model)),
                        ("max_tokens"@, JsonTree::Number(text::decimal(1024))),
                        ("stream"@, JsonTree::Bool(true)),
                        (
                            "messages"@,
                            JsonTree::List(
                                seq![message("system"@, system), message("user"@, user)],
                            ),
                        ),
                    ],
                ),
            ),
            timeout: Some(300),
        },
    }
}

fn say(role: &str, content: &str) -> (r: Json)
    ensures
        r@ == message(role@, content@),
{
    object2("role", Json::text(role), "content", Json::text(content))
}

fn stream_anthropic(cfg: &AiConfig, system: &str, user: &str) -> (r: Request)
    requires
        cfg.provider == Provider::Anthropic,
    ensures
        r@ == chat(cfg@, system@, user@),
{
    let mut body: Vec<(String, Json)> = Vec::new();
    put(&mut body, "model", Json::text(cfg.model.as_str()));
    put(&mut body, "max_tokens", Json::Number(text::natural(MAX_TOKENS as u64)));
    put(&mut body, "system", Json::text(system));
    put(&mut body, "stream", Json::Bool(true));
    put(&mut body, "messages", list1(say("user", user)));
    assert(fields(body@) =~= seq![
        ("model"@, JsonTree::Text(cfg@.model)),
        ("max_tokens"@, JsonTree::Number(text::decimal(1024))),
        ("system"@, JsonTree::Text(system@)),
        ("stream"@, JsonTree::Bool(true)),
        ("messages"@, JsonTree::List(seq![message("user"@, user@)])),
    ]);
    Request {
        method: Method::Post,
        url: text::cat(cfg.base_url.as_str(), "/messages"),
        headers: pairs3(
            "x-api-key",
            cfg.api_key.as_str(),
            "anthropic-version",
            "2023-06-01",
            "content-type",
            "application/json",
        ),
        body: Body::Json(Json::object(body)),
        timeout: Some(AI_REQUEST_TIMEOUT_SECS),
    }
}

fn stream_openai(cfg: &AiConfig, system: &str, user: &str) -> (r: Request)
    requires
        cfg.provider == Provider::OpenAi,
    ensures
        r@ == chat(cfg@, system@, user@),
{
    let mut messages: Vec<Json> = Vec::new();
    append(&mut messages, say("system", system));
    append(&mut messages, say("user", user));
    assert(trees(messages@) =~= seq![message("system"@, system@), message("user"@, user@)]);
    let mut body: Vec<(String, Json)> = Vec::new();
    put(&mut body, "model", Json::text(cfg.model.as_str()));
    put(&mut body, "max_tokens", Json::Number(text::natural(MAX_TOKENS as u64)));
    put(&mut body, "stream", Json::Bool(true));
    put(&mut body, "messages", Json::list(messages));
    assert(fields(body@) =~= seq![
        ("model"@, JsonTree::Text(cfg@.model)),
        ("max_tokens"@, JsonTree::Number(text::decimal(1024))),
        ("stream"@, JsonTree::Bool(true)),
        (
            "messages"@,
            JsonTree::List(seq![message("system"@, system@), message("user"@, user@)]),
        ),
    ]);
    let bearer = text::cat("Bearer ", cfg.api_key.as_str());
    Request {
        method: Method::Post,
        url: text::cat(cfg.base_url.as_str(), "/chat/completions"),
        headers: pairs1("Authorization", bearer.as_str()),
        body: Body::Json(Json::object(body)),
        timeout: Some(AI_REQUEST_TIMEOUT_SECS),
    }
}

/// The request for a streamed completion.
pub fn stream_chat(cfg: &AiConfig, system: &str, user: &str) -> (r: Request)
    ensures
        r@ == chat(cfg@, system@, user@),
{
    match cfg.provider {
        Provider::Anthropic => stream_anthropic(cfg, system, user),
        Provider::OpenAi => stream_openai(cfg, system, user),
    }
}

// ───────────────────────────── events ─────────────────────────────

/// The error in an event, where it is one. A compatible server may well send
/// `"error": null` with a sound event, so only an object counts there.
pub open spec fn error_in(v: JsonTree, provider: Provider) -> Option<Seq<char>> {
    let found = match provider {
        Provider::Anthropic => if text_in(v.field("type"@)) == Some("error"@) {
            Some(v.field("error"@))
        } else {
            None
        },
        Provider::OpenAi => match v.field("error"@) {
            Some(JsonTree::Object(o)) => Some(Some(JsonTree::Object(o))),
            _ => None,
        },
    };
    match found {
        Some(err) => Some(
            text::or_else(text::nonempty_of(text_in(field_in(err, "message"@))), "stream error"@),
        ),
        None => None,
    }
}

/// The piece of text that an event carries, where it carries one.
pub open spec fn delta_in(v: JsonTree, provider: Provider) -> Option<Seq<char>> {
    match provider {
        Provider::Anthropic => if text_in(v.field("type"@)) == Some("content_block_delta"@) {
            text_in(field_in(v.field("delta"@), "text"@))
        } else {
            None
        },
        Provider::OpenAi => text_in(
            field_in(field_in(item_in(v.field("choices"@), 0), "delta"@), "content"@),
        ),
    }
}

fn field_of<'a>(j: Option<&'a Json>, key: &str) -> (r: Option<&'a Json>)
    ensures
        tree_of(r) == field_in(tree_of(j), key@),
{
    match j {
        Some(j) => j.field(key),
        None => None,
    }
}

fn text_of(j: Option<&Json>) -> (r: Option<String>)
    ensures
        text::view_of(r) == text_in(tree_of(j)),
{
    match j {
        Some(j) => j.as_text(),
        None => None,
    }
}

fn has_type(v: &Json, name: &str) -> (r: bool)
    ensures
        r == (text_in(v@.field("type"@)) == Some(name@)),
{
    let found = text_of(v.field("type"));
    text::same_option(&found, name)
}

/// The error in an event, where it is one.
pub fn extract_error(v: &Json, provider: Provider) -> (r: Option<String>)
    ensures
        text::view_of(r) == error_in(v@, provider),
{
    let err = match provider {
        Provider::Anthropic => {
            if !has_type(v, "error") {
                return None;
            }
            v.field("error")
        },
        Provider::OpenAi => match v.field("error") {
            Some(err) => match err {
                Json::Object(_) => Some(err),
                _ => {
                    return None;
                },
            },
            None => {
                return None;
            },
        },
    };
    Some(text::or(text::nonempty(text_of(field_of(err, "message"))), "stream error"))
}

/// The piece of text that an event carries, where it carries one.
pub fn extract_delta(v: &Json, provider: Provider) -> (r: Option<String>)
    ensures
        text::view_of(r) == delta_in(v@, provider),
{
    match provider {
        Provider::Anthropic => if has_type(v, "content_block_delta") {
            text_of(field_of(v.field("delta"), "text"))
        } else {
            None
        },
        Provider::OpenAi => {
            let first = match v.field("choices") {
                Some(choices) => choices.item(0),
                None => None,
            };
            text_of(field_of(field_of(first, "delta"), "content"))
        },
    }
}

// ─────────────────────────── reading the stream ───────────────────────────

/// The text that `String::from_utf8_lossy` makes of bytes.
pub uninterp spec fn lossy_text(bytes: Seq<u8>) -> Seq<char>;

/// `String::from_utf8_lossy`: the text is fixed by the bytes, and is the one
/// that they encode where they are valid UTF-8.
#[verifier::external_body]
fn from_utf8_lossy(bytes: &Vec<u8>) -> (r: String)
    ensures
        r@ == lossy_text(bytes@),
        valid_utf8(bytes@) ==> r@ == decode_utf8(bytes@),
{
    String::from_utf8_lossy(bytes).into_owned()
}

/// What one line of the stream says.
#[derive(Debug, PartialEq, Eq)]
pub enum LineEvent {
    Nothing,
    Delta(String),
    Error(String),
}

/// What a [`LineEvent`] says.
pub enum LineView {
    Nothing,
    Delta(Seq<char>),
    Error(Seq<char>),
}

impl View for LineEvent {
    type V = LineView;

    open spec fn view(&self) -> LineView {
        match *self {
            LineEvent::Nothing => LineView::Nothing,
            LineEvent::Delta(s) => LineView::Delta(s@),
            LineEvent::Error(s) => LineView::Error(s@),
        }
    }
}

/// What an event's document says.
pub open spec fn document_says(document: Option<JsonTree>, provider: Provider) -> LineView {
    match document {
        None => LineView::Nothing,
        Some(v) => match error_in(v, provider) {
            Some(e) => LineView::Error(e),
            None => match delta_in(v, provider) {
                Some(t) => LineView::Delta(t),
                None => LineView::Nothing,
            },
        },
    }
}

/// The data of a line: what follows `data:` in it, unless that is empty or
/// says that the stream is done.
pub open spec fn data_in(line: Seq<char>) -> Option<Seq<char>> {
    let t = text::trimmed(line);
    if text::begins(t, "data:"@) {
        let data = text::trimmed(t.skip("data:"@.len() as int));
        if data.len() == 0 || data == "[DONE]"@ {
            None
        } else {
            Some(data)
        }
    } else {
        None
    }
}

/// What a line of the stream says: lines without data, and data that is no
/// document, say nothing.
pub open spec fn line_says(line: Seq<char>, provider: Provider) -> LineView {
    match data_in(line) {
        Some(data) => document_says(json_document(data), provider),
        None => LineView::Nothing,
    }
}

/// What an event's document says.
pub fn read_document(document: &Option<Json>, provider: Provider) -> (r: LineEvent)
    ensures
        r@ == document_says(
            match *document {
                Some(j) => Some(j@),
                None => None,
            },
            provider,
        ),
{
    match document {
        None => LineEvent::Nothing,
        Some(v) => match extract_error(v, provider) {
            Some(e) => LineEvent::Error(e),
            None => match extract_delta(v, provider) {
                Some(t) => LineEvent::Delta(t),
                None => LineEvent::Nothing,
            },
        },
    }
}

/// The data of a line.
pub fn line_data(line: &str) -> (r: Option<String>)
    ensures
        text::view_of(r) == data_in(line@),
{
    let t = text::trim(line);
    match text::strip_prefix(t.as_str(), "data:") {
        Some(rest) => {
            let data = text::trim(rest.as_str());
            if data.as_str().is_empty() || text::same(data.as_str(), "[DONE]") {
                None
            } else {
                Some(data)
            }
        },
        None => None,
    }
}

/// What a line of the stream says.
pub fn read_line(line: &str, provider: Provider) -> (r: LineEvent)
    ensures
        r@ == line_says(line@, provider),
{
    match line_data(line) {
        Some(data) => {
            let document = parse(data.as_str());
            read_document(&document, provider)
        },
        None => LineEvent::Nothing,
    }
}

/// The place of the first line feed among these bytes.
pub open spec fn line_end(bytes: Seq<u8>) -> Option<int>
    decreases bytes.len(),
{
    if bytes.len() == 0 {
        None
    } else if bytes[0] == 10 {
        Some(0)
    } else {
        match line_end(bytes.drop_first()) {
            Some(i) => Some(i + 1),
            None => None,
        }
    }
}

/// What complete lines say, in order, and the bytes of the line that is still
/// open.
pub open spec fn drained(bytes: Seq<u8>, provider: Provider) -> (Seq<LineView>, Seq<u8>)
    decreases bytes.len(),
{
    match line_end(bytes) {
        None => (Seq::empty(), bytes),
        Some(i) => if 0 <= i < bytes.len() {
            let (says, open) = drained(bytes.skip(i + 1), provider);
            (seq![line_says(lossy_text(bytes.take(i + 1)), provider)] + says, open)
        } else {
            (Seq::empty(), bytes)
        },
    }
}

/// The next line that says anything, and the bytes behind it; where no
/// complete line does, the bytes of the line that is still open.
pub open spec fn next_in(bytes: Seq<u8>, provider: Provider) -> (LineView, Seq<u8>)
    decreases bytes.len(),
{
    match line_end(bytes) {
        None => (LineView::Nothing, bytes),
        Some(i) => if 0 <= i < bytes.len() {
            let said = line_says(lossy_text(bytes.take(i + 1)), provider);
            if said == LineView::Nothing {
                next_in(bytes.skip(i + 1), provider)
            } else {
                (said, bytes.skip(i + 1))
            }
        } else {
            (LineView::Nothing, bytes)
        },
    }
}

/// The result of a streamed completion: its text, and whether the stream ran
/// to its end. A text that was cut off must not be kept as a result.
#[derive(Debug, PartialEq, Eq)]
pub struct ChatOutcome {
    pub text: String,
    pub completed: bool,
}

/// What the stream says next.
#[derive(Debug, PartialEq, Eq)]
pub enum SseStep {
    /// This piece of text, to be passed on.
    Delta(String),
    /// This error, which ends the completion.
    Failed(AppError),
    /// Nothing until more bytes come.
    More,
}

/// The reader of a stream of server-sent events.
#[derive(Debug, PartialEq, Eq)]
pub struct SseReader {
    provider: Provider,
    buf: Vec<u8>,
    at: usize,
    full: String,
}

impl SseReader {
    /// The provider whose events these are.
    pub closed spec fn provider(self) -> Provider {
        self.provider
    }

    /// The bytes that came and were not read yet.
    pub closed spec fn pending(self) -> Seq<u8> {
        self.buf@.skip(self.at as int)
    }

    /// The text of all pieces so far.
    pub closed spec fn full(self) -> Seq<char> {
        self.full@
    }

    /// What holds of every reader.
    #[verifier::type_invariant]
    spec fn wf(self) -> bool {
        self.at <= self.buf@.len()
    }

    /// A reader of an answer with a success status; else the error that the
    /// status and the text of the answer make.
    pub fn open(provider: Provider, refused: Option<(String, String)>) -> (r: Result<
        SseReader,
        AppError,
    >)
        ensures
            match refused {
                None => r matches Ok(reader) && reader.provider() == provider && reader.pending()
                    == Seq::<u8>::empty() && reader.full() == Seq::<char>::empty(),
                Some(answer) => r matches Err(e) && e@ == ErrorView::Other(
                    "AI API error "@ + answer.0@ + ": "@ + answer.1@,
                ),
            },
    {
        match refused {
            None => {
                let buf: Vec<u8> = Vec::new();
                assert(buf@.skip(0) =~= Seq::<u8>::empty());
                Ok(SseReader { provider, buf, at: 0, full: String::new() })
            },
            Some(answer) => {
                let message = text::cat4("AI API error ", answer.0.as_str(), ": ", answer.1.as_str());
                Err(AppError::Other(message))
            },
        }
    }

    /// Takes in the next bytes. More of them than any event has, without an
    /// end of their line, are no events: that is an error.
    pub fn take_in(self, chunk: &Vec<u8>) -> (r: Result<SseReader, AppError>)
        ensures
            if self.pending().len() + chunk@.len() > 8_388_608 {
                r matches Err(e) && e@ == ErrorView::Other(
                    "AI stream error: response is not server-sent events"@,
                )
            } else {
                r matches Ok(reader) && reader.provider() == self.provider() && reader.pending()
                    == self.pending() + chunk@ && reader.full() == self.full()
            },
    {
        proof {
            use_type_invariant(&self);
        }
        let SseReader { provider, buf, at, full } = self;
        let kept: usize = buf.len() - at;
        assert(buf@.skip(at as int).len() == kept);
        if kept > MAX_SSE_BUFFER || chunk.len() > MAX_SSE_BUFFER - kept {
            return Err(AppError::other("AI stream error: response is not server-sent events"));
        }
        let ghost pending = buf@.skip(at as int);
        let mut joined: Vec<u8> = Vec::new();
        for i in at..buf.len()
            invariant
                at <= buf@.len(),
                pending == buf@.skip(at as int),
                joined@ == pending.take(i - at),
        {
            joined.push(buf[i]);
            assert(pending.take(i + 1 - at) =~= pending.take(i - at).push(buf@[i as int]));
        }
        assert(pending.take(pending.len() as int) =~= pending);
        assert(pending + chunk@.take(0) =~= pending);
        for i in 0..chunk.len()
            invariant
                joined@ == pending + chunk@.take(i as int),
        {
            joined.push(chunk[i]);
            assert(pending + chunk@.take(i + 1) =~= (pending + chunk@.take(i as int)).push(
                chunk@[i as int],
            ));
        }
        assert(chunk@.take(chunk@.len() as int) =~= chunk@);
        assert(joined@.skip(0) =~= joined@);
        Ok(SseReader { provider, buf: joined, at: 0, full })
    }

    /// What the stream says next: the next piece of text, which is added to
    /// the whole, or the first error.
    pub fn next(self) -> (r: (SseReader, SseStep))
        ensures
            r.0.provider() == self.provider(),
            r.0.pending() == next_in(self.pending(), self.provider()).1,
            match next_in(self.pending(), self.provider()).0 {
                LineView::Nothing => r.1 is More && r.0.full() == self.full(),
                LineView::Delta(t) => (r.1 matches SseStep::Delta(said) && said@ == t)
                    && r.0.full() == self.full() + t,
                LineView::Error(e) => (r.1 matches SseStep::Failed(said) && said@
                    == ErrorView::Other("AI stream error: "@ + e)) && r.0.full() == self.full(),
            },
    {
        proof {
            use_type_invariant(&self);
        }
        let SseReader { provider, buf, mut at, mut full } = self;
        let ghost start = buf@.skip(at as int);
        let ghost said_before = full@;
        while at < buf.len()
            invariant
                at <= buf@.len(),
                full@ == said_before,
                next_in(start, provider) == next_in(buf@.skip(at as int), provider),
                start == self.pending(),
                said_before == self.full(),
                provider == self.provider(),
            decreases buf@.len() - at,
        {
            let ghost rest = buf@.skip(at as int);
            let mut end: usize = at;
            assert(rest.skip(0) =~= rest);
            while end < buf.len() && buf[end] != 10
                invariant
                    at <= end <= buf@.len(),
                    rest == buf@.skip(at as int),
                    line_end(rest) == (match line_end(buf@.skip(end as int)) {
                        Some(i) => Some(i + end - at),
                        None => None,
                    }),
                decreases buf@.len() - end,
            {
                assert(buf@.skip(end as int)[0] == buf@[end as int]);
                assert(buf@.skip(end as int).drop_first() =~= buf@.skip(end + 1));
                end = end + 1;
            }
            if end == buf.len() {
                assert(buf@.skip(end as int).len() == 0);
                let reader = SseReader { provider, buf, at, full };
                return (reader, SseStep::More);
            }
            assert(buf@.skip(end as int)[0] == buf@[end as int]);
            assert(line_end(rest) == Some(end - at));
            let mut line: Vec<u8> = Vec::new();
            for i in at..end + 1
                invariant
                    at <= end < buf@.len(),
                    rest == buf@.skip(at as int),
                    line@ == rest.take(i - at),
            {
                line.push(buf[i]);
                assert(rest.take(i + 1 - at) =~= rest.take(i - at).push(buf@[i as int]));
            }
            assert(rest.skip(end + 1 - at) =~= buf@.skip(end + 1));
            let said = read_line(from_utf8_lossy(&line).as_str(), provider);
            at = end + 1;
            match said {
                LineEvent::Nothing => {},
                LineEvent::Delta(t) => {
                    full.push_str(t.as_str());
                    let reader = SseReader { provider, buf, at, full };
                    return (reader, SseStep::Delta(t));
                },
                LineEvent::Error(e) => {
                    let message = text::cat("AI stream error: ", e.as_str());
                    let reader = SseReader { provider, buf, at, full };
                    return (reader, SseStep::Failed(AppError::Other(message)));
                },
            }
        }
        assert(buf@.skip(at as int).len() == 0);
        let reader = SseReader { provider, buf, at, full };
        (reader, SseStep::More)
    }

    /// The result of the completion: whole where the stream ended, else cut
    /// off because nobody listens any more.
    pub fn finish(self, completed: bool) -> (r: ChatOutcome)
        ensures
            r.text@ == self.full(),
            r.completed == completed,
    {
        ChatOutcome { text: self.full, completed }
    }
}

/// What the listener is told at the end of a completion.
pub fn closing_event(result: &Result<ChatOutcome, AppError>) -> (r: AiEvent)
    ensures
        match *result {
            Ok(_) => r is Done,
            Err(e) => r matches AiEvent::Error(said) && said@ == (match e@ {
                ErrorView::Code(s) => s,
                ErrorView::Other(s) => s,
                ErrorView::Network(s) => s,
                ErrorView::Store(s) => s,
                ErrorView::Opml(s) => s,
            }),
        },
{
    match result {
        Ok(_) => AiEvent::Done,
        Err(e) => AiEvent::Error(e.message()),
    }
}

// ───────────────────────────── laws ─────────────────────────────

proof fn lemma_line_end(bytes: Seq<u8>)
    ensures
        line_end(bytes) matches Some(i) ==> 0 <= i < bytes.len(),
    decreases bytes.len(),
{
    if bytes.len() > 0 {
        lemma_line_end(bytes.drop_first());
    }
}

proof fn lemma_line_end_extends(a: Seq<u8>, b: Seq<u8>)
    ensures
        line_end(a) is Some ==> line_end(a + b) == line_end(a),
    decreases a.len(),
{
    if a.len() > 0 {
        lemma_line_end_extends(a.drop_first(), b);
        assert((a + b).drop_first() =~= a.drop_first() + b);
        assert((a + b)[0] == a[0]);
    }
}

/// What a stream says does not depend on how the network cuts it: reading
/// what came, and then what is left of it with what comes later, gives the
/// same as reading everything at once.
pub proof fn law_cuts_do_not_matter(a: Seq<u8>, b: Seq<u8>, provider: Provider)
    ensures
        drained(a + b, provider).0 == drained(a, provider).0 + drained(
            drained(a, provider).1 + b,
            provider,
        ).0,
        drained(a + b, provider).1 == drained(drained(a, provider).1 + b, provider).1,
    decreases a.len(),
{
    lemma_line_end(a);
    lemma_line_end_extends(a, b);
    match line_end(a) {
        None => {
            assert(drained(a, provider).0 + drained(a + b, provider).0 =~= drained(
                a + b,
                provider,
            ).0);
        },
        Some(i) => {
            let rest = a.skip(i + 1);
            law_cuts_do_not_matter(rest, b, provider);
            assert((a + b).skip(i + 1) =~= rest + b);
            assert((a + b).take(i + 1) =~= a.take(i + 1));
            let first = seq![line_says(lossy_text(a.take(i + 1)), provider)];
            assert(drained(a + b, provider).0 == first + drained(rest + b, provider).0);
            assert(first + (drained(rest, provider).0 + drained(
                drained(rest, provider).1 + b,
                provider,
            ).0) =~= (first + drained(rest, provider).0) + drained(
                drained(rest, provider).1 + b,
                provider,
            ).0);
        },
    }
}

/// Those of the lines that say anything.
pub open spec fn spoken(lines: Seq<LineView>) -> Seq<LineView>
    decreases lines.len(),
{
    if lines.len() == 0 {
        Seq::empty()
    } else if lines[0] == LineView::Nothing {
        spoken(lines.drop_first())
    } else {
        seq![lines[0]] + spoken(lines.drop_first())
    }
}

/// Nothing said is lost: what the reader says next, and what the bytes that
/// it leaves say, is together what all the lines say, and the line that is
/// still open stays.
pub proof fn law_nothing_said_is_lost(bytes: Seq<u8>, provider: Provider)
    ensures
        ({
            let (said, rest) = next_in(bytes, provider);
            &&& spoken(drained(bytes, provider).0) == (if said == LineView::Nothing {
                Seq::empty()
            } else {
                seq![said] + spoken(drained(rest, provider).0)
            })
            &&& drained(rest, provider).1 == drained(bytes, provider).1
        }),
    decreases bytes.len(),
{
    lemma_line_end(bytes);
    match line_end(bytes) {
        None => {},
        Some(i) => {
            let tail = bytes.skip(i + 1);
            let first = line_says(lossy_text(bytes.take(i + 1)), provider);
            let lines = drained(bytes, provider).0;
            assert(lines.drop_first() =~= drained(tail, provider).0);
            if first == LineView::Nothing {
                law_nothing_said_is_lost(tail, provider);
            }
        },
    }
}

/// A configuration needs a key that is not blank. It is of OpenAI exactly where
/// the setting says so; its model and its root are those of the settings where
/// they are not blank, and the provider's own otherwise.
pub proof fn law_configurations(
    provider: Option<Seq<char>>,
    api_key: Option<Seq<char>>,
    model: Option<Seq<char>>,
    base_url: Option<Seq<char>>,
    anthropic_model: Seq<char>,
)
    ensures
        ({
            let c = config_of(provider, api_key, model, base_url, anthropic_model);
            let has_key = api_key matches Some(k) && text::trimmed(k).len() > 0;
            let openai = provider == Some("openai"@);
            &&& !has_key ==> c == Err::<AiConfigView, ErrorView>(ErrorView::Code("noAiKey"@))
            &&& has_key ==> (c matches Ok(cfg) && Some(cfg.api_key) == api_key && (openai <==> cfg.provider
                == Provider::OpenAi) && (model matches Some(m) && text::trimmed(m).len() > 0
                ==> Some(cfg.model) == model) && (!(model matches Some(m) && text::trimmed(m).len()
                > 0) ==> cfg.model == (if openai {
                "gpt-4.1-mini"@
            } else {
                anthropic_model
            })) && (base_url matches Some(u) && text::trimmed_end_of(text::trimmed(u), '/').len()
                > 0 ==> cfg.base_url == text::trimmed_end_of(text::trimmed(base_url->0), '/')) && (
            !(base_url matches Some(u) && text::trimmed_end_of(text::trimmed(u), '/').len() > 0)
                ==> cfg.base_url == (if openai {
                "https://api.openai.com/v1"@
            } else {
                "https://api.anthropic.com/v1"@
            })))
        }),
{
}

/// A completion is asked of the provider under its key, with the model, the
/// instructions and the whole of what the user says, as a stream.
pub proof fn law_completions_are_asked_for(
    cfg: AiConfigView,
    system: Seq<char>,
    user: Seq<char>,
)
    ensures
        chat(cfg, system, user).method == Method::Post,
        chat(cfg, system, user).timeout == Some(300u64),
        cfg.provider == Provider::Anthropic ==> chat(cfg, system, user).url == cfg.base_url
            + "/messages"@ && chat(cfg, system, user).headers == seq![
            ("x-api-key"@, cfg.api_key),
            ("anthropic-version"@, "2023-06-01"@),
            ("content-type"@, "application/json"@),
        ] && chat(cfg, system, user).body == BodyView::Json(
            JsonTree::Object(
                seq![
                    ("model"@, JsonTree::Text(cfg.model)),
                    ("max_tokens"@, JsonTree::Number(text::decimal(1024))),
                    ("system"@, JsonTree::Text(system)),
                    ("stream"@, JsonTree::Bool(true)),
                    (
                        "messages"@,
                        JsonTree::List(
                            seq![
                                JsonTree::Object(
                                    seq![
                                        ("role"@, JsonTree::Text("user"@)),
                                        ("content"@, JsonTree::Text(user)),
                                    ],
                                ),
                            ],
                        ),
                    ),
                ],
            ),
        ),
        cfg.provider == Provider::OpenAi ==> chat(cfg, system, user).url == cfg.base_url
            + "/chat/completions"@ && chat(cfg, system, user).headers == seq![
            ("Authorization"@, "Bearer "@ + cfg.api_key),
        ] && chat(cfg, system, user).body == BodyView::Json(
            JsonTree::Object(
                seq![
                    ("model"@, JsonTree::Text(cfg.model)),
                    ("max_tokens"@, JsonTree::Number(text::decimal(1024))),
                    ("stream"@, JsonTree::Bool(true)),
                    (
                        "messages"@,
                        JsonTree::List(
                            seq![
                                JsonTree::Object(
                                    seq![
                                        ("role"@, JsonTree::Text("system"@)),
                                        ("content"@, JsonTree::Text(system)),
                                    ],
                                ),
                                JsonTree::Object(
                                    seq![
                                        ("role"@, JsonTree::Text("user"@)),
                                        ("content"@, JsonTree::Text(user)),
                                    ],
                                ),
                            ],
                        ),
                    ),
                ],
            ),
        ),
{
}

/// An event is an error where it says so: by its type with Anthropic, by an
/// error that is an object with the other. Its message is handed on, and a
/// missing or empty one is named.
pub proof fn law_errors_are_surfaced(v: JsonTree, message: Seq<char>)
    ensures
        text_in(v.field("type"@)) != Some("error"@) ==> error_in(v, Provider::Anthropic) is None,
        text_in(v.field("type"@)) == Some("error"@) && text_in(
            field_in(v.field("error"@), "message"@),
        ) == Some(message) && message.len() > 0 ==> error_in(v, Provider::Anthropic) == Some(
            message,
        ),
        text_in(v.field("type"@)) == Some("error"@) && !(text_in(
            field_in(v.field("error"@), "message"@),
        ) matches Some(m) && m.len() > 0) ==> error_in(v, Provider::Anthropic) == Some(
            "stream error"@,
        ),
        !(v.field("error"@) is Some && v.field("error"@)->0 is Object) ==> error_in(
            v,
            Provider::OpenAi,
        ) is None,
        (v.field("error"@) is Some && v.field("error"@)->0 is Object) && text_in(
            field_in(v.field("error"@), "message"@),
        ) == Some(message) && message.len() > 0 ==> error_in(v, Provider::OpenAi) == Some(message),
        (v.field("error"@) is Some && v.field("error"@)->0 is Object) && !(text_in(
            field_in(v.field("error"@), "message"@),
        ) matches Some(m) && m.len() > 0) ==> error_in(v, Provider::OpenAi) == Some(
            "stream error"@,
        ),
{
}

/// The text of an event is found where the provider puts it, and only in events
/// that carry text.
pub proof fn law_text_is_found(v: JsonTree)
    ensures
        text_in(v.field("type"@)) != Some("content_block_delta"@) ==> delta_in(
            v,
            Provider::Anthropic,
        ) is None,
        text_in(v.field("type"@)) == Some("content_block_delta"@) ==> delta_in(
            v,
            Provider::Anthropic,
        ) == text_in(field_in(v.field("delta"@), "text"@)),
        delta_in(v, Provider::OpenAi) == text_in(
            field_in(field_in(item_in(v.field("choices"@), 0), "delta"@), "content"@),
        ),
{
}

/// A line says what its document says: an error before all, else its text, and
/// nothing where there is no document, no text, or no data at all.
pub proof fn law_lines_say_what_their_document_says(
    line: Seq<char>,
    v: JsonTree,
    provider: Provider,
)
    ensures
        document_says(None, provider) == LineView::Nothing,
        error_in(v, provider) matches Some(e) ==> document_says(Some(v), provider)
            == LineView::Error(e),
        error_in(v, provider) is None && delta_in(v, provider) is Some ==> document_says(
            Some(v),
            provider,
        ) == LineView::Delta(delta_in(v, provider)->0),
        error_in(v, provider) is None && delta_in(v, provider) is None ==> document_says(
            Some(v),
            provider,
        ) == LineView::Nothing,
        data_in(line) is None ==> line_says(line, provider) == LineView::Nothing,
        data_in(line) matches Some(data) ==> line_says(line, provider) == document_says(
            json_document(data),
            provider,
        ),
{
}

/// The data of a line is what follows `data:`, trimmed; there is none in a line
/// that does not start so, in an empty one, and in the one that ends the stream.
pub proof fn law_data_of_lines(line: Seq<char>, rest: Seq<char>)
    ensures
        text::trimmed(line) == "data:"@ + rest && text::trimmed(rest).len() > 0 && text::trimmed(
            rest,
        ) != "[DONE]"@ ==> data_in(line) == Some(text::trimmed(rest)),
        text::trimmed(line) == "data:"@ + rest && (text::trimmed(rest).len() == 0 || text::trimmed(
            rest,
        ) == "[DONE]"@) ==> data_in(line) is None,
        !(text::trimmed(line).len() >= 5 && text::trimmed(line).take(5) == "data:"@) ==> data_in(
            line,
        ) is None,
{
    reveal_strlit("data:");
    let t = text::trimmed(line);
    let all = "data:"@ + rest;
    assert(all.subrange(0, 5) =~= "data:"@);
    assert(all.skip(5) =~= rest);
    if text::begins(t, "data:"@) {
        assert(t.subrange(0, 5) =~= t.take(5));
    }
}

/// A stream is read line by line: a complete line says what its text says, then
/// come the lines behind it; and what has no end yet is kept.
pub proof fn law_streams_are_read_by_lines(line: Seq<u8>, rest: Seq<u8>, provider: Provider)
    requires
        !line.contains(10),
    ensures
        drained(line, provider) == (Seq::<LineView>::empty(), line),
        next_in(line, provider) == (LineView::Nothing, line),
        ({
            let said = line_says(lossy_text(line.push(10)), provider);
            &&& drained(line.push(10) + rest, provider).0 == seq![said] + drained(rest, provider).0
            &&& drained(line.push(10) + rest, provider).1 == drained(rest, provider).1
            &&& said is Nothing ==> next_in(line.push(10) + rest, provider) == next_in(
                rest,
                provider,
            )
            &&& !(said is Nothing) ==> next_in(line.push(10) + rest, provider) == (said, rest)
        }),
{
    lemma_no_end(line);
    let all = line.push(10) + rest;
    lemma_first_end(line, rest);
    let n = line.len() as int;
    assert(all.take(n + 1) =~= line.push(10));
    assert(all.skip(n + 1) =~= rest);
}

proof fn lemma_no_end(line: Seq<u8>)
    requires
        !line.contains(10),
    ensures
        line_end(line) is None,
    decreases line.len(),
{
    if line.len() > 0 {
        assert(line.contains(line[0]));
        let rest = line.drop_first();
        assert forall|i: int| 0 <= i < rest.len() implies rest[i] != 10 by {
            assert(line.contains(line[i + 1]));
        }
        lemma_no_end(rest);
    }
}

proof fn lemma_first_end(line: Seq<u8>, rest: Seq<u8>)
    requires
        !line.contains(10),
    ensures
        line_end(line.push(10) + rest) == Some(line.len() as int),
    decreases line.len(),
{
    let all = line.push(10) + rest;
    if line.len() == 0 {
        assert(all[0] == 10);
    } else {
        assert(line.contains(line[0]));
        assert(all[0] == line[0]);
        let less = line.drop_first();
        assert forall|i: int| 0 <= i < less.len() implies less[i] != 10 by {
            assert(line.contains(line[i + 1]));
        }
        lemma_first_end(less, rest);
        assert(all.drop_first() =~= less.push(10) + rest);
    }
}

/// How long a completion may take and be, and how much may wait for the end of its
/// line.
pub proof fn law_limits()
    ensures
        AI_REQUEST_TIMEOUT_SECS == 300,
        MAX_TOKENS == 1024,
        MAX_SSE_BUFFER == 8_388_608,
{
}

} // verus!
