//! The command line's AI commands: what a provider is asked, what is refused
//! before asking, and how the answer is printed.

use vstd::prelude::*;
use crate::ai::{config_of, AiConfig};
use crate::cli::{one_line, runtime_error, truncate, truncated, AxiError, AxiErrorView};
use crate::text;
use crate::toon::{block_to, kv_to, Out};

verus! {

/// The refusal where no provider is configured.
pub open spec fn no_provider() -> AxiErrorView {
    AxiErrorView {
        message: "no AI provider configured"@,
        help: seq![
            "Run `papr settings set ai_api_key <key>` (and optionally ai_provider / ai_model)"@,
            "Or configure AI in the Papr desktop app"@,
        ],
        usage: false,
    }
}

/// The configuration that the settings make; `anthropic_model` is what
/// Anthropic is asked for where they name no model.
pub fn load_ai(
    provider: Option<String>,
    api_key: Option<String>,
    model: Option<String>,
    base_url: Option<String>,
    anthropic_model: &str,
) -> (r: Result<AiConfig, AxiError>)
    ensures
        match config_of(
            text::view_of(provider),
            text::view_of(api_key),
            text::view_of(model),
            text::view_of(base_url),
            anthropic_model@,
        ) {
            Ok(config) => r matches Ok(c) && c@ == config,
            Err(_) => r matches Err(e) && e@ == no_provider(),
        },
{
    match AiConfig::new(provider, api_key, model, base_url, anthropic_model) {
        Ok(config) => Ok(config),
        Err(_) => Err(
            AxiError::runtime_help(
                "no AI provider configured",
                text::list2(
                    "Run `papr settings set ai_api_key <key>` (and optionally ai_provider / ai_model)",
                    "Or configure AI in the Papr desktop app",
                ),
            ),
        ),
    }
}

/// The instruction to answer in the language of the user interface.
pub open spec fn language_of(setting: Option<Seq<char>>) -> Seq<char> {
    if setting == Some("zh"@) {
        "\n\nAlways write your response in Simplified Chinese."@
    } else if setting == Some("ja"@) {
        "\n\nAlways write your response in Japanese."@
    } else {
        "\n\nAlways write your response in English."@
    }
}

/// The instruction to answer in the language of the user interface.
pub fn response_language(setting: &Option<String>) -> (r: &'static str)
    ensures
        r@ == language_of(text::view_of(*setting)),
{
    if text::same_option(setting, "zh") {
        "\n\nAlways write your response in Simplified Chinese."
    } else if text::same_option(setting, "ja") {
        "\n\nAlways write your response in Japanese."
    } else {
        "\n\nAlways write your response in English."
    }
}

/// A document with these lines more.
pub open spec fn header_lines_to(doc: Seq<char>, header: Seq<(Seq<char>, Seq<char>)>) -> Seq<char>
    decreases header.len(),
{
    if header.len() == 0 {
        doc
    } else {
        kv_to(header_lines_to(doc, header.drop_last()), 0, header.last().0, header.last().1)
    }
}

/// An answer as it is printed: a small header, and the text without white
/// space around it.
pub open spec fn answer_text(header: Seq<(Seq<char>, Seq<char>)>, body: Seq<char>) -> Seq<char> {
    block_to(header_lines_to(Seq::empty(), header), 0, "text"@, text::trimmed(body))
}

/// An answer as it is printed.
pub fn ai_output(header_kv: &Vec<(String, String)>, text: &str) -> (r: String)
    ensures
        r@ == answer_text(crate::net::pairs(header_kv@), text@),
{
    let mut out = Out::new();
    let ghost all = crate::net::pairs(header_kv@);
    assert(all.take(0) =~= Seq::<(Seq<char>, Seq<char>)>::empty());
    for i in 0..header_kv.len()
        invariant
            all == crate::net::pairs(header_kv@),
            out@ == header_lines_to(Seq::empty(), all.take(i as int)),
    {
        assert(all.take(i + 1).drop_last() =~= all.take(i as int));
        out.kv(0, header_kv[i].0.as_str(), header_kv[i].1.as_str());
    }
    assert(all.take(all.len() as int) =~= all);
    out.block(0, "text", text::trim(text).as_str());
    out.into_string()
}

/// What a provider is asked.
#[derive(Debug, PartialEq, Eq)]
pub struct Prompt {
    pub system: String,
    pub user: String,
}

/// What a [`Prompt`] says.
pub struct PromptView {
    pub system: Seq<char>,
    pub user: Seq<char>,
}

impl View for Prompt {
    type V = PromptView;

    open spec fn view(&self) -> PromptView {
        PromptView { system: self.system@, user: self.user@ }
    }
}

/// What a fallible function that gives a prompt came back with.
pub open spec fn prompt_outcome(r: Result<Prompt, AxiError>) -> Result<PromptView, AxiErrorView> {
    match r {
        Ok(p) => Ok(p@),
        Err(e) => Err(e@),
    }
}

/// The title and the first 8000 characters of an article.
pub open spec fn excerpt(title: Seq<char>, body: Seq<char>) -> Seq<char> {
    "Title: "@ + title + "\n\n"@ + truncated(body, 8000).0
}

fn write_excerpt(title: &str, body: &str) -> (r: String)
    ensures
        r@ == excerpt(title@, body@),
{
    let (shown, _, _) = truncate(body, 8000);
    text::cat4("Title: ", title, "\n\n", shown.as_str())
}

/// What is asked for a summary of an article, given by title and body; an
/// article that is missing or has no body is refused.
pub open spec fn summary_prompt(
    id: int,
    article: Option<(Seq<char>, Seq<char>)>,
    language: Seq<char>,
) -> Result<PromptView, AxiErrorView> {
    match article {
        None => Err(runtime_error("article #"@ + text::numeral(id) + " not found"@)),
        Some(a) => if text::trimmed(a.1).len() == 0 {
            Err(runtime_error("article #"@ + text::numeral(id) + " has no body to summarize"@))
        } else {
            Ok(
                PromptView {
                    system: "You are a sharp news editor. Summarize the article so a reader can decide whether to read it in full.\n\nFormat in markdown: a bold **TL;DR** one-liner, then 3-5 single-idea bullets. Output only that."@
                        + language,
                    user: excerpt(a.0, a.1),
                },
            )
        },
    }
}

/// What an optional title and body say.
pub open spec fn article_of(a: Option<(String, String)>) -> Option<(Seq<char>, Seq<char>)> {
    match a {
        Some(a) => Some((a.0@, a.1@)),
        None => None,
    }
}

/// What is asked for a summary of an article.
pub fn cmd_summarize(id: i64, article: Option<(String, String)>, language: &str) -> (r: Result<
    Prompt,
    AxiError,
>)
    ensures
        prompt_outcome(r) == summary_prompt(id as int, article_of(article), language@),
{
    let number = text::integer(id);
    match article {
        None => {
            let message = text::cat3("article #", number.as_str(), " not found");
            Err(AxiError::runtime(message.as_str()))
        },
        Some(a) => {
            if text::trim(a.1.as_str()).as_str().is_empty() {
                let message = text::cat3("article #", number.as_str(), " has no body to summarize");
                return Err(AxiError::runtime(message.as_str()));
            }
            let system = text::cat(
                "You are a sharp news editor. Summarize the article so a reader can decide whether to read it in full.\n\nFormat in markdown: a bold **TL;DR** one-liner, then 3-5 single-idea bullets. Output only that.",
                language,
            );
            Ok(Prompt { system, user: write_excerpt(a.0.as_str(), a.1.as_str()) })
        },
    }
}

/// The summary to keep with the article: what was answered, where it is to be
/// kept and is not blank.
pub fn summary_to_save(save: bool, text: &str) -> (r: Option<String>)
    ensures
        text::view_of(r) == (if save {
            text::nonempty_of(Some(text::trimmed(text@)))
        } else {
            None
        }),
{
    if save {
        text::nonempty(Some(text::trim(text)))
    } else {
        None
    }
}

/// An article that an answer may draw from.
#[derive(Debug, PartialEq, Eq)]
pub struct Source {
    pub id: i64,
    pub title: String,
    pub feed_title: String,
    pub body: String,
}

/// What a question is asked about: each article with its feed and its first
/// 1200 characters.
pub open spec fn context_of(sources: Seq<Source>) -> Seq<char>
    decreases sources.len(),
{
    if sources.len() == 0 {
        Seq::empty()
    } else {
        let s = sources.last();
        context_of(sources.drop_last()) + ("## "@ + s.title@ + " — "@ + s.feed_title@ + "\n"@
            + truncated(s.body@, 1200).0 + "\n\n"@)
    }
}

/// What is asked for the answer to a question.
pub open spec fn ask_prompt(question: Seq<char>, sources: Seq<Source>, language: Seq<char>) -> PromptView {
    let context = context_of(sources);
    PromptView {
        system: "You answer the user's question using only the provided articles from their RSS subscriptions. Cite the article titles you draw from. If the articles do not contain the answer, say so plainly."@
            + language,
        user: if text::trimmed(context).len() == 0 {
            "No relevant articles were found.\n\nQuestion: "@ + question
        } else {
            "Articles from the user's feeds:\n\n"@ + context + "---\n\nQuestion: "@ + question
        },
    }
}

/// The ids of the articles that an answer may draw from.
pub open spec fn cited(sources: Seq<Source>) -> Seq<char> {
    if sources.len() == 0 {
        "none"@
    } else {
        text::joined(
            sources.map_values(|s: Source| text::numeral(s.id as int)),
            ","@,
        )
    }
}

/// What is asked for the answer to a question, and the ids of the articles
/// that it may draw from.
pub fn cmd_ask(question: &str, sources: &Vec<Source>, language: &str) -> (r: (Prompt, String))
    ensures
        r.0@ == ask_prompt(question@, sources@, language@),
        r.1@ == cited(sources@),
{
    let mut context = String::new();
    let mut ids: Vec<String> = Vec::new();
    let ghost numbers = sources@.map_values(|s: Source| text::numeral(s.id as int));
    assert(sources@.take(0) =~= Seq::<Source>::empty());
    assert(text::views(ids@) =~= numbers.take(0));
    for i in 0..sources.len()
        invariant
            numbers == sources@.map_values(|s: Source| text::numeral(s.id as int)),
            context@ == context_of(sources@.take(i as int)),
            text::views(ids@) == numbers.take(i as int),
    {
        assert(sources@.take(i + 1).drop_last() =~= sources@.take(i as int));
        let s = &sources[i];
        let (shown, _, _) = truncate(s.body.as_str(), 1200);
        let mut part = text::cat5("## ", s.title.as_str(), " — ", s.feed_title.as_str(), "\n");
        part.push_str(shown.as_str());
        part.push_str("\n\n");
        context.push_str(part.as_str());
        text::append(&mut ids, text::integer(s.id).as_str());
        assert(numbers.take(i + 1) =~= numbers.take(i as int).push(numbers[i as int]));
    }
    assert(sources@.take(sources@.len() as int) =~= sources@);
    assert(numbers.take(numbers.len() as int) =~= numbers);
    let system = text::cat(
        "You answer the user's question using only the provided articles from their RSS subscriptions. Cite the article titles you draw from. If the articles do not contain the answer, say so plainly.",
        language,
    );
    let user = if text::trim(context.as_str()).as_str().is_empty() {
        text::cat("No relevant articles were found.\n\nQuestion: ", question)
    } else {
        text::cat4(
            "Articles from the user's feeds:\n\n",
            context.as_str(),
            "---\n\nQuestion: ",
            question,
        )
    };
    let sources_text = if sources.len() == 0 {
        "none".to_owned()
    } else {
        text::join(&ids, ",")
    };
    (Prompt { system, user }, sources_text)
}

/// A recent article.
#[derive(Debug, PartialEq, Eq)]
pub struct Recent {
    pub title: String,
    pub feed: String,
    pub text: String,
}

/// What a briefing is over: each article with its feed and its first 400
/// characters.
pub open spec fn corpus_of(articles: Seq<Recent>) -> Seq<char>
    decreases articles.len(),
{
    if articles.len() == 0 {
        Seq::empty()
    } else {
        let a = articles.last();
        corpus_of(articles.drop_last()) + ("- ["@ + a.feed@ + "] "@ + a.title@ + ": "@ + truncated(
            a.text@,
            400,
        ).0 + "\n"@)
    }
}

/// What is asked for a briefing; with no articles there is nothing to ask,
/// which is said.
pub fn cmd_digest(articles: &Vec<Recent>, language: &str) -> (r: Result<Prompt, String>)
    ensures
        if articles@.len() == 0 {
            r matches Err(doc) && doc@ == one_line("digest: 0 recent articles to brief on"@)
        } else {
            r matches Ok(p) && p@ == (PromptView {
                system: "You are the user's personal news briefer. From the recent articles, write a crisp briefing: group related items into 2-4 themed sections with short headers, lead with what matters most, keep it skimmable. Plain prose, no preamble."@
                    + language@,
                user: "Recent articles from my feeds:\n\n"@ + corpus_of(articles@),
            })
        },
{
    if articles.len() == 0 {
        let mut out = Out::new();
        out.line(0, "digest: 0 recent articles to brief on");
        return Err(out.into_string());
    }
    let mut corpus = String::new();
    assert(articles@.take(0) =~= Seq::<Recent>::empty());
    for i in 0..articles.len()
        invariant
            corpus@ == corpus_of(articles@.take(i as int)),
    {
        assert(articles@.take(i + 1).drop_last() =~= articles@.take(i as int));
        let a = &articles[i];
        let (shown, _, _) = truncate(a.text.as_str(), 400);
        let mut part = text::cat5("- [", a.feed.as_str(), "] ", a.title.as_str(), ": ");
        part.push_str(shown.as_str());
        part.push_str("\n");
        corpus.push_str(part.as_str());
    }
    assert(articles@.take(articles@.len() as int) =~= articles@);
    let system = text::cat(
        "You are the user's personal news briefer. From the recent articles, write a crisp briefing: group related items into 2-4 themed sections with short headers, lead with what matters most, keep it skimmable. Plain prose, no preamble.",
        language,
    );
    Ok(Prompt { system, user: text::cat("Recent articles from my feeds:\n\n", corpus.as_str()) })
}

/// What is asked for a translation of an article; one that is missing or has
/// no text is refused.
pub open spec fn translation_prompt(
    id: int,
    article: Option<(Seq<char>, Seq<char>)>,
    lang: Seq<char>,
) -> Result<PromptView, AxiErrorView> {
    match article {
        None => Err(runtime_error("article #"@ + text::numeral(id) + " not found"@)),
        Some(a) => if text::trimmed(a.1).len() == 0 {
            Err(runtime_error("article #"@ + text::numeral(id) + " has no text to translate"@))
        } else {
            Ok(
                PromptView {
                    system: "You are a professional translator. Translate the article into "@
                        + lang
                        + ", preserving meaning, tone and paragraph structure. Output only the translation, no notes."@,
                    user: excerpt(a.0, a.1),
                },
            )
        },
    }
}

/// What is asked for a translation of an article.
pub fn cmd_translate(id: i64, article: Option<(String, String)>, lang: &str) -> (r: Result<
    Prompt,
    AxiError,
>)
    ensures
        prompt_outcome(r) == translation_prompt(id as int, article_of(article), lang@),
{
    let number = text::integer(id);
    match article {
        None => {
            let message = text::cat3("article #", number.as_str(), " not found");
            Err(AxiError::runtime(message.as_str()))
        },
        Some(a) => {
            if text::trim(a.1.as_str()).as_str().is_empty() {
                let message = text::cat3("article #", number.as_str(), " has no text to translate");
                return Err(AxiError::runtime(message.as_str()));
            }
            let system = text::cat3(
                "You are a professional translator. Translate the article into ",
                lang,
                ", preserving meaning, tone and paragraph structure. Output only the translation, no notes.",
            );
            Ok(Prompt { system, user: write_excerpt(a.0.as_str(), a.1.as_str()) })
        },
    }
}

/// The failure of a request to a provider.
pub fn ai_failed(e: &str) -> (r: AxiError)
    ensures
        r@ == runtime_error("AI request failed: "@ + e@),
{
    let message = text::cat("AI request failed: ", e);
    AxiError::runtime(message.as_str())
}

// ───────────────────────────── laws ─────────────────────────────

/// A briefing is over every article, in order: one article more adds exactly
/// one line, with its feed, its title and its first 400 characters.
pub proof fn law_every_article_is_briefed_on(articles: Seq<Recent>, a: Recent)
    ensures
        corpus_of(Seq::empty()) == Seq::<char>::empty(),
        corpus_of(articles.push(a)) == corpus_of(articles) + "- ["@ + a.feed@ + "] "@ + a.title@
            + ": "@ + a.text@.take(
            if a.text@.len() < 400 {
                a.text@.len() as int
            } else {
                400
            },
        ) + "\n"@,
{
    assert(articles.push(a).drop_last() =~= articles);
    assert(a.text@.take(a.text@.len() as int) =~= a.text@);
    assert(corpus_of(articles.push(a)) =~= corpus_of(articles) + "- ["@ + a.feed@ + "] "@ + a.title@
        + ": "@ + truncated(a.text@, 400).0 + "\n"@);
}

/// A question is asked about every article, in order: one article more adds its
/// title, its feed and its first 1200 characters.
pub proof fn law_every_source_is_given(sources: Seq<Source>, s: Source)
    ensures
        context_of(Seq::empty()) == Seq::<char>::empty(),
        context_of(sources.push(s)) == context_of(sources) + "## "@ + s.title@ + " — "@
            + s.feed_title@ + "\n"@ + s.body@.take(
            if s.body@.len() < 1200 {
                s.body@.len() as int
            } else {
                1200
            },
        ) + "\n\n"@,
{
    assert(sources.push(s).drop_last() =~= sources);
    assert(s.body@.take(s.body@.len() as int) =~= s.body@);
    assert(context_of(sources.push(s)) =~= context_of(sources) + "## "@ + s.title@ + " — "@
        + s.feed_title@ + "\n"@ + truncated(s.body@, 1200).0 + "\n\n"@);
}

/// A question reaches the provider whole, at the end of what it is asked, with
/// everything that the articles say before it where there are any.
pub proof fn law_questions_are_asked(
    question: Seq<char>,
    sources: Seq<Source>,
    language: Seq<char>,
)
    ensures
        ({
            let asked = ask_prompt(question, sources, language);
            &&& sources.len() == 0 ==> asked.user == "No relevant articles were found.\n\nQuestion: "@
                + question
            &&& sources.len() > 0 ==> asked.user == "Articles from the user's feeds:\n\n"@
                + context_of(sources) + "---\n\nQuestion: "@ + question
            &&& asked.system.skip(asked.system.len() - language.len()) == language
            &&& asked.system.len() > language.len()
        }),
{
    let asked = ask_prompt(question, sources, language);
    let rule = "You answer the user's question using only the provided articles from their RSS subscriptions. Cite the article titles you draw from. If the articles do not contain the answer, say so plainly."@;
    reveal_strlit(
        "You answer the user's question using only the provided articles from their RSS subscriptions. Cite the article titles you draw from. If the articles do not contain the answer, say so plainly.",
    );
    assert((rule + language).skip(rule.len() as int) =~= language);
    text::law_blank_texts_trim_to_nothing(context_of(sources));
    if sources.len() > 0 {
        let s = sources.last();
        let before = context_of(sources.drop_last());
        reveal_strlit("## ");
        assert("## "@[0] == '#');
        assert(context_of(sources)[before.len() as int] == '#');
        assert(!text::is_space(context_of(sources)[before.len() as int]));
    }
}

/// The articles that an answer may draw from are cited by their ids, each of
/// them and in order.
pub proof fn law_every_source_is_cited(sources: Seq<Source>, s: Source)
    ensures
        cited(Seq::empty()) == "none"@,
        cited(seq![s]) == text::numeral(s.id as int),
        sources.len() > 0 ==> cited(sources.push(s)) == cited(sources) + ","@ + text::numeral(
            s.id as int,
        ),
{
    let f = |s: Source| text::numeral(s.id as int);
    assert(seq![s].map_values(f) =~= seq![text::numeral(s.id as int)]);
    assert(sources.push(s).map_values(f) =~= sources.map_values(f).push(
        text::numeral(s.id as int),
    ));
    assert(sources.map_values(f).push(text::numeral(s.id as int)).drop_last()
        =~= sources.map_values(f));
}

/// A summary is asked of an article exactly where it is there and has a body
/// that is not blank; what is sent is its title and its first 8000 characters,
/// and the answer is asked for in the language of the user interface.
pub proof fn law_summaries_are_of_the_article(
    id: int,
    title: Seq<char>,
    body: Seq<char>,
    language: Seq<char>,
)
    ensures
        summary_prompt(id, None, language) matches Err(e) && e.message == "article #"@
            + text::numeral(id) + " not found"@ && !e.usage && e.help.len() == 0,
        text::trimmed(body).len() == 0 ==> (summary_prompt(id, Some((title, body)), language)
            matches Err(e) && e.message == "article #"@ + text::numeral(id)
            + " has no body to summarize"@ && !e.usage && e.help.len() == 0),
        text::trimmed(body).len() > 0 ==> (summary_prompt(id, Some((title, body)), language)
            matches Ok(p) && p.user == "Title: "@ + title + "\n\n"@ + body.take(
            if body.len() < 8000 {
                body.len() as int
            } else {
                8000
            },
        ) && p.system.len() > language.len() && p.system.skip(p.system.len() - language.len())
            == language),
{
    let rule = "You are a sharp news editor. Summarize the article so a reader can decide whether to read it in full.\n\nFormat in markdown: a bold **TL;DR** one-liner, then 3-5 single-idea bullets. Output only that."@;
    reveal_strlit(
        "You are a sharp news editor. Summarize the article so a reader can decide whether to read it in full.\n\nFormat in markdown: a bold **TL;DR** one-liner, then 3-5 single-idea bullets. Output only that.",
    );
    assert((rule + language).skip(rule.len() as int) =~= language);
    assert(body.take(body.len() as int) =~= body);
}

/// A translation is asked of an article exactly where it is there and has a
/// body that is not blank; what is sent is its title and its first 8000
/// characters, and the instruction names the language.
pub proof fn law_translations_are_of_the_article(
    id: int,
    title: Seq<char>,
    body: Seq<char>,
    lang: Seq<char>,
)
    ensures
        translation_prompt(id, None, lang) matches Err(e) && e.message == "article #"@
            + text::numeral(id) + " not found"@ && !e.usage && e.help.len() == 0,
        text::trimmed(body).len() == 0 ==> (translation_prompt(id, Some((title, body)), lang)
            matches Err(e) && e.message == "article #"@ + text::numeral(id)
            + " has no text to translate"@ && !e.usage && e.help.len() == 0),
        text::trimmed(body).len() > 0 ==> (translation_prompt(id, Some((title, body)), lang)
            matches Ok(p) && p.user == "Title: "@ + title + "\n\n"@ + body.take(
            if body.len() < 8000 {
                body.len() as int
            } else {
                8000
            },
        ) && p.system
            == "You are a professional translator. Translate the article into "@ + lang
            + ", preserving meaning, tone and paragraph structure. Output only the translation, no notes."@),
{
    assert(body.take(body.len() as int) =~= body);
}

/// Answers are asked for in Chinese or Japanese where that is the language of
/// the user interface, and in English otherwise.
pub proof fn law_answers_are_in_the_language(setting: Option<Seq<char>>)
    ensures
        language_of(Some("zh"@)) == "\n\nAlways write your response in Simplified Chinese."@,
        language_of(Some("ja"@)) == "\n\nAlways write your response in Japanese."@,
        setting != Some("zh"@) && setting != Some("ja"@) ==> language_of(setting)
            == "\n\nAlways write your response in English."@,
{
    reveal_strlit("zh");
    reveal_strlit("ja");
    assert("zh"@[0] == 'z');
    assert("ja"@[0] == 'j');
}

/// An answer is printed under its header, every line of which is there in
/// order, and it loses nothing but the white space around it.
pub proof fn law_answers_are_printed_whole(
    header: Seq<(Seq<char>, Seq<char>)>,
    entry: (Seq<char>, Seq<char>),
    doc: Seq<char>,
    body: Seq<char>,
)
    ensures
        header_lines_to(doc, Seq::empty()) == doc,
        header_lines_to(doc, header.push(entry)) == kv_to(
            header_lines_to(doc, header),
            0,
            entry.0,
            entry.1,
        ),
        answer_text(header, body) == block_to(
            header_lines_to(Seq::empty(), header),
            0,
            "text"@,
            text::trimmed(body),
        ),
{
    assert(header.push(entry).drop_last() =~= header);
}

/// Where no provider is configured it is said how to configure one, and that is
/// no wrong use.
pub proof fn law_missing_providers_are_named(p: Prompt, e: AxiError, a: (String, String))
    ensures
        no_provider().message == "no AI provider configured"@,
        no_provider().help == seq![
            "Run `papr settings set ai_api_key <key>` (and optionally ai_provider / ai_model)"@,
            "Or configure AI in the Papr desktop app"@,
        ],
        !no_provider().usage,
        prompt_outcome(Ok(p)) == Ok::<PromptView, AxiErrorView>(p@),
        prompt_outcome(Err(e)) == Err::<PromptView, AxiErrorView>(e@),
        p@.system == p.system@,
        p@.user == p.user@,
        article_of(Some(a)) == Some((a.0@, a.1@)),
        article_of(None) is None,
{
}

} // verus!
