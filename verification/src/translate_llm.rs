//! Article translation by the language model that writes the summaries: what
//! it is told, and what is taken of its answer.

use vstd::prelude::*;
use crate::assistant::{Prompt, PromptView};
use crate::text;

verus! {

/// The English name of a language; English for a code that is not known.
pub open spec fn name_of(code: Seq<char>) -> Seq<char> {
    if code == "ar"@ {
        "Arabic"@
    } else if code == "bg"@ {
        "Bulgarian"@
    } else if code == "cs"@ {
        "Czech"@
    } else if code == "da"@ {
        "Danish"@
    } else if code == "de"@ {
        "German"@
    } else if code == "el"@ {
        "Greek"@
    } else if code == "es"@ {
        "Spanish"@
    } else if code == "et"@ {
        "Estonian"@
    } else if code == "fi"@ {
        "Finnish"@
    } else if code == "fr"@ {
        "French"@
    } else if code == "he"@ {
        "Hebrew"@
    } else if code == "hi"@ {
        "Hindi"@
    } else if code == "hu"@ {
        "Hungarian"@
    } else if code == "id"@ {
        "Indonesian"@
    } else if code == "it"@ {
        "Italian"@
    } else if code == "ja"@ {
        "Japanese"@
    } else if code == "ko"@ {
        "Korean"@
    } else if code == "lt"@ {
        "Lithuanian"@
    } else if code == "lv"@ {
        "Latvian"@
    } else if code == "nl"@ {
        "Dutch"@
    } else if code == "no"@ {
        "Norwegian"@
    } else if code == "pl"@ {
        "Polish"@
    } else if code == "pt"@ {
        "Portuguese"@
    } else if code == "pt-BR"@ {
        "Brazilian Portuguese"@
    } else if code == "ro"@ {
        "Romanian"@
    } else if code == "ru"@ {
        "Russian"@
    } else if code == "sk"@ {
        "Slovak"@
    } else if code == "sl"@ {
        "Slovenian"@
    } else if code == "sv"@ {
        "Swedish"@
    } else if code == "th"@ {
        "Thai"@
    } else if code == "tr"@ {
        "Turkish"@
    } else if code == "uk"@ {
        "Ukrainian"@
    } else if code == "vi"@ {
        "Vietnamese"@
    } else if code == "zh-Hans"@ {
        "Simplified Chinese"@
    } else if code == "zh-Hant"@ {
        "Traditional Chinese"@
    } else {
        "English"@
    }
}

/// The English name of a language; English for a code that is not known.
pub fn language_name(code: &str) -> (r: &'static str)
    ensures
        r@ == name_of(code@),
{
    if text::same(code, "ar") {
        "Arabic"
    } else if text::same(code, "bg") {
        "Bulgarian"
    } else if text::same(code, "cs") {
        "Czech"
    } else if text::same(code, "da") {
        "Danish"
    } else if text::same(code, "de") {
        "German"
    } else if text::same(code, "el") {
        "Greek"
    } else if text::same(code, "es") {
        "Spanish"
    } else if text::same(code, "et") {
        "Estonian"
    } else if text::same(code, "fi") {
        "Finnish"
    } else if text::same(code, "fr") {
        "French"
    } else if text::same(code, "he") {
        "Hebrew"
    } else if text::same(code, "hi") {
        "Hindi"
    } else if text::same(code, "hu") {
        "Hungarian"
    } else if text::same(code, "id") {
        "Indonesian"
    } else if text::same(code, "it") {
        "Italian"
    } else if text::same(code, "ja") {
        "Japanese"
    } else if text::same(code, "ko") {
        "Korean"
    } else if text::same(code, "lt") {
        "Lithuanian"
    } else if text::same(code, "lv") {
        "Latvian"
    } else if text::same(code, "nl") {
        "Dutch"
    } else if text::same(code, "no") {
        "Norwegian"
    } else if text::same(code, "pl") {
        "Polish"
    } else if text::same(code, "pt") {
        "Portuguese"
    } else if text::same(code, "pt-BR") {
        "Brazilian Portuguese"
    } else if text::same(code, "ro") {
        "Romanian"
    } else if text::same(code, "ru") {
        "Russian"
    } else if text::same(code, "sk") {
        "Slovak"
    } else if text::same(code, "sl") {
        "Slovenian"
    } else if text::same(code, "sv") {
        "Swedish"
    } else if text::same(code, "th") {
        "Thai"
    } else if text::same(code, "tr") {
        "Turkish"
    } else if text::same(code, "uk") {
        "Ukrainian"
    } else if text::same(code, "vi") {
        "Vietnamese"
    } else if text::same(code, "zh-Hans") {
        "Simplified Chinese"
    } else if text::same(code, "zh-Hant") {
        "Traditional Chinese"
    } else {
        "English"
    }
}

/// What the model is told to do.
pub open spec fn system_prompt(target: Seq<char>) -> Seq<char> {
    "You are a professional translator. Translate the text content of the HTML fragment into "@
        + target
        + ".\n\nRules:\n- Preserve every HTML tag, attribute, and the overall structure exactly.\n- Translate only human-readable text; do not translate code or URLs.\n- Keep images, links, and all other markup intact.\n- Output only the translated HTML fragment: no preamble, no code fences."@
}

/// What the model is told to do.
pub fn translate_system_prompt(target: &str) -> (r: String)
    ensures
        r@ == system_prompt(target@),
{
    text::cat3(
        "You are a professional translator. Translate the text content of the HTML fragment into ",
        target,
        ".\n\nRules:\n- Preserve every HTML tag, attribute, and the overall structure exactly.\n- Translate only human-readable text; do not translate code or URLs.\n- Keep images, links, and all other markup intact.\n- Output only the translated HTML fragment: no preamble, no code fences.",
    )
}

/// What stands behind the first line of a text; all of it where it is one
/// line.
pub open spec fn behind_first_line(s: Seq<char>) -> Seq<char> {
    let first = text::pieces(s, '\n')[0];
    if s.contains('\n') {
        s.skip(first.len() as int + 1)
    } else {
        s
    }
}

/// The text inside a code fence, without white space around it; a text that
/// is in none, without white space around it.
pub open spec fn unfenced(s: Seq<char>) -> Seq<char> {
    let t = text::trimmed(s);
    if text::begins(t, "```"@) {
        let rest = t.skip("```"@.len() as int);
        let inside = if text::ends(rest, "```"@) {
            rest.take(rest.len() - "```"@.len())
        } else {
            rest
        };
        text::trimmed(behind_first_line(inside))
    } else {
        t
    }
}

proof fn lemma_first_piece(s: Seq<char>, c: char, i: int)
    requires
        0 <= i < s.len(),
        s[i] == c,
        !s.take(i).contains(c),
    ensures
        text::pieces(s, c).len() >= 2,
        text::pieces(s, c)[0] == s.take(i),
    decreases s.len(),
{
    let rest = s.drop_last();
    text::lemma_pieces_nonempty(rest, c);
    if i == s.len() - 1 {
        assert(s.take(i) =~= rest);
        text::lemma_one_piece(rest, c);
    } else {
        assert(rest.take(i) =~= s.take(i));
        lemma_first_piece(rest, c, i);
    }
}

fn drop_first_line(s: &str) -> (r: String)
    ensures
        r@ == behind_first_line(s@),
{
    let chars = text::chars_of(s);
    let end: usize = chars.len();
    match text::find_char(&chars, '\n') {
        Some(i) => {
            proof {
                lemma_first_piece(s@, '\n', i as int);
            }
            let rest = text::text_between(&chars, i + 1, end);
            assert(rest@ =~= s@.skip(i + 1));
            rest
        },
        None => s.to_owned(),
    }
}

/// The text inside a code fence, where the text is in one.
pub fn strip_code_fence(s: &str) -> (r: String)
    ensures
        r@ == unfenced(s@),
{
    let trimmed = text::trim(s);
    match text::strip_prefix(trimmed.as_str(), "```") {
        Some(rest) => {
            let inside = match text::strip_suffix(rest.as_str(), "```") {
                Some(inside) => inside,
                None => rest,
            };
            text::trim(drop_first_line(inside.as_str()).as_str())
        },
        None => trimmed,
    }
}

/// What the model is asked, to have one HTML fragment translated; its answer
/// is for [`strip_code_fence`].
pub fn translate_html(html: &str, app_code: &str) -> (r: Prompt)
    ensures
        r@ == (PromptView { system: system_prompt(name_of(app_code@)), user: html@ }),
{
    Prompt { system: translate_system_prompt(language_name(app_code)), user: html.to_owned() }
}

// ───────────────────────────── laws ─────────────────────────────

/// An answer that is in no fence is taken as it is, but for the white space
/// around it.
pub proof fn law_plain_answers_are_kept(s: Seq<char>)
    requires
        !text::begins(text::trimmed(s), "```"@),
    ensures
        unfenced(s) == text::trimmed(s),
{
}

/// A fragment comes out of a fence as it went in, whatever the fence's
/// language tag, but for the white space around it.
pub proof fn law_fences_come_off(tag: Seq<char>, html: Seq<char>)
    requires
        !tag.contains('\n'),
    ensures
        unfenced("```"@ + tag + seq!['\n'] + html + seq!['\n'] + "```"@) == text::trimmed(
            html,
        ),
{
    reveal_strlit("```");
    let fence = "```"@;
    let whole = fence + tag + seq!['\n'] + html + seq!['\n'] + fence;
    assert(whole[0] == '`');
    assert(whole.last() == '`');
    lemma_untrimmed(whole);
    assert(text::begins(whole, fence)) by {
        assert(whole.subrange(0, 3) =~= fence);
    }
    let rest = whole.skip(3);
    let body = tag + seq!['\n'] + html + seq!['\n'];
    assert(rest =~= body + fence);
    assert(text::ends(rest, fence)) by {
        assert(rest.subrange(rest.len() - 3, rest.len() as int) =~= fence);
    }
    assert(rest.take(rest.len() - 3) =~= body);
    assert(body[tag.len() as int] == '\n');
    assert(body.take(tag.len() as int) =~= tag);
    lemma_first_piece(body, '\n', tag.len() as int);
    assert(body.contains('\n'));
    assert(body.skip(tag.len() as int + 1) =~= html + seq!['\n']);
    lemma_space_behind(html, '\n');
}

proof fn lemma_space_behind(s: Seq<char>, c: char)
    requires
        text::is_space(c),
    ensures
        text::trimmed(s.push(c)) == text::trimmed(s),
        s.push(c) == s + seq![c],
    decreases s.len(),
{
    let t = s.push(c);
    assert(t =~= s + seq![c]);
    assert(t.drop_last() =~= s);
    if s.len() == 0 {
        assert(t.drop_first() =~= s);
        assert(text::trimmed_start(t) == text::trimmed_start(s));
    } else if text::is_space(s[0]) {
        lemma_space_behind(s.drop_first(), c);
        assert(t.drop_first() =~= s.drop_first().push(c));
    }
}

proof fn lemma_untrimmed(s: Seq<char>)
    requires
        s.len() > 0,
        !text::is_space(s[0]),
        !text::is_space(s.last()),
    ensures
        text::trimmed(s) == s,
{
    assert(text::trimmed_start(s) == s);
    assert(text::trimmed_end(s) == s);
}

/// Every language that can be asked for has its name, and a code that is not
/// known means English.
pub proof fn law_languages_have_their_names(code: Seq<char>)
    ensures
        name_of("ar"@) == "Arabic"@,
        name_of("bg"@) == "Bulgarian"@,
        name_of("cs"@) == "Czech"@,
        name_of("da"@) == "Danish"@,
        name_of("de"@) == "German"@,
        name_of("el"@) == "Greek"@,
        name_of("es"@) == "Spanish"@,
        name_of("et"@) == "Estonian"@,
        name_of("fi"@) == "Finnish"@,
        name_of("fr"@) == "French"@,
        name_of("he"@) == "Hebrew"@,
        name_of("hi"@) == "Hindi"@,
        name_of("hu"@) == "Hungarian"@,
        name_of("id"@) == "Indonesian"@,
        name_of("it"@) == "Italian"@,
        name_of("ja"@) == "Japanese"@,
        name_of("ko"@) == "Korean"@,
        name_of("lt"@) == "Lithuanian"@,
        name_of("lv"@) == "Latvian"@,
        name_of("nl"@) == "Dutch"@,
        name_of("no"@) == "Norwegian"@,
        name_of("pl"@) == "Polish"@,
        name_of("pt"@) == "Portuguese"@,
        name_of("pt-BR"@) == "Brazilian Portuguese"@,
        name_of("ro"@) == "Romanian"@,
        name_of("ru"@) == "Russian"@,
        name_of("sk"@) == "Slovak"@,
        name_of("sl"@) == "Slovenian"@,
        name_of("sv"@) == "Swedish"@,
        name_of("th"@) == "Thai"@,
        name_of("tr"@) == "Turkish"@,
        name_of("uk"@) == "Ukrainian"@,
        name_of("vi"@) == "Vietnamese"@,
        name_of("zh-Hans"@) == "Simplified Chinese"@,
        name_of("zh-Hant"@) == "Traditional Chinese"@,
        ({
            &&& code != "ar"@
            &&& code != "bg"@
            &&& code != "cs"@
            &&& code != "da"@
            &&& code != "de"@
            &&& code != "el"@
            &&& code != "es"@
            &&& code != "et"@
            &&& code != "fi"@
            &&& code != "fr"@
            &&& code != "he"@
            &&& code != "hi"@
            &&& code != "hu"@
            &&& code != "id"@
            &&& code != "it"@
            &&& code != "ja"@
            &&& code != "ko"@
            &&& code != "lt"@
            &&& code != "lv"@
            &&& code != "nl"@
            &&& code != "no"@
            &&& code != "pl"@
            &&& code != "pt"@
            &&& code != "pt-BR"@
            &&& code != "ro"@
            &&& code != "ru"@
            &&& code != "sk"@
            &&& code != "sl"@
            &&& code != "sv"@
            &&& code != "th"@
            &&& code != "tr"@
            &&& code != "uk"@
            &&& code != "vi"@
            &&& code != "zh-Hans"@
            &&& code != "zh-Hant"@
        }) ==> name_of(code) == "English"@,
{
    reveal_strlit("ar");
    reveal_strlit("bg");
    reveal_strlit("cs");
    reveal_strlit("da");
    reveal_strlit("de");
    reveal_strlit("el");
    reveal_strlit("es");
    reveal_strlit("et");
    reveal_strlit("fi");
    reveal_strlit("fr");
    reveal_strlit("he");
    reveal_strlit("hi");
    reveal_strlit("hu");
    reveal_strlit("id");
    reveal_strlit("it");
    reveal_strlit("ja");
    reveal_strlit("ko");
    reveal_strlit("lt");
    reveal_strlit("lv");
    reveal_strlit("nl");
    reveal_strlit("no");
    reveal_strlit("pl");
    reveal_strlit("pt");
    reveal_strlit("pt-BR");
    reveal_strlit("ro");
    reveal_strlit("ru");
    reveal_strlit("sk");
    reveal_strlit("sl");
    reveal_strlit("sv");
    reveal_strlit("th");
    reveal_strlit("tr");
    reveal_strlit("uk");
    reveal_strlit("vi");
    reveal_strlit("zh-Hans");
    reveal_strlit("zh-Hant");
    assert("ar"@.len() == 2 && "ar"@[0] == 'a' && "ar"@[1] == 'r');
    assert("bg"@.len() == 2 && "bg"@[0] == 'b' && "bg"@[1] == 'g');
    assert("cs"@.len() == 2 && "cs"@[0] == 'c' && "cs"@[1] == 's');
    assert("da"@.len() == 2 && "da"@[0] == 'd' && "da"@[1] == 'a');
    assert("de"@.len() == 2 && "de"@[0] == 'd' && "de"@[1] == 'e');
    assert("el"@.len() == 2 && "el"@[0] == 'e' && "el"@[1] == 'l');
    assert("es"@.len() == 2 && "es"@[0] == 'e' && "es"@[1] == 's');
    assert("et"@.len() == 2 && "et"@[0] == 'e' && "et"@[1] == 't');
    assert("fi"@.len() == 2 && "fi"@[0] == 'f' && "fi"@[1] == 'i');
    assert("fr"@.len() == 2 && "fr"@[0] == 'f' && "fr"@[1] == 'r');
    assert("he"@.len() == 2 && "he"@[0] == 'h' && "he"@[1] == 'e');
    assert("hi"@.len() == 2 && "hi"@[0] == 'h' && "hi"@[1] == 'i');
    assert("hu"@.len() == 2 && "hu"@[0] == 'h' && "hu"@[1] == 'u');
    assert("id"@.len() == 2 && "id"@[0] == 'i' && "id"@[1] == 'd');
    assert("it"@.len() == 2 && "it"@[0] == 'i' && "it"@[1] == 't');
    assert("ja"@.len() == 2 && "ja"@[0] == 'j' && "ja"@[1] == 'a');
    assert("ko"@.len() == 2 && "ko"@[0] == 'k' && "ko"@[1] == 'o');
    assert("lt"@.len() == 2 && "lt"@[0] == 'l' && "lt"@[1] == 't');
    assert("lv"@.len() == 2 && "lv"@[0] == 'l' && "lv"@[1] == 'v');
    assert("nl"@.len() == 2 && "nl"@[0] == 'n' && "nl"@[1] == 'l');
    assert("no"@.len() == 2 && "no"@[0] == 'n' && "no"@[1] == 'o');
    assert("pl"@.len() == 2 && "pl"@[0] == 'p' && "pl"@[1] == 'l');
    assert("pt"@.len() == 2 && "pt"@[0] == 'p' && "pt"@[1] == 't');
    assert("pt-BR"@.len() == 5 && "pt-BR"@[0] == 'p' && "pt-BR"@[1] == 't');
    assert("ro"@.len() == 2 && "ro"@[0] == 'r' && "ro"@[1] == 'o');
    assert("ru"@.len() == 2 && "ru"@[0] == 'r' && "ru"@[1] == 'u');
    assert("sk"@.len() == 2 && "sk"@[0] == 's' && "sk"@[1] == 'k');
    assert("sl"@.len() == 2 && "sl"@[0] == 's' && "sl"@[1] == 'l');
    assert("sv"@.len() == 2 && "sv"@[0] == 's' && "sv"@[1] == 'v');
    assert("th"@.len() == 2 && "th"@[0] == 't' && "th"@[1] == 'h');
    assert("tr"@.len() == 2 && "tr"@[0] == 't' && "tr"@[1] == 'r');
    assert("uk"@.len() == 2 && "uk"@[0] == 'u' && "uk"@[1] == 'k');
    assert("vi"@.len() == 2 && "vi"@[0] == 'v' && "vi"@[1] == 'i');
    assert("zh-Hans"@.len() == 7 && "zh-Hans"@[0] == 'z' && "zh-Hans"@[1] == 'h');
    assert("zh-Hant"@.len() == 7 && "zh-Hant"@[0] == 'z' && "zh-Hant"@[1] == 'h');
    assert("zh-Hans"@[6] == 's' && "zh-Hant"@[6] == 't');
}

/// The model is told the language to translate into, and to keep the markup.
pub proof fn law_models_are_told_the_language(target: Seq<char>)
    ensures
        system_prompt(target)
            == "You are a professional translator. Translate the text content of the HTML fragment into "@
            + target
            + ".\n\nRules:\n- Preserve every HTML tag, attribute, and the overall structure exactly.\n- Translate only human-readable text; do not translate code or URLs.\n- Keep images, links, and all other markup intact.\n- Output only the translated HTML fragment: no preamble, no code fences."@,
{
}

/// A fence that was not closed comes off too, with its language tag.
pub proof fn law_open_fences_come_off(s: Seq<char>, inside: Seq<char>)
    requires
        text::trimmed(s) == "```"@ + inside,
    ensures
        !text::ends(inside, "```"@) ==> unfenced(s) == text::trimmed(behind_first_line(inside)),
        text::ends(inside, "```"@) ==> unfenced(s) == text::trimmed(
            behind_first_line(inside.take(inside.len() - 3)),
        ),
{
    reveal_strlit("```");
    let t = "```"@ + inside;
    assert(t.subrange(0, 3) =~= "```"@);
    assert(t.skip(3) =~= inside);
}

/// What stands behind the first line is all that follows its line break, and a
/// text of one line is left whole.
pub proof fn law_first_lines_come_off(line: Seq<char>, rest: Seq<char>)
    requires
        !line.contains('\n'),
    ensures
        behind_first_line(line) == line,
        behind_first_line(line + seq!['\n'] + rest) == rest,
{
    let all = line + seq!['\n'] + rest;
    text::lemma_one_piece(line, '\n');
    text::lemma_pieces_add(line, rest, '\n');
    assert((seq![line] + text::pieces(rest, '\n'))[0] == line);
    assert(all[line.len() as int] == '\n');
    assert(all.contains('\n'));
    assert(all.skip(line.len() as int + 1) =~= rest);
}

} // verus!
