//! What the command line's commands share: errors, view selectors, and how
//! cells, flags, dates and sizes are written.

use vstd::prelude::*;
use crate::error::{AppError, ErrorView};
use crate::models::{ArticleDetail, ArticleQuery, ArticleSummary, Feed};
use crate::text;
use crate::toon::{cells, help_to, kv_to, line_to, scalar, scalar_of, table_to, Out};

verus! {

// ───────────────────────────── errors ─────────────────────────────

/// An error that an agent can read and act on.
#[derive(Debug, PartialEq, Eq)]
pub struct AxiError {
    pub message: String,
    pub help: Vec<String>,
    pub usage: bool,
}

/// What an [`AxiError`] says.
#[verifier::ext_equal]
pub struct AxiErrorView {
    pub message: Seq<char>,
    pub help: Seq<Seq<char>>,
    pub usage: bool,
}

impl View for AxiError {
    type V = AxiErrorView;

    open spec fn view(&self) -> AxiErrorView {
        AxiErrorView {
            message: self.message@,
            help: text::views(self.help@),
            usage: self.usage,
        }
    }
}

/// What a command came back with.
pub open spec fn outcome(r: Result<String, AxiError>) -> Result<Seq<char>, AxiErrorView> {
    match r {
        Ok(s) => Ok(s@),
        Err(e) => Err(e@),
    }
}

/// A failure at run time.
pub open spec fn runtime_error(message: Seq<char>) -> AxiErrorView {
    AxiErrorView { message, help: Seq::empty(), usage: false }
}

impl AxiError {
    /// A failure at run time.
    pub fn runtime(message: &str) -> (r: Self)
        ensures
            r@ == runtime_error(message@),
    {
        let help: Vec<String> = Vec::new();
        assert(text::views(help@) =~= Seq::<Seq<char>>::empty());
        AxiError { message: message.to_owned(), help, usage: false }
    }

    /// A failure at run time, with what to do about it.
    pub fn runtime_help(message: &str, help: Vec<String>) -> (r: Self)
        ensures
            r@ == (AxiErrorView { message: message@, help: text::views(help@), usage: false }),
    {
        AxiError { message: message.to_owned(), help, usage: false }
    }

    /// A wrong use, with what to do instead.
    pub fn usage(message: &str, help: Vec<String>) -> (r: Self)
        ensures
            r@ == (AxiErrorView { message: message@, help: text::views(help@), usage: true }),
    {
        AxiError { message: message.to_owned(), help, usage: true }
    }

    /// The exit code: 2 for a wrong use, else 1.
    pub fn exit_code(&self) -> (r: u8)
        ensures
            r == (if self@.usage {
                2u8
            } else {
                1u8
            }),
    {
        if self.usage {
            2
        } else {
            1
        }
    }
}

/// The failure of the store, in its own words.
pub open spec fn store_error(e: ErrorView) -> AxiErrorView {
    runtime_error(
        match e {
            ErrorView::Code(s) => s,
            ErrorView::Other(s) => s,
            ErrorView::Network(s) => s,
            ErrorView::Store(s) => s,
            ErrorView::Opml(s) => s,
        },
    )
}

/// The failure of the store, as the command line reports it.
pub fn db_err(e: &AppError) -> (r: AxiError)
    ensures
        r@ == store_error(e@),
{
    AxiError::runtime(e.message().as_str())
}

/// An error as it is printed.
pub open spec fn error_text(e: AxiErrorView) -> Seq<char> {
    help_to(kv_to(Seq::empty(), 0, "error"@, e.message), e.help)
}

/// An error as it is printed: on the same channel as results, in the same
/// notation.
pub fn render_error(e: &AxiError) -> (r: String)
    ensures
        r@ == error_text(e@),
{
    let mut out = Out::new();
    out.kv(0, "error", e.message.as_str());
    out.help(&e.help);
    out.into_string()
}

/// The refusal of a destructive action that was not confirmed.
pub open spec fn unconfirmed(action: Seq<char>, rerun: Seq<char>) -> AxiErrorView {
    AxiErrorView {
        message: action + " is destructive and needs confirmation"@,
        help: seq!["Run `"@ + rerun + " --yes` to proceed"@],
        usage: true,
    }
}

/// Lets a destructive action through only where it was confirmed.
pub fn require_yes(yes: bool, action: &str, rerun: &str) -> (r: Result<(), AxiError>)
    ensures
        r is Ok <==> yes,
        r matches Err(e) ==> e@ == unconfirmed(action@, rerun@),
{
    if yes {
        return Ok(());
    }
    let message = text::cat(action, " is destructive and needs confirmation");
    let hint = text::cat3("Run `", rerun, " --yes` to proceed");
    Err(AxiError::usage(message.as_str(), text::list1(hint.as_str())))
}

/// A document of one line.
pub open spec fn one_line(line: Seq<char>) -> Seq<char> {
    line_to(Seq::empty(), 0, line)
}

/// A document of one line.
pub fn ok_line(text: &str) -> (r: Result<String, AxiError>)
    ensures
        outcome(r) == Ok::<Seq<char>, AxiErrorView>(one_line(text@)),
{
    let mut out = Out::new();
    out.line(0, text);
    Ok(out.into_string())
}

// ─────────────────────────── view selectors ───────────────────────────

/// The selectors of a view, which combine.
#[derive(Debug, PartialEq, Eq)]
pub struct FilterArgs {
    pub feed: Option<i64>,
    pub folder: Option<i64>,
    pub tag: Option<i64>,
    pub starred: bool,
    pub later: bool,
}

/// What decides whether an article is in a view.
pub struct ArticleFacts {
    pub feed: i64,
    pub folder: Option<i64>,
    pub tags: Set<i64>,
    pub is_read: bool,
    pub is_starred: bool,
    pub read_later: bool,
}

/// One thing that a view asks of its articles.
#[derive(Clone, Copy, Debug, PartialEq, Eq, Structural)]
pub enum Condition {
    /// It is of this feed.
    Feed(i64),
    /// It is of a feed in this folder.
    Folder(i64),
    /// It has this tag.
    Tag(i64),
    /// It is starred.
    Starred,
    /// It is kept for later.
    Later,
}

/// An article meets a condition.
pub open spec fn meets(a: ArticleFacts, condition: Condition) -> bool {
    match condition {
        Condition::Feed(id) => a.feed == id,
        Condition::Folder(id) => a.folder == Some(id),
        Condition::Tag(id) => a.tags.contains(id),
        Condition::Starred => a.is_starred,
        Condition::Later => a.read_later,
    }
}

/// A condition with an id, where there is one.
pub open spec fn asked(id: Option<i64>, condition: spec_fn(i64) -> Condition) -> Seq<Condition> {
    match id {
        Some(id) => seq![condition(id)],
        None => Seq::empty(),
    }
}

/// A condition, where it is set.
pub open spec fn asked_if(set: bool, condition: Condition) -> Seq<Condition> {
    if set {
        seq![condition]
    } else {
        Seq::empty()
    }
}

/// All that a view asks of its articles.
pub open spec fn conditions_of(query: ArticleQuery) -> Seq<Condition> {
    asked(query.feed, |id: i64| Condition::Feed(id)) + asked(
        query.folder,
        |id: i64| Condition::Folder(id),
    ) + asked(query.tag, |id: i64| Condition::Tag(id)) + asked_if(
        query.starred,
        Condition::Starred,
    ) + asked_if(query.later, Condition::Later)
}

/// An article is in a view, or among its unread articles.
pub open spec fn is_in(a: ArticleFacts, query: ArticleQuery, unread_only: bool) -> bool {
    &&& forall|i: int|
        0 <= i < conditions_of(query).len() ==> meets(a, #[trigger] conditions_of(query)[i])
    &&& unread_only ==> !a.is_read
}

fn conditions(query: &ArticleQuery) -> (r: Vec<Condition>)
    ensures
        r@ == conditions_of(*query),
{
    let mut out: Vec<Condition> = Vec::new();
    if let Some(id) = query.feed {
        out.push(Condition::Feed(id));
    }
    assert(out@ =~= asked(query.feed, |id: i64| Condition::Feed(id)));
    let ghost before = out@;
    if let Some(id) = query.folder {
        out.push(Condition::Folder(id));
    }
    assert(out@ =~= before + asked(query.folder, |id: i64| Condition::Folder(id)));
    let ghost before = out@;
    if let Some(id) = query.tag {
        out.push(Condition::Tag(id));
    }
    assert(out@ =~= before + asked(query.tag, |id: i64| Condition::Tag(id)));
    let ghost before = out@;
    if query.starred {
        out.push(Condition::Starred);
    }
    assert(out@ =~= before + asked_if(query.starred, Condition::Starred));
    let ghost before = out@;
    if query.later {
        out.push(Condition::Later);
    }
    assert(out@ =~= before + asked_if(query.later, Condition::Later));
    out
}

/// The view that a bare selector chooses.
pub fn filter_query(f: &FilterArgs) -> (r: ArticleQuery)
    ensures
        r == (ArticleQuery {
            feed: f.feed,
            folder: f.folder,
            tag: f.tag,
            starred: f.starred,
            later: f.later,
        }),
{
    ArticleQuery {
        feed: f.feed,
        folder: f.folder,
        tag: f.tag,
        starred: f.starred,
        later: f.later,
    }
}

/// The view that a feed, a folder and a tag choose.
pub open spec fn place_query(
    feed: Option<i64>,
    folder: Option<i64>,
    tag: Option<i64>,
) -> ArticleQuery {
    ArticleQuery { feed, folder, tag, starred: false, later: false }
}

/// The view that a feed, a folder and a tag choose.
pub fn choose_latest(feed: Option<i64>, folder: Option<i64>, tag: Option<i64>) -> (r: ArticleQuery)
    ensures
        r == place_query(feed, folder, tag),
{
    ArticleQuery { feed, folder, tag, starred: false, later: false }
}

/// What a listing is asked for with.
#[derive(Debug, PartialEq, Eq)]
pub struct ListArgs {
    pub feed: Option<i64>,
    pub folder: Option<i64>,
    pub tag: Option<i64>,
    pub starred: bool,
    pub later: bool,
    pub all: bool,
    pub limit: i64,
    pub offset: i64,
}

/// The view that a listing is of, and whether only its unread articles: those
/// are meant unless all, starred or read-later ones are asked for.
pub open spec fn listing_of(args: ListArgs) -> (ArticleQuery, bool) {
    (
        ArticleQuery {
            feed: args.feed,
            folder: args.folder,
            tag: args.tag,
            starred: args.starred,
            later: args.later,
        },
        !args.all && !args.starred && !args.later,
    )
}

/// The view that a listing is of, and whether only its unread articles.
pub fn resolve_query(args: &ListArgs) -> (r: (ArticleQuery, bool))
    ensures
        r == listing_of(*args),
{
    let query = ArticleQuery {
        feed: args.feed,
        folder: args.folder,
        tag: args.tag,
        starred: args.starred,
        later: args.later,
    };
    (query, !args.all && !args.starred && !args.later)
}

/// The filters of a listing combine freely: an article is listed exactly where
/// it meets every one that is given, and is unread unless all, starred or
/// read-later articles are asked for.
pub proof fn law_filters_combine(args: ListArgs, a: ArticleFacts)
    ensures
        is_in(a, listing_of(args).0, listing_of(args).1) <==> {
            &&& args.feed matches Some(id) ==> a.feed == id
            &&& args.folder matches Some(id) ==> a.folder == Some(id)
            &&& args.tag matches Some(id) ==> a.tags.contains(id)
            &&& args.starred ==> a.is_starred
            &&& args.later ==> a.read_later
            &&& !args.all && !args.starred && !args.later ==> !a.is_read
        },
{
    let query = listing_of(args).0;
    let feed = asked(query.feed, |id: i64| Condition::Feed(id));
    let folder = asked(query.folder, |id: i64| Condition::Folder(id));
    let tag = asked(query.tag, |id: i64| Condition::Tag(id));
    let starred = asked_if(query.starred, Condition::Starred);
    let later = asked_if(query.later, Condition::Later);
    let all = conditions_of(query);
    let n1 = feed.len() as int;
    let n2 = n1 + folder.len();
    let n3 = n2 + tag.len();
    let n4 = n3 + starred.len();
    assert(args.feed is Some ==> all[0] == feed[0]);
    assert(args.folder is Some ==> all[n1] == folder[0]);
    assert(args.tag is Some ==> all[n2] == tag[0]);
    assert(args.starred ==> all[n3] == Condition::Starred);
    assert(args.later ==> all[n4] == Condition::Later);
    assert forall|i: int| 0 <= i < all.len() implies feed.contains(#[trigger] all[i])
        || folder.contains(all[i]) || tag.contains(all[i]) || starred.contains(all[i])
        || later.contains(all[i]) by {
        if i < n1 {
            assert(all[i] == feed[i]);
        } else if i < n2 {
            assert(all[i] == folder[i - n1]);
        } else if i < n3 {
            assert(all[i] == tag[i - n2]);
        } else if i < n4 {
            assert(all[i] == starred[i - n3]);
        } else {
            assert(all[i] == later[i - n4]);
        }
    }
}

/// The words for a view: whether it is of unread articles, their states, and
/// where they are.
pub open spec fn label_words(query: ArticleQuery, unread_only: bool) -> Seq<Seq<char>> {
    bare_flag("unread"@, unread_only) + bare_flag("starred"@, query.starred) + bare_flag(
        "read-later"@,
        query.later,
    ) + bare_flag("in feed"@, query.feed is Some) + bare_flag("in folder"@, query.folder is Some)
        + bare_flag("tagged"@, query.tag is Some)
}

/// A view in words.
pub open spec fn label_of(query: ArticleQuery, unread_only: bool) -> Seq<char> {
    if label_words(query, unread_only).len() == 0 {
        "articles"@
    } else {
        text::joined(label_words(query, unread_only), " "@)
    }
}

/// A view in words.
pub fn scope_label(query: &ArticleQuery, unread_only: bool) -> (r: String)
    ensures
        r@ == label_of(*query, unread_only),
{
    let mut words: Vec<String> = Vec::new();
    put_bare_flag(&mut words, "unread", unread_only);
    assert(text::views(words@) =~= bare_flag("unread"@, unread_only));
    put_bare_flag(&mut words, "starred", query.starred);
    put_bare_flag(&mut words, "read-later", query.later);
    put_bare_flag(&mut words, "in feed", query.feed.is_some());
    put_bare_flag(&mut words, "in folder", query.folder.is_some());
    put_bare_flag(&mut words, "tagged", query.tag.is_some());
    assert(text::views(words@).len() == words@.len());
    if words.len() == 0 {
        "articles".to_owned()
    } else {
        text::join(&words, " ")
    }
}

/// A condition in SQL, where it is the one with this number.
pub open spec fn condition_text(condition: Condition, number: nat) -> Seq<char> {
    match condition {
        Condition::Feed(_) => "feed_id = ?"@ + text::decimal(number),
        Condition::Folder(_) => "feed_id IN (SELECT id FROM feeds WHERE folder_id = ?"@
            + text::decimal(number) + ")"@,
        Condition::Tag(_) => "id IN (SELECT article_id FROM article_tags WHERE tag_id = ?"@
            + text::decimal(number) + ")"@,
        Condition::Starred => "is_starred = 1"@,
        Condition::Later => "read_later = 1"@,
    }
}

/// The conditions of a view in SQL. Those with an id come first, so that the
/// number of each is that of its parameter.
pub open spec fn condition_texts(query: ArticleQuery) -> Seq<Seq<char>> {
    Seq::new(
        conditions_of(query).len(),
        |i: int| condition_text(conditions_of(query)[i], (i + 1) as nat),
    )
}

/// The parameter of a condition, where it has one.
pub open spec fn id_in(condition: Condition) -> Seq<i64> {
    match condition {
        Condition::Feed(id) => seq![id],
        Condition::Folder(id) => seq![id],
        Condition::Tag(id) => seq![id],
        _ => Seq::empty(),
    }
}

/// The parameters of conditions.
pub open spec fn ids_in(conditions: Seq<Condition>) -> Seq<i64>
    decreases conditions.len(),
{
    if conditions.len() == 0 {
        Seq::empty()
    } else {
        ids_in(conditions.drop_last()) + id_in(conditions.last())
    }
}

/// The SQL that counts the articles of a view, or its unread ones, and its
/// parameters: all conditions have to hold.
pub open spec fn count_query(query: ArticleQuery, unread_only: bool) -> (Seq<char>, Seq<i64>) {
    (
        "SELECT count(*) FROM articles WHERE "@ + (if conditions_of(query).len() == 0 {
            "1=1"@
        } else {
            text::joined(condition_texts(query), " AND "@)
        }) + (if unread_only {
            " AND is_read = 0"@
        } else {
            ""@
        }),
        ids_in(conditions_of(query)),
    )
}

fn write_condition(condition: Condition, number: usize) -> (r: String)
    ensures
        r@ == condition_text(condition, number as nat),
{
    let n = text::count(number);
    match condition {
        Condition::Feed(_) => text::cat("feed_id = ?", n.as_str()),
        Condition::Folder(_) => text::cat3(
            "feed_id IN (SELECT id FROM feeds WHERE folder_id = ?",
            n.as_str(),
            ")",
        ),
        Condition::Tag(_) => text::cat3(
            "id IN (SELECT article_id FROM article_tags WHERE tag_id = ?",
            n.as_str(),
            ")",
        ),
        Condition::Starred => "is_starred = 1".to_owned(),
        Condition::Later => "read_later = 1".to_owned(),
    }
}

/// The SQL that counts the articles of a view, and its parameters, so that a
/// listing can state a definitive total.
pub fn count_articles(query: &ArticleQuery, unread_only: bool) -> (r: (String, Vec<i64>))
    ensures
        (r.0@, r.1@) == count_query(*query, unread_only),
{
    let list = conditions(query);
    let ghost whole = condition_texts(*query);
    let mut texts: Vec<String> = Vec::new();
    let mut ids: Vec<i64> = Vec::new();
    assert(list@.take(0) =~= Seq::<Condition>::empty());
    assert(text::views(texts@) =~= whole.take(0));
    for i in 0..list.len()
        invariant
            list@ == conditions_of(*query),
            whole == condition_texts(*query),
            text::views(texts@) == whole.take(i as int),
            ids@ == ids_in(list@.take(i as int)),
    {
        assert(list@.take(i + 1).drop_last() =~= list@.take(i as int));
        let ghost before = ids@;
        let condition = list[i];
        text::append(&mut texts, write_condition(condition, i + 1).as_str());
        assert(whole.take(i + 1) =~= whole.take(i as int).push(whole[i as int]));
        match condition {
            Condition::Feed(id) => ids.push(id),
            Condition::Folder(id) => ids.push(id),
            Condition::Tag(id) => ids.push(id),
            Condition::Starred => {},
            Condition::Later => {},
        }
        assert(ids@ =~= before + id_in(condition));
    }
    assert(list@.take(list@.len() as int) =~= list@);
    assert(whole.take(whole.len() as int) =~= whole);
    let what = if list.len() == 0 {
        "1=1".to_owned()
    } else {
        text::join(&texts, " AND ")
    };
    let unread = if unread_only {
        " AND is_read = 0"
    } else {
        ""
    };
    (text::cat3("SELECT count(*) FROM articles WHERE ", what.as_str(), unread), ids)
}

proof fn lemma_ids_in(conditions: Seq<Condition>)
    requires
        conditions.len() > 0,
    ensures
        ids_in(conditions) == id_in(conditions[0]) + ids_in(conditions.drop_first()),
    decreases conditions.len(),
{
    if conditions.len() == 1 {
        assert(conditions.drop_last() =~= Seq::<Condition>::empty());
        assert(conditions.drop_first() =~= Seq::<Condition>::empty());
        assert(ids_in(conditions) =~= id_in(conditions[0]) + ids_in(conditions.drop_first()));
    } else {
        lemma_ids_in(conditions.drop_last());
        assert(conditions.drop_last().drop_first() =~= conditions.drop_first().drop_last());
        assert(ids_in(conditions) =~= id_in(conditions[0]) + ids_in(conditions.drop_first()));
    }
}

/// Each parameter of a count is the id of the condition with its number.
pub proof fn law_parameters_have_their_place(query: ArticleQuery, i: int)
    requires
        0 <= i < conditions_of(query).len(),
        id_in(conditions_of(query)[i]).len() > 0,
    ensures
        i < ids_in(conditions_of(query)).len(),
        id_in(conditions_of(query)[i]) == seq![ids_in(conditions_of(query))[i]],
{
    let all = conditions_of(query);
    lemma_ids_in(all);
    if i >= 1 {
        lemma_ids_in(all.drop_first());
        if i >= 2 {
            lemma_ids_in(all.drop_first().drop_first());
        }
    }
}

/// A flag with an id, where there is one.
pub open spec fn id_flag(flag: Seq<char>, id: Option<i64>) -> Seq<Seq<char>> {
    match id {
        Some(id) => seq![flag + text::numeral(id as int)],
        None => Seq::empty(),
    }
}

/// A flag, where it is set.
pub open spec fn bare_flag(flag: Seq<char>, set: bool) -> Seq<Seq<char>> {
    if set {
        seq![flag]
    } else {
        Seq::empty()
    }
}

/// The flags of a listing.
pub open spec fn flags_of(args: ListArgs) -> Seq<char> {
    text::joined(
        id_flag("--feed "@, args.feed) + id_flag("--folder "@, args.folder) + id_flag(
            "--tag "@,
            args.tag,
        ) + bare_flag("--starred"@, args.starred) + bare_flag("--later"@, args.later) + bare_flag(
            "--all"@,
            args.all,
        ),
        " "@,
    )
}

fn put_id_flag(parts: &mut Vec<String>, flag: &str, id: Option<i64>)
    ensures
        text::views(final(parts)@) == text::views(old(parts)@) + id_flag(flag@, id),
{
    match id {
        Some(id) => {
            let part = text::cat(flag, text::integer(id).as_str());
            text::append(parts, part.as_str());
            assert(text::views(parts@) =~= text::views(old(parts)@) + id_flag(flag@, Some(id)));
        },
        None => {
            assert(text::views(parts@) =~= text::views(old(parts)@) + id_flag(flag@, id));
        },
    }
}

fn put_bare_flag(parts: &mut Vec<String>, flag: &str, set: bool)
    ensures
        text::views(final(parts)@) == text::views(old(parts)@) + bare_flag(flag@, set),
{
    if set {
        text::append(parts, flag);
    }
    assert(text::views(parts@) =~= text::views(old(parts)@) + bare_flag(flag@, set));
}

/// The flags of a listing, so that a hint to the next page carries them
/// forward.
pub fn replay_filters(args: &ListArgs) -> (r: String)
    ensures
        r@ == flags_of(*args),
{
    let mut parts: Vec<String> = Vec::new();
    put_id_flag(&mut parts, "--feed ", args.feed);
    assert(text::views(parts@) =~= id_flag("--feed "@, args.feed));
    put_id_flag(&mut parts, "--folder ", args.folder);
    put_id_flag(&mut parts, "--tag ", args.tag);
    put_bare_flag(&mut parts, "--starred", args.starred);
    put_bare_flag(&mut parts, "--later", args.later);
    put_bare_flag(&mut parts, "--all", args.all);
    text::join(&parts, " ")
}

/// The words of a flag with an id.
spec fn id_words(flag: Seq<char>, id: Option<i64>) -> Seq<Seq<char>> {
    match id {
        Some(id) => seq![flag, text::numeral(id as int)],
        None => Seq::empty(),
    }
}

/// The words of several texts, one behind the other.
spec fn words_in(parts: Seq<Seq<char>>) -> Seq<Seq<char>>
    decreases parts.len(),
{
    if parts.len() == 0 {
        Seq::empty()
    } else {
        words_in(parts.drop_last()) + text::pieces(parts.last(), ' ')
    }
}

proof fn lemma_words_joined(parts: Seq<Seq<char>>)
    requires
        parts.len() > 0,
    ensures
        text::pieces(text::joined(parts, " "@), ' ') == words_in(parts),
    decreases parts.len(),
{
    reveal_strlit(" ");
    assert(" "@ =~= seq![' ']);
    if parts.len() == 1 {
        assert(words_in(parts.drop_last()) =~= Seq::<Seq<char>>::empty());
        assert(words_in(parts) =~= text::pieces(parts[0], ' '));
    } else {
        lemma_words_joined(parts.drop_last());
        text::lemma_pieces_add(text::joined(parts.drop_last(), " "@), parts.last(), ' ');
    }
}

proof fn lemma_words_in_add(a: Seq<Seq<char>>, b: Seq<Seq<char>>)
    ensures
        words_in(a + b) == words_in(a) + words_in(b),
    decreases b.len(),
{
    if b.len() == 0 {
        assert(a + b =~= a);
        assert(words_in(a) + words_in(b) =~= words_in(a));
    } else {
        lemma_words_in_add(a, b.drop_last());
        assert((a + b).drop_last() =~= a + b.drop_last());
        assert(words_in(a + b) =~= words_in(a) + words_in(b));
    }
}

proof fn lemma_decimal_is_a_word(n: nat)
    ensures
        !text::decimal(n).contains(' '),
        text::decimal(n).len() > 0,
        text::decimal(n)[0] != '-',
    decreases n,
{
    let d = text::decimal(n);
    if n >= 10 {
        lemma_decimal_is_a_word(n / 10);
        let before = text::decimal(n / 10);
        assert forall|i: int| 0 <= i < d.len() implies d[i] != ' ' by {
            if i < before.len() {
                assert(before.contains(before[i]));
            }
        }
    }
}

proof fn lemma_numeral_is_a_word(i: int)
    ensures
        !text::numeral(i).contains(' '),
{
    lemma_decimal_is_a_word(if i < 0 {
        (-i) as nat
    } else {
        i as nat
    });
    let s = text::numeral(i);
    if i < 0 {
        let d = text::decimal((-i) as nat);
        assert forall|j: int| 0 <= j < s.len() implies s[j] != ' ' by {
            if j > 0 {
                assert(d.contains(d[j - 1]));
            }
        }
    }
}

proof fn lemma_id_flag_words(flag: Seq<char>, spaced: Seq<char>, id: Option<i64>)
    requires
        spaced == flag.push(' '),
        !flag.contains(' '),
    ensures
        words_in(id_flag(spaced, id)) == id_words(flag, id),
{
    match id {
        Some(id) => {
            let number = text::numeral(id as int);
            let parts = id_flag(spaced, Some(id));
            lemma_numeral_is_a_word(id as int);
            text::lemma_one_piece(flag, ' ');
            text::lemma_one_piece(number, ' ');
            assert(spaced + number =~= flag + seq![' '] + number);
            text::lemma_pieces_add(flag, number, ' ');
            assert(words_in(parts.drop_last()) =~= Seq::<Seq<char>>::empty());
            assert(parts.last() == spaced + number);
            assert(words_in(parts) =~= seq![flag] + seq![number]);
            assert(seq![flag] + seq![number] =~= id_words(flag, Some(id)));
        },
        None => {},
    }
}

proof fn lemma_bare_flag_words(flag: Seq<char>, set: bool)
    requires
        !flag.contains(' '),
    ensures
        words_in(bare_flag(flag, set)) == bare_flag(flag, set),
{
    text::lemma_one_piece(flag, ' ');
    if set {
        let parts = bare_flag(flag, set);
        assert(words_in(parts.drop_last()) =~= Seq::<Seq<char>>::empty());
        assert(parts.last() == flag);
        assert(words_in(parts) =~= seq![flag]);
    }
}

proof fn lemma_flag_texts()
    ensures
        "--feed "@ == "--feed"@.push(' '),
        "--folder "@ == "--folder"@.push(' '),
        "--tag "@ == "--tag"@.push(' '),
        !"--feed"@.contains(' '),
        !"--folder"@.contains(' '),
        !"--tag"@.contains(' '),
        !"--starred"@.contains(' '),
        !"--later"@.contains(' '),
        !"--all"@.contains(' '),
        "--feed"@.len() == 6,
        "--folder"@.len() == 8,
        "--tag"@.len() == 5,
        "--tag"@[2] == 't',
        "--starred"@.len() == 9,
        "--later"@.len() == 7,
        "--all"@.len() == 5,
        "--all"@[2] == 'a',
{
    reveal_strlit("--feed ");
    reveal_strlit("--folder ");
    reveal_strlit("--tag ");
    reveal_strlit("--feed");
    reveal_strlit("--folder");
    reveal_strlit("--tag");
    reveal_strlit("--starred");
    reveal_strlit("--later");
    reveal_strlit("--all");
    assert("--feed "@ =~= "--feed"@.push(' '));
    assert("--folder "@ =~= "--folder"@.push(' '));
    assert("--tag "@ =~= "--tag"@.push(' '));
}

/// The words of the flags of a listing.
spec fn flag_words(args: ListArgs) -> Seq<Seq<char>> {
    id_words("--feed"@, args.feed) + (id_words("--folder"@, args.folder) + (id_words(
        "--tag"@,
        args.tag,
    ) + (bare_flag("--starred"@, args.starred) + (bare_flag("--later"@, args.later) + bare_flag(
        "--all"@,
        args.all,
    )))))
}

proof fn lemma_regroup(
    a: Seq<Seq<char>>,
    b: Seq<Seq<char>>,
    c: Seq<Seq<char>>,
    d: Seq<Seq<char>>,
    e: Seq<Seq<char>>,
    f: Seq<Seq<char>>,
)
    ensures
        a + b + c + d + e + f == a + (b + (c + (d + (e + f)))),
{
    assert(a + b + c + d + e + f =~= a + b + c + d + (e + f));
    assert(a + b + c + d + (e + f) =~= a + b + c + (d + (e + f)));
    assert(a + b + c + (d + (e + f)) =~= a + b + (c + (d + (e + f))));
    assert(a + b + (c + (d + (e + f))) =~= a + (b + (c + (d + (e + f)))));
}

proof fn lemma_words_of_six(
    a: Seq<Seq<char>>,
    b: Seq<Seq<char>>,
    c: Seq<Seq<char>>,
    d: Seq<Seq<char>>,
    e: Seq<Seq<char>>,
    f: Seq<Seq<char>>,
)
    ensures
        words_in(a + b + c + d + e + f) == words_in(a) + (words_in(b) + (words_in(c) + (words_in(d)
            + (words_in(e) + words_in(f))))),
{
    lemma_words_in_add(a, b);
    lemma_words_in_add(a + b, c);
    lemma_words_in_add(a + b + c, d);
    lemma_words_in_add(a + b + c + d, e);
    lemma_words_in_add(a + b + c + d + e, f);
    lemma_regroup(
        words_in(a),
        words_in(b),
        words_in(c),
        words_in(d),
        words_in(e),
        words_in(f),
    );
}

proof fn lemma_flag_words(args: ListArgs)
    ensures
        flag_words(args).len() > 0 ==> text::pieces(flags_of(args), ' ') == flag_words(args),
        flag_words(args).len() == 0 ==> flags_of(args) == Seq::<char>::empty(),
{
    let feed = id_flag("--feed "@, args.feed);
    let folder = id_flag("--folder "@, args.folder);
    let tag = id_flag("--tag "@, args.tag);
    let starred = bare_flag("--starred"@, args.starred);
    let later = bare_flag("--later"@, args.later);
    let all = bare_flag("--all"@, args.all);
    let parts = feed + folder + tag + starred + later + all;
    assert(words_in(parts) == flag_words(args)) by {
        lemma_flag_texts();
        lemma_id_flag_words("--feed"@, "--feed "@, args.feed);
        lemma_id_flag_words("--folder"@, "--folder "@, args.folder);
        lemma_id_flag_words("--tag"@, "--tag "@, args.tag);
        lemma_bare_flag_words("--starred"@, args.starred);
        lemma_bare_flag_words("--later"@, args.later);
        lemma_bare_flag_words("--all"@, args.all);
        lemma_words_of_six(feed, folder, tag, starred, later, all);
    }
    assert(flags_of(args) == text::joined(parts, " "@));
    if parts.len() > 0 {
        lemma_words_joined(parts);
        text::lemma_pieces_nonempty(flags_of(args), ' ');
    }
}

/// The place of a flag among the flags.
spec fn rank(word: Seq<char>) -> int {
    if word == "--feed"@ {
        1
    } else if word == "--folder"@ {
        2
    } else if word == "--tag"@ {
        3
    } else if word == "--starred"@ {
        4
    } else if word == "--later"@ {
        5
    } else if word == "--all"@ {
        6
    } else {
        0
    }
}

/// The words, if any, start with a flag behind that place.
spec fn starts_behind(words: Seq<Seq<char>>, place: int) -> bool {
    words.len() > 0 ==> rank(words[0]) > place
}

proof fn lemma_ranks()
    ensures
        rank("--feed"@) == 1,
        rank("--folder"@) == 2,
        rank("--tag"@) == 3,
        rank("--starred"@) == 4,
        rank("--later"@) == 5,
        rank("--all"@) == 6,
        rank(Seq::empty()) == 0,
{
    lemma_flag_texts();
}

proof fn lemma_starts_behind(flag: Seq<char>, id: Option<i64>, set: bool, rest: Seq<Seq<char>>)
    requires
        starts_behind(rest, rank(flag)),
    ensures
        starts_behind(id_words(flag, id) + rest, rank(flag) - 1),
        starts_behind(bare_flag(flag, set) + rest, rank(flag) - 1),
{
    match id {
        Some(_) => {
            assert((id_words(flag, id) + rest)[0] == flag);
        },
        None => {
            assert(id_words(flag, id) + rest =~= rest);
        },
    }
    if set {
        assert((bare_flag(flag, set) + rest)[0] == flag);
    } else {
        assert(bare_flag(flag, set) + rest =~= rest);
    }
}

proof fn lemma_same_id(
    flag: Seq<char>,
    x: Option<i64>,
    y: Option<i64>,
    a: Seq<Seq<char>>,
    b: Seq<Seq<char>>,
)
    requires
        id_words(flag, x) + a == id_words(flag, y) + b,
        a.len() > 0 ==> a[0] != flag,
        b.len() > 0 ==> b[0] != flag,
    ensures
        x == y,
        a == b,
{
    let p = id_words(flag, x) + a;
    let q = id_words(flag, y) + b;
    match (x, y) {
        (Some(m), Some(n)) => {
            assert(p[1] == text::numeral(m as int));
            assert(q[1] == text::numeral(n as int));
            text::law_numeral_read_back(m);
            text::law_numeral_read_back(n);
            assert(p.skip(2) =~= a);
            assert(q.skip(2) =~= b);
        },
        (Some(m), None) => {
            assert(p[0] == flag);
            assert(q =~= b);
        },
        (None, Some(n)) => {
            assert(q[0] == flag);
            assert(p =~= a);
        },
        (None, None) => {
            assert(p =~= a);
            assert(q =~= b);
        },
    }
}

proof fn lemma_same_bare(flag: Seq<char>, x: bool, y: bool, a: Seq<Seq<char>>, b: Seq<Seq<char>>)
    requires
        bare_flag(flag, x) + a == bare_flag(flag, y) + b,
        a.len() > 0 ==> a[0] != flag,
        b.len() > 0 ==> b[0] != flag,
    ensures
        x == y,
        a == b,
{
    let p = bare_flag(flag, x) + a;
    let q = bare_flag(flag, y) + b;
    if x {
        assert(p[0] == flag);
        assert(p.skip(1) =~= a);
    } else {
        assert(p =~= a);
    }
    if y {
        assert(q[0] == flag);
        assert(q.skip(1) =~= b);
    } else {
        assert(q =~= b);
    }
}

/// The words of the flags from a place on.
spec fn words_from(args: ListArgs, place: int) -> Seq<Seq<char>>
    decreases 6 - place,
{
    if place <= 0 {
        id_words("--feed"@, args.feed) + words_from(args, 1)
    } else if place == 1 {
        id_words("--folder"@, args.folder) + words_from(args, 2)
    } else if place == 2 {
        id_words("--tag"@, args.tag) + words_from(args, 3)
    } else if place == 3 {
        bare_flag("--starred"@, args.starred) + words_from(args, 4)
    } else if place == 4 {
        bare_flag("--later"@, args.later) + words_from(args, 5)
    } else {
        bare_flag("--all"@, args.all)
    }
}

proof fn lemma_words_from(args: ListArgs)
    ensures
        words_from(args, 0) == flag_words(args),
        starts_behind(words_from(args, 0), 0),
        starts_behind(words_from(args, 1), 1),
        starts_behind(words_from(args, 2), 2),
        starts_behind(words_from(args, 3), 3),
        starts_behind(words_from(args, 4), 4),
        starts_behind(words_from(args, 5), 5),
{
    reveal_with_fuel(words_from, 6);
    lemma_ranks();
    lemma_starts_behind("--later"@, None, args.later, words_from(args, 5));
    lemma_starts_behind("--starred"@, None, args.starred, words_from(args, 4));
    lemma_starts_behind("--tag"@, args.tag, false, words_from(args, 3));
    lemma_starts_behind("--folder"@, args.folder, false, words_from(args, 2));
    lemma_starts_behind("--feed"@, args.feed, false, words_from(args, 1));
}

/// The flags in a hint to the next page carry the whole filter forward: two
/// listings with the same flags are listings of the same articles.
pub proof fn law_replayed_flags_fix_the_filter(a: ListArgs, b: ListArgs)
    requires
        flags_of(a) == flags_of(b),
    ensures
        a.feed == b.feed,
        a.folder == b.folder,
        a.tag == b.tag,
        a.starred == b.starred,
        a.later == b.later,
        a.all == b.all,
{
    lemma_ranks();
    lemma_flag_words(a);
    lemma_flag_words(b);
    lemma_words_from(a);
    lemma_words_from(b);
    let empty = Seq::<char>::empty();
    assert(text::pieces(empty, ' ') == seq![empty]);
    assert(text::pieces(empty, ' ')[0] == empty);
    assert(flag_words(a) =~= flag_words(b));
    lemma_same_id("--feed"@, a.feed, b.feed, words_from(a, 1), words_from(b, 1));
    lemma_same_id("--folder"@, a.folder, b.folder, words_from(a, 2), words_from(b, 2));
    lemma_same_id("--tag"@, a.tag, b.tag, words_from(a, 3), words_from(b, 3));
    lemma_same_bare("--starred"@, a.starred, b.starred, words_from(a, 4), words_from(b, 4));
    lemma_same_bare("--later"@, a.later, b.later, words_from(a, 5), words_from(b, 5));
}

// ───────────────────────────── cells ─────────────────────────────

/// A text as far as a budget of characters goes: what is shown, how long the
/// whole is, and whether anything was cut off.
pub open spec fn truncated(s: Seq<char>, budget: nat) -> (Seq<char>, nat, bool) {
    if s.len() <= budget {
        (s, s.len(), false)
    } else {
        (s.take(budget as int), s.len(), true)
    }
}

/// Cuts a text off behind a budget of characters, returning what is shown,
/// how long the whole is, and whether anything was cut off.
pub fn truncate(text: &str, budget: usize) -> (r: (String, usize, bool))
    ensures
        (r.0@, r.1 as nat, r.2) == truncated(text@, budget as nat),
{
    let chars = text::chars_of(text);
    let total: usize = chars.len();
    if total <= budget {
        return (text.to_owned(), total, false);
    }
    let shown = text::text_between(&chars, 0, budget);
    assert(shown@ =~= text@.take(budget as int));
    (shown, total, true)
}

/// What is shown of a text is its beginning, within the budget, and the whole
/// where that fits.
pub proof fn law_truncation_is_a_prefix(s: Seq<char>, budget: nat)
    ensures
        truncated(s, budget).0 == s.take(truncated(s, budget).0.len() as int),
        truncated(s, budget).0.len() == (if s.len() <= budget {
            s.len()
        } else {
            budget
        }),
        truncated(s, budget).1 == s.len(),
        truncated(s, budget).2 <==> truncated(s, budget).0 != s,
{
    assert(s.take(s.len() as int) =~= s);
}

/// A line break as a space, any other character as it is.
pub open spec fn flat(c: char) -> char {
    if c == '\n' || c == '\r' {
        ' '
    } else {
        c
    }
}

/// A text on one line.
pub open spec fn flattened(s: Seq<char>) -> Seq<char> {
    s.map_values(|c: char| flat(c))
}

/// A text on one line, within `n` characters where it can: cut short with an
/// ellipsis where it is longer.
pub open spec fn capped(s: Seq<char>, n: nat) -> Seq<char> {
    let line = flattened(s);
    if line.len() <= n {
        line
    } else {
        line.take(
            if n > 0 {
                n - 1
            } else {
                0
            },
        ).push('…')
    }
}

/// Caps a cell to one line of `n` characters.
pub fn cap(s: &str, n: usize) -> (r: String)
    ensures
        r@ == capped(s@, n as nat),
{
    let chars = text::chars_of(s);
    let ghost line = flattened(s@);
    let cut = chars.len() > n;
    let len: usize = if !cut {
        chars.len()
    } else if n > 0 {
        n - 1
    } else {
        0
    };
    let mut out = String::new();
    assert(line.take(0) =~= Seq::<char>::empty());
    for i in 0..len
        invariant
            chars@ == s@,
            line == flattened(s@),
            len <= chars@.len(),
            out@ == line.take(i as int),
    {
        let c = chars[i];
        out.push(
            if c == '\n' || c == '\r' {
                ' '
            } else {
                c
            },
        );
        assert(line.take(i + 1) =~= line.take(i as int).push(line[i as int]));
    }
    if cut {
        out.push('…');
    } else {
        assert(line.take(len as int) =~= line);
    }
    out
}

/// A capped cell is one line, and no longer than asked for unless nothing was
/// asked for.
pub proof fn law_caps_hold(s: Seq<char>, n: nat)
    ensures
        forall|i: int|
            0 <= i < capped(s, n).len() ==> #[trigger] capped(s, n)[i] != '\n' && capped(s, n)[i]
                != '\r',
        n > 0 ==> capped(s, n).len() <= n,
        n == 0 ==> capped(s, n).len() <= 1,
{
}

/// A capped cell says the text, line breaks as spaces: the whole of it where
/// that fits, and else its beginning and an ellipsis in the last place.
pub proof fn law_caps_keep_the_beginning(s: Seq<char>, n: nat)
    ensures
        s.len() <= n ==> capped(s, n).len() == s.len(),
        s.len() > n > 0 ==> capped(s, n).len() == n && capped(s, n).last() == '…',
        forall|i: int|
            0 <= i < s.len() && (s.len() <= n || i < n - 1) ==> capped(s, n)[i] == (if s[i] == '\n'
                || s[i] == '\r' {
                ' '
            } else {
                #[trigger] s[i]
            }),
{
}

/// The cells of a date: its first ten bytes, or the whole where it is
/// shorter.
pub open spec fn date_cell(published: Option<Seq<char>>) -> Seq<char> {
    match published {
        Some(s) => if text::bytes(s) >= 10 {
            s.take(first_bytes(s, 10))
        } else {
            scalar_of(s)
        },
        None => "-"@,
    }
}

/// How many characters the first `n` bytes of a text hold.
pub open spec fn first_bytes(s: Seq<char>, n: nat) -> int
    decreases s.len(),
{
    if s.len() == 0 || text::bytes(s) <= n {
        s.len() as int
    } else {
        first_bytes(s.drop_last(), n)
    }
}

/// A date is cut between characters: its first ten bytes end where one of its
/// characters does.
pub open spec fn cuts_cleanly(s: Seq<char>) -> bool {
    text::bytes(s) >= 10 ==> text::bytes(s.take(first_bytes(s, 10))) == 10
}

/// The characters that the first ten bytes of a text hold.
fn ten_bytes(s: &str) -> (r: String)
    ensures
        r@ == s@.take(first_bytes(s@, 10)),
{
    let chars = text::chars_of(s);
    let mut len: usize = chars.len();
    assert(chars@.take(len as int) =~= s@);
    loop
        invariant
            chars@ == s@,
            len <= chars@.len(),
            first_bytes(s@, 10) == first_bytes(s@.take(len as int), 10),
        decreases len,
    {
        let shown = text::text_between(&chars, 0, len);
        assert(shown@ =~= s@.take(len as int));
        if len == 0 || text::byte_len(shown.as_str()) <= 10 {
            return shown;
        }
        assert(s@.take(len as int).drop_last() =~= s@.take(len - 1));
        len = len - 1;
    }
}

/// The cell of a publication date: the day of a full date.
pub fn short_date(published: Option<&str>) -> (r: String)
    requires
        published matches Some(s) ==> cuts_cleanly(s@),
    ensures
        r@ == date_cell(text::str_of(published)),
{
    match published {
        Some(s) => if text::byte_len(s) < 10 {
            scalar(s)
        } else {
            ten_bytes(s)
        },
        None => "-".to_owned(),
    }
}

/// Read, starred and read-later as one cell.
pub open spec fn flag_cell(is_read: bool, is_starred: bool, read_later: bool) -> Seq<char> {
    text::joined(
        seq![
            if is_read {
                "read"@
            } else {
                "unread"@
            },
        ] + bare_flag("star"@, is_starred) + bare_flag("later"@, read_later),
        "."@,
    )
}

fn flags(is_read: bool, is_starred: bool, read_later: bool) -> (r: String)
    ensures
        r@ == flag_cell(is_read, is_starred, read_later),
{
    let mut parts = text::list1(
        if is_read {
            "read"
        } else {
            "unread"
        },
    );
    put_bare_flag(&mut parts, "star", is_starred);
    put_bare_flag(&mut parts, "later", read_later);
    text::join(&parts, ".")
}

/// The flags of a listed article.
pub fn summary_flags(a: &ArticleSummary) -> (r: String)
    ensures
        r@ == flag_cell(a.is_read, a.is_starred, a.read_later),
{
    flags(a.is_read, a.is_starred, a.read_later)
}

/// The flags of an article.
pub fn detail_flags(a: &ArticleDetail) -> (r: String)
    ensures
        r@ == flag_cell(a.is_read, a.is_starred, a.read_later),
{
    flags(a.is_read, a.is_starred, a.read_later)
}

// ───────────────────────────── sizes ─────────────────────────────

/// The distance between neighbouring floating-point numbers at `n`, which
/// have 53 binary digits.
pub open spec fn spacing(n: nat) -> nat
    decreases n,
{
    if n < 0x20_0000_0000_0000 {
        1
    } else {
        2 * spacing(n / 2)
    }
}

/// `n / d` rounded to the nearest integer, a tie to the even one.
pub open spec fn rounded(n: nat, d: nat) -> nat {
    let q = n / d;
    let rest = n % d;
    if 2 * rest > d || (2 * rest == d && q % 2 == 1) {
        q + 1
    } else {
        q
    }
}

/// `n` as a floating-point number of 53 binary digits holds it.
pub open spec fn held(n: nat) -> nat {
    rounded(n, spacing(n)) * spacing(n)
}

/// A number of bytes in the largest unit that leaves at least one of it, with
/// one decimal; below 1024 bytes exactly.
pub open spec fn size_text(n: int) -> Seq<char> {
    if n < 1024 {
        text::numeral(n) + " B"@
    } else {
        let v = held(n as nat);
        if v < 0x10_0000 {
            in_unit(v, 0x400, " KB"@)
        } else if v < 0x4000_0000 {
            in_unit(v, 0x10_0000, " MB"@)
        } else {
            in_unit(v, 0x4000_0000, " GB"@)
        }
    }
}

/// A number of bytes in a unit of so many, with one decimal.
pub open spec fn in_unit(v: nat, unit: nat, name: Seq<char>) -> Seq<char> {
    let tenths = rounded(v * 10, unit);
    text::decimal(tenths / 10) + "."@ + text::decimal(tenths % 10) + name
}

fn round(n: u128, d: u128) -> (r: u128)
    requires
        0 < d < 0x1_0000_0000_0000_0000,
        n < 0x1_0000_0000_0000_0000_0000_0000,
    ensures
        r == rounded(n as nat, d as nat),
        r <= n / d + 1,
{
    let q: u128 = n / d;
    let rest: u128 = n % d;
    if 2 * rest > d || (2 * rest == d && q % 2 == 1) {
        assert(q <= n) by (nonlinear_arith)
            requires
                q == n / d,
                d > 0,
        ;
        q + 1
    } else {
        q
    }
}

proof fn lemma_spacing(n: nat)
    requires
        n < 0x8000_0000_0000_0000,
    ensures
        1 <= spacing(n) <= 1024,
{
    reveal_with_fuel(spacing, 12);
}

fn find_spacing(n: u64) -> (r: u64)
    requires
        n < 0x8000_0000_0000_0000,
    ensures
        r == spacing(n as nat),
        1 <= r <= 1024,
    decreases n,
{
    proof {
        lemma_spacing(n as nat);
    }
    if n < 0x20_0000_0000_0000 {
        1
    } else {
        let half = find_spacing(n / 2);
        assert(spacing(n as nat) == 2 * spacing((n / 2) as nat));
        2 * half
    }
}

fn write_in_unit(v: u128, unit: u128, name: &str) -> (r: String)
    requires
        0 < unit < 0x1_0000_0000_0000_0000,
        v <= 0x8000_0000_0000_0400,
    ensures
        r@ == in_unit(v as nat, unit as nat, name@),
{
    let tenths: u128 = round(v * 10, unit);
    assert(v * 10 / (unit as int) <= v * 10) by (nonlinear_arith)
        requires
            unit > 0,
            v >= 0,
    ;
    let whole = text::wide_integer((tenths / 10) as i128);
    let part = text::wide_integer((tenths % 10) as i128);
    text::cat4(whole.as_str(), ".", part.as_str(), name)
}

/// A number of bytes for people to read.
pub fn human_bytes(n: i64) -> (r: String)
    ensures
        r@ == size_text(n as int),
{
    if n < 1024 {
        return text::cat(text::integer(n).as_str(), " B");
    }
    let step = find_spacing(n as u64) as u128;
    let multiple = round(n as u128, step);
    proof {
        lemma_spacing(n as nat);
        assert(step * multiple <= n + 1024) by (nonlinear_arith)
            requires
                multiple <= n as u128 / step + 1,
                1 <= step <= 1024,
                n > 0,
        ;
        assert(multiple * step == step * multiple) by (nonlinear_arith);
    }
    let v: u128 = multiple * step;
    if v < 0x10_0000 {
        write_in_unit(v, 0x400, " KB")
    } else if v < 0x4000_0000 {
        write_in_unit(v, 0x10_0000, " MB")
    } else {
        write_in_unit(v, 0x4000_0000, " GB")
    }
}

// ───────────────────────────── tables ─────────────────────────────

/// Adds one row to a table.
pub fn push_row(rows: &mut Vec<Vec<String>>, row: Vec<String>)
    ensures
        cells(final(rows)@) == cells(old(rows)@).push(text::views(row@)),
{
    rows.push(row);
    assert(cells(rows@) =~= cells(old(rows)@).push(text::views(row@)));
}

/// The row of a listed article: what it takes to choose what to do next.
pub open spec fn article_row(a: ArticleSummary) -> Seq<Seq<char>> {
    seq![
        text::numeral(a.id as int),
        scalar_of(capped(a.feed_title@, 28)),
        scalar_of(capped(a.title@, 80)),
        flag_cell(a.is_read, a.is_starred, a.read_later),
        date_cell(text::view_of(a.published_at)),
    ]
}

/// The rows of listed articles.
pub open spec fn article_rows(rows: Seq<ArticleSummary>) -> Seq<Seq<Seq<char>>> {
    rows.map_values(|a: ArticleSummary| article_row(a))
}

/// The fields of a table of articles.
pub open spec fn article_fields() -> Seq<Seq<char>> {
    seq!["id"@, "feed"@, "title"@, "flags"@, "date"@]
}

/// The dates of listed articles can all be cut between characters.
pub open spec fn dates_cut_cleanly(rows: Seq<ArticleSummary>) -> bool {
    forall|i: int|
        0 <= i < rows.len() ==> ((#[trigger] rows[i]).published_at matches Some(s) ==> cuts_cleanly(
            s@,
        ))
}

/// Whether the dates of listed articles can all be cut between characters.
pub fn dates_are_clean(rows: &Vec<ArticleSummary>) -> (r: bool)
    ensures
        r == dates_cut_cleanly(rows@),
{
    for i in 0..rows.len()
        invariant
            forall|j: int|
                0 <= j < i ==> ((#[trigger] rows@[j]).published_at matches Some(s)
                    ==> cuts_cleanly(s@)),
    {
        match &rows[i].published_at {
            Some(s) => {
                if text::byte_len(s.as_str()) >= 10 && text::byte_len(ten_bytes(s.as_str()).as_str())
                    != 10 {
                    assert(!cuts_cleanly(rows@[i as int].published_at->Some_0@));
                    return false;
                }
            },
            None => {},
        }
    }
    true
}

/// Adds a table of articles to a document.
pub fn article_table(out: &mut Out, name: &str, rows: &Vec<ArticleSummary>)
    requires
        dates_cut_cleanly(rows@),
    ensures
        final(out)@ == table_to(old(out)@, 0, name@, article_fields(), article_rows(rows@)),
{
    let mut table: Vec<Vec<String>> = Vec::new();
    let ghost all = article_rows(rows@);
    assert(cells(table@) =~= all.take(0));
    for i in 0..rows.len()
        invariant
            all == article_rows(rows@),
            dates_cut_cleanly(rows@),
            cells(table@) == all.take(i as int),
    {
        let a = &rows[i];
        let row = text::list5(
            text::integer(a.id).as_str(),
            scalar(cap(a.feed_title.as_str(), 28).as_str()).as_str(),
            scalar(cap(a.title.as_str(), 80).as_str()).as_str(),
            summary_flags(a).as_str(),
            short_date(text::slice_of(&a.published_at)).as_str(),
        );
        assert(text::views(row@) =~= article_row(rows@[i as int]));
        push_row(&mut table, row);
        assert(all.take(i + 1) =~= all.take(i as int).push(all[i as int]));
    }
    assert(all.take(all.len() as int) =~= all);
    let fields = text::list5("id", "feed", "title", "flags", "date");
    out.table(0, name, &fields, &table);
}

/// The row of a feed.
pub open spec fn feed_row(f: Feed) -> Seq<Seq<char>> {
    seq![
        text::numeral(f.id as int),
        scalar_of(capped(f.title@, 40)),
        text::numeral(f.unread_count as int),
        f.source_type@,
    ]
}

/// The rows of feeds.
pub open spec fn feed_rows(feeds: Seq<Feed>) -> Seq<Seq<Seq<char>>> {
    feeds.map_values(|f: Feed| feed_row(f))
}

/// A document with a table of feeds more.
pub open spec fn feed_table_to(doc: Seq<char>, depth: nat, feeds: Seq<Feed>) -> Seq<char> {
    table_to(
        doc,
        depth,
        "feeds"@,
        seq!["id"@, "title"@, "unread"@, "type"@],
        feed_rows(feeds),
    )
}

/// The feeds behind a list of references.
pub open spec fn referred(feeds: Seq<&Feed>) -> Seq<Feed> {
    feeds.map_values(|f: &Feed| *f)
}

/// Adds a table of feeds to a document.
pub fn feed_table(out: &mut Out, depth: usize, feeds: &Vec<&Feed>)
    requires
        depth < usize::MAX,
    ensures
        final(out)@ == feed_table_to(old(out)@, depth as nat, referred(feeds@)),
{
    let mut table: Vec<Vec<String>> = Vec::new();
    let ghost all = feed_rows(referred(feeds@));
    assert(cells(table@) =~= all.take(0));
    for i in 0..feeds.len()
        invariant
            all == feed_rows(referred(feeds@)),
            cells(table@) == all.take(i as int),
    {
        let f = feeds[i];
        let row = text::list4(
            text::integer(f.id).as_str(),
            scalar(cap(f.title.as_str(), 40).as_str()).as_str(),
            text::integer(f.unread_count).as_str(),
            f.source_type.as_str(),
        );
        assert(referred(feeds@)[i as int] == *f);
        assert(text::views(row@) =~= feed_row(*f));
        push_row(&mut table, row);
        assert(all.take(i + 1) =~= all.take(i as int).push(all[i as int]));
    }
    assert(all.take(all.len() as int) =~= all);
    let fields = text::list4("id", "title", "unread", "type");
    out.table(depth, "feeds", &fields, &table);
}

// ───────────────────────────── paths ─────────────────────────────

/// A path with the home directory in front of it as `~`.
pub open spec fn collapsed(p: Seq<char>, home: Option<Seq<char>>) -> Seq<char> {
    match home {
        Some(h) => if h.len() > 0 && text::begins(p, h) {
            "~"@ + p.skip(h.len() as int)
        } else {
            p
        },
        None => p,
    }
}

/// A path with the home directory in front of it as `~`, for display.
pub fn collapse_home(p: &str, home: Option<&str>) -> (r: String)
    ensures
        r@ == collapsed(p@, text::str_of(home)),
{
    match home {
        Some(home) => {
            if !home.is_empty() {
                match text::strip_prefix(p, home) {
                    Some(rest) => {
                        return text::cat("~", rest.as_str());
                    },
                    None => {},
                }
            }
            p.to_owned()
        },
        None => p.to_owned(),
    }
}

/// The error of a database that is not there.
pub open spec fn no_database(path: Seq<char>, home: Option<Seq<char>>) -> AxiErrorView {
    AxiErrorView {
        message: "no Papr database at "@ + collapsed(path, home),
        help: seq![
            "Install and launch Papr to create it, or"@,
            "Run any papr command with `--db <path>` / set PAPR_DB to point at one"@,
        ],
        usage: false,
    }
}

/// Lets a command through only where its database is there.
pub fn ensure_db(exists: bool, path: &str, home: Option<&str>) -> (r: Result<(), AxiError>)
    ensures
        r is Ok <==> exists,
        r matches Err(e) ==> e@ == no_database(path@, text::str_of(home)),
{
    if exists {
        return Ok(());
    }
    let message = text::cat("no Papr database at ", collapse_home(path, home).as_str());
    Err(
        AxiError::runtime_help(
            message.as_str(),
            text::list2(
                "Install and launch Papr to create it, or",
                "Run any papr command with `--db <path>` / set PAPR_DB to point at one",
            ),
        ),
    )
}

/// The error of a home directory that is not known.
pub open spec fn no_home() -> AxiErrorView {
    AxiErrorView {
        message: "could not resolve the home directory"@,
        help: seq!["Set PAPR_DB or pass --db <path> to the database"@],
        usage: false,
    }
}

/// The error of a home directory that is not known.
pub fn home_err() -> (r: AxiError)
    ensures
        r@ == no_home(),
{
    AxiError::runtime_help(
        "could not resolve the home directory",
        text::list1("Set PAPR_DB or pass --db <path> to the database"),
    )
}

/// The kinds of platform that keep application data in different places.
#[derive(Clone, Copy, Debug, PartialEq, Eq, Structural)]
pub enum Platform {
    MacOs,
    Windows,
    Unix,
}

/// The directory of application data: a directory of the environment, and the
/// path below it.
pub open spec fn data_dir(
    platform: Platform,
    home: Option<Seq<char>>,
    appdata: Option<Seq<char>>,
    xdg: Option<Seq<char>>,
) -> Option<(Seq<char>, Seq<char>)> {
    match platform {
        Platform::MacOs => match home {
            Some(home) => Some((home, "Library/Application Support"@)),
            None => None,
        },
        Platform::Windows => match appdata {
            Some(appdata) => Some((appdata, ""@)),
            None => None,
        },
        Platform::Unix => match (text::nonempty_of(xdg), home) {
            (Some(xdg), _) => Some((xdg, ""@)),
            (None, Some(home)) => Some((home, ".local/share"@)),
            (None, None) => None,
        },
    }
}

/// The directory of application data, as the environment variables `HOME`,
/// `APPDATA` and `XDG_DATA_HOME` give it.
pub fn app_data_dir(
    platform: Platform,
    home: Option<String>,
    appdata: Option<String>,
    xdg: Option<String>,
) -> (r: Result<(String, String), AxiError>)
    ensures
        match data_dir(
            platform,
            text::view_of(home),
            text::view_of(appdata),
            text::view_of(xdg),
        ) {
            Some(dir) => r matches Ok(d) && (d.0@, d.1@) == dir,
            None => r matches Err(e) && e@ == no_home(),
        },
{
    match platform {
        Platform::MacOs => match home {
            Some(home) => Ok((home, "Library/Application Support".to_owned())),
            None => Err(home_err()),
        },
        Platform::Windows => match appdata {
            Some(appdata) => Ok((appdata, "".to_owned())),
            None => Err(home_err()),
        },
        Platform::Unix => match text::nonempty(xdg) {
            Some(xdg) => Ok((xdg, "".to_owned())),
            None => match home {
                Some(home) => Ok((home, ".local/share".to_owned())),
                None => Err(home_err()),
            },
        },
    }
}

/// The path of the database: the one that was asked for, or else the default,
/// which may not be known.
pub fn db_path(asked: Option<String>, default: Result<String, AxiError>) -> (r: Result<
    String,
    AxiError,
>)
    ensures
        r == (match asked {
            Some(path) => Ok(path),
            None => default,
        }),
{
    match asked {
        Some(path) => Ok(path),
        None => default,
    }
}

// ───────────────────────────── laws ─────────────────────────────

/// The flags of an article are told apart: it is read or unread, and starred
/// or kept for later where the flag is set and only there.
pub proof fn law_flags_are_shown(is_read: bool, is_starred: bool, read_later: bool)
    ensures
        flag_cell(is_read, is_starred, read_later) == (if is_read {
            "read"@
        } else {
            "unread"@
        }) + (if is_starred {
            ".star"@
        } else {
            ""@
        }) + (if read_later {
            ".later"@
        } else {
            ""@
        }),
{
    reveal_strlit("");
    reveal_strlit(".");
    reveal_strlit("star");
    reveal_strlit("later");
    reveal_strlit(".star");
    reveal_strlit(".later");
    let first = seq![
        if is_read {
            "read"@
        } else {
            "unread"@
        },
    ];
    let star = bare_flag("star"@, is_starred);
    let later = bare_flag("later"@, read_later);
    text::law_joining_in_parts(first, star, "."@);
    text::law_joining_in_parts(first + star, later, "."@);
    text::law_joining_in_parts(star, later, "."@);
    text::law_joining_in_parts(later, star, "."@);
    assert(".star"@ =~= "."@ + "star"@);
    assert(".later"@ =~= "."@ + "later"@);
    if !is_starred {
        assert(first + star =~= first);
    }
    if !read_later {
        assert(first + star + later =~= first + star);
    }
    assert(flag_cell(is_read, is_starred, read_later) =~= first[0] + (if is_starred {
        ".star"@
    } else {
        ""@
    }) + (if read_later {
        ".later"@
    } else {
        ""@
    }));
}

/// The row of an article holds its id, its feed and title on one line each, its
/// flags and its date, in that order.
pub proof fn law_article_rows(rows: Seq<ArticleSummary>, i: int)
    requires
        0 <= i < rows.len(),
    ensures
        article_rows(rows).len() == rows.len(),
        article_rows(rows)[i].len() == 5,
        article_rows(rows)[i][0] == text::numeral(rows[i].id as int),
        article_rows(rows)[i][1] == scalar_of(capped(rows[i].feed_title@, 28)),
        article_rows(rows)[i][2] == scalar_of(capped(rows[i].title@, 80)),
        article_rows(rows)[i][3] == flag_cell(
            rows[i].is_read,
            rows[i].is_starred,
            rows[i].read_later,
        ),
        article_rows(rows)[i][4] == date_cell(text::view_of(rows[i].published_at)),
        article_fields() == seq!["id"@, "feed"@, "title"@, "flags"@, "date"@],
{
}

/// A table of feeds says how many there are and holds a row for each, in order:
/// its id, its title, its unread articles and its type.
pub proof fn law_feed_tables_hold_every_feed(doc: Seq<char>, depth: nat, feeds: Seq<Feed>)
    ensures
        feed_table_to(doc, depth, feeds) == doc + Seq::new(2 * depth, |i: int| ' ') + "feeds"@
            + "["@ + text::decimal(feeds.len()) + "]{"@ + text::joined(
            seq!["id"@, "title"@, "unread"@, "type"@],
            ","@,
        ) + "}:"@ + "\n"@ + text::concatenated(
            feeds.map_values(
                |f: Feed|
                    Seq::new(2 * (depth + 1), |i: int| ' ') + text::joined(
                        seq![
                            text::numeral(f.id as int),
                            scalar_of(capped(f.title@, 40)),
                            text::numeral(f.unread_count as int),
                            f.source_type@,
                        ],
                        ","@,
                    ) + seq!['\n'],
            ),
        ),
{
    let fields = seq!["id"@, "title"@, "unread"@, "type"@];
    crate::toon::law_tables_hold_every_row(doc, depth, "feeds"@, fields, feed_rows(feeds));
    let g = |row: Seq<Seq<char>>|
        Seq::new(2 * (depth + 1), |i: int| ' ') + text::joined(row, ","@) + seq!['\n'];
    let h = |f: Feed|
        Seq::new(2 * (depth + 1), |i: int| ' ') + text::joined(
            seq![
                text::numeral(f.id as int),
                scalar_of(capped(f.title@, 40)),
                text::numeral(f.unread_count as int),
                f.source_type@,
            ],
            ","@,
        ) + seq!['\n'];
    assert(feed_rows(feeds).map_values(g) =~= feeds.map_values(h));
}

/// A full date is shown by its day, which is how it begins; a shorter one as a
/// whole, and a missing one as a dash.
pub proof fn law_dates_are_cut_to_the_day(s: Seq<char>)
    ensures
        date_cell(None) == "-"@,
        text::bytes(s) < 10 ==> date_cell(Some(s)) == scalar_of(s),
        text::bytes(s) >= 10 && cuts_cleanly(s) ==> exists|n: int|
            0 <= n <= s.len() && date_cell(Some(s)) == #[trigger] s.take(n) && text::bytes(
                s.take(n),
            ) == 10,
{
    lemma_first_bytes(s, 10);
}

proof fn lemma_first_bytes(s: Seq<char>, n: nat)
    ensures
        0 <= first_bytes(s, n) <= s.len(),
    decreases s.len(),
{
    if s.len() > 0 {
        lemma_first_bytes(s.drop_last(), n);
    }
}

/// The home directory is shown as `~`, and only where a path starts with it.
pub proof fn law_home_is_abbreviated(home: Seq<char>, rest: Seq<char>, p: Seq<char>)
    ensures
        home.len() > 0 ==> collapsed(home + rest, Some(home)) == "~"@ + rest,
        home.len() == 0 ==> collapsed(p, Some(home)) == p,
        !(home.len() <= p.len() && p.take(home.len() as int) == home) ==> collapsed(p, Some(home))
            == p,
        collapsed(p, None) == p,
{
    let all = home + rest;
    assert(all.subrange(0, home.len() as int) =~= home);
    assert(all.skip(home.len() as int) =~= rest);
    if text::begins(p, home) {
        assert(p.subrange(0, home.len() as int) =~= p.take(home.len() as int));
    }
}

/// A size is said in bytes below 1024, and else to a tenth of the largest
/// unit of which there is at least one: what is said is off by half a tenth at
/// most, for sizes that a floating-point number holds exactly.
pub proof fn law_sizes_are_near(n: nat)
    requires
        n < 0x20_0000_0000_0000,
    ensures
        n < 1024 ==> size_text(n as int) == text::decimal(n) + " B"@,
        n >= 1024 ==> exists|tenths: nat|
            ({
                let unit: nat = if n < 0x10_0000 {
                    0x400
                } else if n < 0x4000_0000 {
                    0x10_0000
                } else {
                    0x4000_0000
                };
                &&& size_text(n as int) == #[trigger] text::decimal(tenths / 10) + "."@
                    + text::decimal(tenths % 10) + (if n < 0x10_0000 {
                    " KB"@
                } else if n < 0x4000_0000 {
                    " MB"@
                } else {
                    " GB"@
                })
                &&& 2 * (tenths * unit) <= 20 * n + unit
                &&& 20 * n <= 2 * (tenths * unit) + unit
            }),
{
    if n >= 1024 {
        let unit: nat = if n < 0x10_0000 {
            0x400
        } else if n < 0x4000_0000 {
            0x10_0000
        } else {
            0x4000_0000
        };
        assert(spacing(n) == 1);
        assert(n / 1 == n && n % 1 == 0);
        assert(held(n) == n);
        let tenths = rounded(n * 10, unit);
        lemma_rounded(n * 10, unit);
        assert(size_text(n as int) == text::decimal(tenths / 10) + "."@ + text::decimal(
            tenths % 10,
        ) + (if n < 0x10_0000 {
            " KB"@
        } else if n < 0x4000_0000 {
            " MB"@
        } else {
            " GB"@
        }));
    }
}

proof fn lemma_rounded(n: nat, d: nat)
    requires
        d > 0,
    ensures
        2 * (rounded(n, d) * d) <= 2 * n + d,
        2 * n <= 2 * (rounded(n, d) * d) + d,
{
    let q = n / d;
    let rest = n % d;
    vstd::arithmetic::div_mod::lemma_fundamental_div_mod(n as int, d as int);
    assert(rest < d) by (nonlinear_arith)
        requires
            d > 0,
            rest == n % d,
    ;
    assert(q * d == d * q) by (nonlinear_arith);
    assert((q + 1) * d == q * d + d) by (nonlinear_arith);
}

/// An error is printed with its message, and with every hint that it has.
pub proof fn law_errors_are_printed(e: AxiErrorView)
    ensures
        error_text(e) == "error: "@ + scalar_of(e.message) + "\n"@ + help_to(
            Seq::empty(),
            e.help,
        ),
{
    let none = Seq::<char>::empty();
    crate::toon::law_documents_grow_by_lines(none, 0, none, "error"@, e.message);
    crate::toon::law_documents_only_grow(
        kv_to(none, 0, "error"@, e.message),
        0,
        none,
        none,
        e.help,
        Seq::empty(),
    );
    reveal_strlit("error");
    reveal_strlit(": ");
    reveal_strlit("error: ");
    assert("error: "@ =~= "error"@ + ": "@);
    assert(error_text(e) =~= "error: "@ + scalar_of(e.message) + "\n"@ + help_to(none, e.help));
}

/// A failure of the store is reported in its own words, whatever kind it is of,
/// and is no wrong use.
pub proof fn law_store_failures_keep_their_words(s: Seq<char>)
    ensures
        store_error(ErrorView::Code(s)).message == s,
        store_error(ErrorView::Other(s)).message == s,
        store_error(ErrorView::Network(s)).message == s,
        store_error(ErrorView::Store(s)).message == s,
        store_error(ErrorView::Opml(s)).message == s,
        runtime_error(s).message == s,
        runtime_error(s).help.len() == 0,
        !runtime_error(s).usage,
        one_line(s) == s + "\n"@,
        forall|e: ErrorView| !(#[trigger] store_error(e)).usage && store_error(e).help.len() == 0,
{
    crate::toon::law_documents_grow_by_lines(Seq::empty(), 0, s, s, s);
    assert(one_line(s) =~= s + "\n"@);
}

/// A destructive action that is refused says how to confirm it: by the command
/// itself with a flag more. The refusal is a wrong use.
pub proof fn law_refusals_say_how_to_go_on(action: Seq<char>, rerun: Seq<char>)
    ensures
        unconfirmed(action, rerun).message == action + " is destructive and needs confirmation"@,
        unconfirmed(action, rerun).help == seq!["Run `"@ + rerun + " --yes` to proceed"@],
        unconfirmed(action, rerun).usage,
{
}

/// The flags that a hint repeats are those that were given, each under its own
/// name and with its own id.
pub proof fn law_flags_are_repeated(args: ListArgs)
    ensures
        flags_of(args) == text::joined(
            (match args.feed {
                Some(id) => seq!["--feed "@ + text::numeral(id as int)],
                None => Seq::empty(),
            }) + (match args.folder {
                Some(id) => seq!["--folder "@ + text::numeral(id as int)],
                None => Seq::empty(),
            }) + (match args.tag {
                Some(id) => seq!["--tag "@ + text::numeral(id as int)],
                None => Seq::empty(),
            }) + (if args.starred {
                seq!["--starred"@]
            } else {
                Seq::empty()
            }) + (if args.later {
                seq!["--later"@]
            } else {
                Seq::empty()
            }) + (if args.all {
                seq!["--all"@]
            } else {
                Seq::empty()
            }),
            " "@,
        ),
{
}

/// A view is named by what it shows: each filter that is set has its word, and
/// a view without any is of articles.
pub proof fn law_views_are_named(query: ArticleQuery, unread_only: bool)
    ensures
        ({
            let words = (if unread_only {
                seq!["unread"@]
            } else {
                Seq::empty()
            }) + (if query.starred {
                seq!["starred"@]
            } else {
                Seq::empty()
            }) + (if query.later {
                seq!["read-later"@]
            } else {
                Seq::empty()
            }) + (if query.feed is Some {
                seq!["in feed"@]
            } else {
                Seq::empty()
            }) + (if query.folder is Some {
                seq!["in folder"@]
            } else {
                Seq::empty()
            }) + (if query.tag is Some {
                seq!["tagged"@]
            } else {
                Seq::empty()
            });
            label_of(query, unread_only) == (if words.len() == 0 {
                "articles"@
            } else {
                text::joined(words, " "@)
            })
        }),
{
}

/// A count asks for every filter that is set, each with the number of its
/// parameter, and for all of them at once.
#[verifier::rlimit(60)]
pub proof fn law_counts_ask_for_every_filter(query: ArticleQuery, unread_only: bool)
    ensures
        ({
            let folder: nat = if query.feed is Some {
                2
            } else {
                1
            };
            let tag: nat = if query.folder is Some {
                folder + 1
            } else {
                folder
            };
            let feeds = match query.feed {
                Some(id) => seq!["feed_id = ?1"@],
                None => Seq::empty(),
            };
            let folders = match query.folder {
                Some(id) => seq![
                    "feed_id IN (SELECT id FROM feeds WHERE folder_id = ?"@ + text::decimal(folder)
                        + ")"@,
                ],
                None => Seq::empty(),
            };
            let tags = match query.tag {
                Some(id) => seq![
                    "id IN (SELECT article_id FROM article_tags WHERE tag_id = ?"@ + text::decimal(
                        tag,
                    ) + ")"@,
                ],
                None => Seq::empty(),
            };
            let starred = if query.starred {
                seq!["is_starred = 1"@]
            } else {
                Seq::empty()
            };
            let later = if query.later {
                seq!["read_later = 1"@]
            } else {
                Seq::empty()
            };
            let all = feeds + folders + tags + starred + later;
            count_query(query, unread_only).0 == "SELECT count(*) FROM articles WHERE "@ + (
            if all.len() == 0 {
                "1=1"@
            } else {
                text::joined(all, " AND "@)
            }) + (if unread_only {
                " AND is_read = 0"@
            } else {
                ""@
            })
        }),
{
    assert("feed_id = ?1"@ == "feed_id = ?"@ + text::decimal(1)) by {
        reveal_strlit("feed_id = ?");
        reveal_strlit("feed_id = ?1");
        text::law_decimal_notation(0, 1);
        reveal_strlit("0123456789");
        assert("feed_id = ?1"@ =~= "feed_id = ?"@ + text::decimal(1));
    }
    let a = asked(query.feed, |id: i64| Condition::Feed(id));
    let b = asked(query.folder, |id: i64| Condition::Folder(id));
    let c = asked(query.tag, |id: i64| Condition::Tag(id));
    let d = asked_if(query.starred, Condition::Starred);
    let e = asked_if(query.later, Condition::Later);
    lemma_texts_joined(a, b, 1);
    lemma_texts_joined(a + b, c, 1);
    lemma_texts_joined(a + b + c, d, 1);
    lemma_texts_joined(a + b + c + d, e, 1);
    lemma_one_text(a, 1);
    lemma_one_text(b, 1 + a.len());
    lemma_one_text(c, 1 + (a + b).len());
    lemma_one_text(d, 1 + (a + b + c).len());
    lemma_one_text(e, 1 + (a + b + c + d).len());
    assert(condition_texts(query) =~= numbered(a + b + c + d + e, 1));
}

spec fn numbered(conditions: Seq<Condition>, from: nat) -> Seq<Seq<char>> {
    Seq::new(conditions.len(), |i: int| condition_text(conditions[i], (i + from) as nat))
}

proof fn lemma_texts_joined(a: Seq<Condition>, b: Seq<Condition>, from: nat)
    ensures
        numbered(a + b, from) == numbered(a, from) + numbered(b, from + a.len()),
{
    assert(numbered(a + b, from) =~= numbered(a, from) + numbered(b, from + a.len()));
}

proof fn lemma_one_text(a: Seq<Condition>, from: nat)
    requires
        a.len() <= 1,
    ensures
        numbered(a, from) == (if a.len() == 0 {
            Seq::<Seq<char>>::empty()
        } else {
            seq![condition_text(a[0], from)]
        }),
{
    if a.len() == 0 {
        assert(numbered(a, from) =~= Seq::<Seq<char>>::empty());
    } else {
        assert(numbered(a, from) =~= seq![condition_text(a[0], from)]);
    }
}

/// A count hands over the ids of its filters in the order of their parameters.
pub proof fn law_counts_hand_over_the_ids(query: ArticleQuery, unread_only: bool)
    ensures
        count_query(query, unread_only).1 == (match query.feed {
            Some(id) => seq![id],
            None => Seq::empty(),
        }) + (match query.folder {
            Some(id) => seq![id],
            None => Seq::empty(),
        }) + (match query.tag {
            Some(id) => seq![id],
            None => Seq::empty(),
        }),
{
    let a = asked(query.feed, |id: i64| Condition::Feed(id));
    let b = asked(query.folder, |id: i64| Condition::Folder(id));
    let c = asked(query.tag, |id: i64| Condition::Tag(id));
    let d = asked_if(query.starred, Condition::Starred);
    let e = asked_if(query.later, Condition::Later);
    lemma_ids_joined(a, b);
    lemma_ids_joined(a + b, c);
    lemma_ids_joined(a + b + c, d);
    lemma_ids_joined(a + b + c + d, e);
    lemma_one_id(a);
    lemma_one_id(b);
    lemma_one_id(c);
    lemma_one_id(d);
    lemma_one_id(e);
    let ids = ids_in(a) + ids_in(b) + ids_in(c);
    assert(ids + Seq::<i64>::empty() + Seq::<i64>::empty() =~= ids);
}

proof fn lemma_ids_joined(a: Seq<Condition>, b: Seq<Condition>)
    ensures
        ids_in(a + b) == ids_in(a) + ids_in(b),
    decreases b.len(),
{
    if b.len() == 0 {
        assert(a + b =~= a);
        assert(ids_in(a) + ids_in(b) =~= ids_in(a));
    } else {
        lemma_ids_joined(a, b.drop_last());
        assert((a + b).drop_last() =~= a + b.drop_last());
        assert(ids_in(a + b) =~= ids_in(a) + ids_in(b));
    }
}

proof fn lemma_one_id(a: Seq<Condition>)
    requires
        a.len() <= 1,
    ensures
        ids_in(a) == (if a.len() == 0 {
            Seq::<i64>::empty()
        } else {
            id_in(a[0])
        }),
{
    if a.len() == 1 {
        assert(a.drop_last() =~= Seq::<Condition>::empty());
        assert(ids_in(a.drop_last()) == Seq::<i64>::empty());
        assert(ids_in(a) =~= id_in(a[0]));
    }
}

/// Application data is kept where the platform keeps it: below the home
/// directory, in the directory that the environment names for it, or nowhere
/// where neither is known.
pub proof fn law_data_is_kept_where_it_belongs(
    home: Seq<char>,
    dir: Seq<char>,
    appdata: Option<Seq<char>>,
    xdg: Option<Seq<char>>,
    any: Option<Seq<char>>,
)
    ensures
        data_dir(Platform::MacOs, Some(home), appdata, xdg) == Some(
            (home, "Library/Application Support"@),
        ),
        data_dir(Platform::MacOs, None, appdata, xdg) is None,
        data_dir(Platform::Windows, any, Some(dir), xdg) == Some((dir, ""@)),
        data_dir(Platform::Windows, any, None, xdg) is None,
        dir.len() > 0 ==> data_dir(Platform::Unix, any, appdata, Some(dir)) == Some((dir, ""@)),
        data_dir(Platform::Unix, Some(home), appdata, None) == Some((home, ".local/share"@)),
        data_dir(Platform::Unix, Some(home), appdata, Some(Seq::empty())) == Some(
            (home, ".local/share"@),
        ),
        data_dir(Platform::Unix, None, appdata, None) is None,
        data_dir(Platform::Unix, None, appdata, Some(Seq::empty())) is None,
{
}

/// A command comes back with its text or with its error, and an error with its
/// message, its hints and whether it is a wrong use.
pub proof fn law_outcomes(s: String, e: AxiError)
    ensures
        outcome(Ok(s)) == Ok::<Seq<char>, AxiErrorView>(s@),
        outcome(Err(e)) == Err::<Seq<char>, AxiErrorView>(e@),
        e@.message == e.message@,
        e@.help == text::views(e.help@),
        e@.usage == e.usage,
{
}

/// The latest articles of a place are those of its feed, folder and tag, in
/// whatever state they are.
pub proof fn law_places_choose_articles(
    feed: Option<i64>,
    folder: Option<i64>,
    tag: Option<i64>,
)
    ensures
        place_query(feed, folder, tag).feed == feed,
        place_query(feed, folder, tag).folder == folder,
        place_query(feed, folder, tag).tag == tag,
        !place_query(feed, folder, tag).starred,
        !place_query(feed, folder, tag).later,
{
}

/// A listing is of the feed, folder, tag and states that were asked for, and of
/// unread articles unless all, starred or kept ones are.
pub proof fn law_listings_are_of_what_was_asked(args: ListArgs)
    ensures
        listing_of(args).0.feed == args.feed,
        listing_of(args).0.folder == args.folder,
        listing_of(args).0.tag == args.tag,
        listing_of(args).0.starred == args.starred,
        listing_of(args).0.later == args.later,
        listing_of(args).1 <==> !args.all && !args.starred && !args.later,
{
}

/// A database that is not there is named by its path, and a home directory that
/// is not known is said so; neither is a wrong use, and both say what to do.
pub proof fn law_missing_places_are_named(path: Seq<char>, home: Option<Seq<char>>)
    ensures
        no_database(path, home).message == "no Papr database at "@ + collapsed(path, home),
        no_database(path, home).help == seq![
            "Install and launch Papr to create it, or"@,
            "Run any papr command with `--db <path>` / set PAPR_DB to point at one"@,
        ],
        !no_database(path, home).usage,
        no_home().message == "could not resolve the home directory"@,
        no_home().help == seq!["Set PAPR_DB or pass --db <path> to the database"@],
        !no_home().usage,
{
}

/// A negative size, which no file has, is said as it is.
pub proof fn law_small_sizes_are_exact(n: int)
    requires
        n < 1024,
    ensures
        size_text(n) == text::numeral(n) + " B"@,
{
}

/// Dates can be cut to their day exactly where the first ten bytes of each end
/// between two characters.
pub proof fn law_clean_dates(rows: Seq<ArticleSummary>, s: Seq<char>, i: int)
    requires
        dates_cut_cleanly(rows),
        0 <= i < rows.len(),
        text::view_of(rows[i].published_at) == Some(s),
        text::bytes(s) >= 10,
    ensures
        exists|n: int| 0 <= n <= s.len() && text::bytes(#[trigger] s.take(n)) == 10,
{
    lemma_first_bytes(s, 10);
    assert(rows[i].published_at matches Some(d) && cuts_cleanly(d@));
    let n = first_bytes(s, 10);
    assert(text::bytes(s.take(n)) == 10);
}

/// A date whose first ten bytes are whole characters is shown by exactly those.
pub proof fn law_days_are_shown(s: Seq<char>, n: int)
    requires
        0 <= n <= s.len(),
        text::bytes(s.take(n)) == 10,
    ensures
        cuts_cleanly(s),
        date_cell(Some(s)) == s.take(n),
{
    lemma_first_bytes_at(s, n);
    lemma_more_bytes(s, n);
}

proof fn lemma_more_bytes(s: Seq<char>, n: int)
    requires
        0 <= n <= s.len(),
    ensures
        text::bytes(s) >= text::bytes(s.take(n)),
        n < s.len() ==> text::bytes(s) > text::bytes(s.take(n)),
{
    assert(s =~= s.take(n) + s.skip(n));
    text::lemma_bytes_add(s.take(n), s.skip(n));
    if n < s.len() {
        let rest = s.skip(n);
        assert(rest =~= seq![rest[0]] + rest.drop_first());
        assert(vstd::utf8::encode_utf8(rest).len() > 0);
    }
}

proof fn lemma_first_bytes_at(s: Seq<char>, n: int)
    requires
        0 <= n <= s.len(),
        text::bytes(s.take(n)) == 10,
    ensures
        first_bytes(s, 10) == n,
    decreases s.len(),
{
    lemma_more_bytes(s, n);
    if n == s.len() {
        assert(s.take(n) =~= s);
    } else {
        assert(s.drop_last().take(n) =~= s.take(n));
        lemma_first_bytes_at(s.drop_last(), n);
    }
}

/// A size that a floating-point number does not hold exactly is said, in
/// gigabytes, as one that is at most 512 bytes off.
pub proof fn law_huge_sizes_are_near(n: nat)
    requires
        0x20_0000_0000_0000 <= n < 0x8000_0000_0000_0000,
    ensures
        exists|v: nat, tenths: nat|
            ({
                &&& size_text(n as int) == text::decimal(tenths / 10) + "."@ + text::decimal(
                    tenths % 10,
                ) + " GB"@
                &&& n <= v + 512 && v <= n + 512
                &&& 2 * (#[trigger] (tenths * 0x4000_0000)) <= #[trigger] (20 * v) + 0x4000_0000
                &&& 20 * v <= 2 * (tenths * 0x4000_0000) + 0x4000_0000
            }),
{
    lemma_spacing(n);
    lemma_rounded(n, spacing(n));
    let v = held(n);
    let tenths = rounded(v * 10, 0x4000_0000);
    lemma_rounded(v * 10, 0x4000_0000);
    assert(2 * (tenths * 0x4000_0000) <= 20 * v + 0x4000_0000);
}

} // verus!
