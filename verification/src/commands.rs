//! The command line's commands: what each prints for the records it is
//! handed, what it refuses, and what it asks of the store.

use vstd::prelude::*;
use crate::cli::{
    article_fields, article_rows, article_table, capped, cap, choose_latest, collapse_home,
    collapsed, dates_cut_cleanly, detail_flags, feed_table, feed_table_to, flag_cell, flags_of,
    label_of, listing_of, one_line, outcome, push_row, place_query, replay_filters, resolve_query,
    scope_label, truncate, truncated, AxiError, AxiErrorView, ListArgs,
};
use crate::models::{ArticleDetail, ArticleQuery, ArticleSummary, Feed, Folder, Tag};
use crate::text;
use crate::toon::{
    block_to, cells, header_to, help_to, kv_to, line_to, opt, opt_of, scalar, scalar_of, table_to,
    Out,
};

verus! {

/// What the program says of itself.
pub const DESCRIPTION: &'static str = "Read, search and triage your Papr RSS feeds from the shell.";

/// How much of one article is shown, in characters.
pub const READ_TRUNCATE: usize = 1500;

/// How much of each of several articles is shown, in characters.
pub const BATCH_TRUNCATE: usize = 600;

/// How many articles a listing shows unless told otherwise.
pub const LIST_LIMIT: i64 = 30;

/// How many matches a search shows unless told otherwise.
pub const SEARCH_LIMIT: i64 = 20;

// ───────────────────────────── home ─────────────────────────────

/// What the home view shows: where the program and its database are, how much
/// there is, and the latest unread and the latest articles.
#[derive(Debug, PartialEq, Eq)]
pub struct Home {
    pub bin: String,
    pub db: String,
    pub home: Option<String>,
    pub unread: i64,
    pub starred: i64,
    pub later: i64,
    pub feeds: usize,
    pub latest_unread: Vec<ArticleSummary>,
    pub latest: Vec<ArticleSummary>,
}

/// The home view: live counts, then the latest unread articles, or the latest
/// of all where nothing is unread.
pub open spec fn home_text(h: Home) -> Seq<char> {
    let home = text::view_of(h.home);
    let d = kv_to(Seq::empty(), 0, "bin"@, collapsed(h.bin@, home));
    let d = kv_to(
        d,
        0,
        "description"@,
        "Read, search and triage your Papr RSS feeds from the shell."@,
    );
    let d = kv_to(d, 0, "db"@, collapsed(h.db@, home));
    let d = kv_to(d, 0, "unread"@, text::numeral(h.unread as int));
    let d = kv_to(d, 0, "starred"@, text::numeral(h.starred as int));
    let d = kv_to(d, 0, "later"@, text::numeral(h.later as int));
    let d = kv_to(d, 0, "feeds"@, text::decimal(h.feeds as nat));
    let d = if h.latest_unread@.len() == 0 {
        let d = line_to(d, 0, "inbox: 0 unread — all caught up"@);
        let d = header_to(d, 0, "recent["@ + text::decimal(h.latest@.len()) + "]"@);
        table_to(d, 0, "recent"@, article_fields(), article_rows(h.latest@))
    } else {
        table_to(d, 0, "articles"@, article_fields(), article_rows(h.latest_unread@))
    };
    help_to(
        d,
        seq![
            "Run `papr read <id>` to read an article's full text"@,
            "Run `papr list --feed <id>` to list one feed's articles"@,
            "Run `papr search \"<query>\"` to search every article"@,
            "Run `papr refresh` to fetch new articles"@,
        ],
    )
}

/// The home view.
pub fn cmd_home(h: &Home) -> (r: Result<String, AxiError>)
    requires
        dates_cut_cleanly(h.latest_unread@),
        dates_cut_cleanly(h.latest@),
    ensures
        outcome(r) == Ok::<Seq<char>, AxiErrorView>(home_text(*h)),
{
    let home = text::slice_of(&h.home);
    let mut out = Out::new();
    out.kv(0, "bin", collapse_home(h.bin.as_str(), home).as_str());
    out.kv(0, "description", DESCRIPTION);
    out.kv(0, "db", collapse_home(h.db.as_str(), home).as_str());
    out.kv(0, "unread", text::integer(h.unread).as_str());
    out.kv(0, "starred", text::integer(h.starred).as_str());
    out.kv(0, "later", text::integer(h.later).as_str());
    out.kv(0, "feeds", text::count(h.feeds).as_str());
    if h.latest_unread.len() == 0 {
        out.line(0, "inbox: 0 unread — all caught up");
        let head = text::cat3("recent[", text::count(h.latest.len()).as_str(), "]");
        out.header(0, head.as_str());
        article_table(&mut out, "recent", &h.latest);
    } else {
        article_table(&mut out, "articles", &h.latest_unread);
    }
    let help = text::list4(
        "Run `papr read <id>` to read an article's full text",
        "Run `papr list --feed <id>` to list one feed's articles",
        "Run `papr search \"<query>\"` to search every article",
        "Run `papr refresh` to fetch new articles",
    );
    out.help(&help);
    Ok(out.into_string())
}

// ───────────────────────────── feeds ─────────────────────────────

/// The unread articles of all feeds.
pub open spec fn unread_sum(feeds: Seq<Feed>) -> int
    decreases feeds.len(),
{
    if feeds.len() == 0 {
        0
    } else {
        unread_sum(feeds.drop_last()) + feeds.last().unread_count
    }
}

/// The feeds in a folder, in order.
pub open spec fn feeds_in(feeds: Seq<Feed>, folder: i64) -> Seq<Feed>
    decreases feeds.len(),
{
    if feeds.len() == 0 {
        Seq::empty()
    } else {
        let before = feeds_in(feeds.drop_last(), folder);
        if feeds.last().folder_id == Some(folder) {
            before.push(feeds.last())
        } else {
            before
        }
    }
}

/// There is a folder with this id.
pub open spec fn is_folder(folders: Seq<Folder>, id: Option<i64>) -> bool {
    exists|i: int| 0 <= i < folders.len() && id == Some((#[trigger] folders[i]).id)
}

/// The feeds in no folder, in order.
pub open spec fn loose_feeds(feeds: Seq<Feed>, folders: Seq<Folder>) -> Seq<Feed>
    decreases feeds.len(),
{
    if feeds.len() == 0 {
        Seq::empty()
    } else {
        let before = loose_feeds(feeds.drop_last(), folders);
        if is_folder(folders, feeds.last().folder_id) {
            before
        } else {
            before.push(feeds.last())
        }
    }
}

/// A document with a section more for each folder that has feeds.
pub open spec fn folder_sections_to(doc: Seq<char>, feeds: Seq<Feed>, folders: Seq<Folder>) -> Seq<
    char,
>
    decreases folders.len(),
{
    if folders.len() == 0 {
        doc
    } else {
        let d = folder_sections_to(doc, feeds, folders.drop_last());
        let group = feeds_in(feeds, folders.last().id);
        if group.len() == 0 {
            d
        } else {
            feed_table_to(header_to(d, 0, scalar_of(folders.last().name@)), 1, group)
        }
    }
}

/// Some folder has feeds.
pub open spec fn any_section(feeds: Seq<Feed>, folders: Seq<Folder>) -> bool {
    exists|i: int| 0 <= i < folders.len() && feeds_in(feeds, (#[trigger] folders[i]).id).len() > 0
}

/// The view of all feeds: by folder, and those in none last.
pub open spec fn feeds_text(feeds: Seq<Feed>, folders: Seq<Folder>) -> Seq<char> {
    if feeds.len() == 0 {
        help_to(
            one_line("feeds: 0 subscriptions yet"@),
            seq!["Run `papr subscribe <url>` to add your first feed"@],
        )
    } else {
        let d = one_line(
            "count: "@ + text::decimal(feeds.len()) + " feeds · "@ + text::numeral(
                unread_sum(feeds),
            ) + " unread"@,
        );
        let d = folder_sections_to(d, feeds, folders);
        let loose = loose_feeds(feeds, folders);
        let d = if loose.len() == 0 {
            d
        } else if any_section(feeds, folders) {
            feed_table_to(header_to(d, 0, "(no folder)"@), 1, loose)
        } else {
            feed_table_to(d, 0, loose)
        };
        help_to(
            d,
            seq![
                "Run `papr list --feed <id>` to list a feed's articles"@,
                "Run `papr refresh --feed <id>` to fetch one feed"@,
                "Run `papr subscribe <url>` to add a feed"@,
            ],
        )
    }
}

fn total_unread(feeds: &Vec<Feed>) -> (r: i128)
    ensures
        r == unread_sum(feeds@),
        r > i128::MIN,
{
    let mut total: i128 = 0;
    assert(feeds@.take(0) =~= Seq::<Feed>::empty());
    for i in 0..feeds.len()
        invariant
            total == unread_sum(feeds@.take(i as int)),
            -0x8000_0000_0000_0000 * i <= total <= 0x8000_0000_0000_0000 * i,
    {
        assert(feeds@.take(i + 1).drop_last() =~= feeds@.take(i as int));
        total = total + feeds[i].unread_count as i128;
    }
    assert(feeds@.take(feeds@.len() as int) =~= feeds@);
    total
}

fn in_folder<'a>(feeds: &'a Vec<Feed>, folder: i64) -> (r: Vec<&'a Feed>)
    ensures
        crate::cli::referred(r@) == feeds_in(feeds@, folder),
{
    let mut out: Vec<&'a Feed> = Vec::new();
    assert(feeds@.take(0) =~= Seq::<Feed>::empty());
    assert(crate::cli::referred(out@) =~= Seq::<Feed>::empty());
    for i in 0..feeds.len()
        invariant
            crate::cli::referred(out@) == feeds_in(feeds@.take(i as int), folder),
    {
        assert(feeds@.take(i + 1).drop_last() =~= feeds@.take(i as int));
        let ghost before = out@;
        let inside = match feeds[i].folder_id {
            Some(id) => id == folder,
            None => false,
        };
        if inside {
            out.push(&feeds[i]);
            assert(crate::cli::referred(out@) =~= crate::cli::referred(before).push(
                feeds@[i as int],
            ));
        }
    }
    assert(feeds@.take(feeds@.len() as int) =~= feeds@);
    out
}

fn names_folder(folders: &Vec<Folder>, id: Option<i64>) -> (r: bool)
    ensures
        r == is_folder(folders@, id),
{
    match id {
        Some(wanted) => {
            for i in 0..folders.len()
                invariant
                    id == Some(wanted),
                    forall|j: int| 0 <= j < i ==> (#[trigger] folders@[j]).id != wanted,
            {
                if folders[i].id == wanted {
                    assert(id == Some(folders@[i as int].id));
                    return true;
                }
            }
            false
        },
        None => false,
    }
}

fn in_no_folder<'a>(feeds: &'a Vec<Feed>, folders: &Vec<Folder>) -> (r: Vec<&'a Feed>)
    ensures
        crate::cli::referred(r@) == loose_feeds(feeds@, folders@),
{
    let mut out: Vec<&'a Feed> = Vec::new();
    assert(feeds@.take(0) =~= Seq::<Feed>::empty());
    assert(crate::cli::referred(out@) =~= Seq::<Feed>::empty());
    for i in 0..feeds.len()
        invariant
            crate::cli::referred(out@) == loose_feeds(feeds@.take(i as int), folders@),
    {
        assert(feeds@.take(i + 1).drop_last() =~= feeds@.take(i as int));
        let ghost before = out@;
        if !names_folder(folders, feeds[i].folder_id) {
            out.push(&feeds[i]);
            assert(crate::cli::referred(out@) =~= crate::cli::referred(before).push(
                feeds@[i as int],
            ));
        }
    }
    assert(feeds@.take(feeds@.len() as int) =~= feeds@);
    out
}

/// The view of all feeds.
pub fn cmd_feeds(feeds: &Vec<Feed>, folders: &Vec<Folder>) -> (r: Result<String, AxiError>)
    ensures
        outcome(r) == Ok::<Seq<char>, AxiErrorView>(feeds_text(feeds@, folders@)),
{
    let mut out = Out::new();
    if feeds.len() == 0 {
        out.line(0, "feeds: 0 subscriptions yet");
        out.help(&text::list1("Run `papr subscribe <url>` to add your first feed"));
        return Ok(out.into_string());
    }
    let total = text::wide_integer(total_unread(feeds));
    let head = text::cat5(
        "count: ",
        text::count(feeds.len()).as_str(),
        " feeds · ",
        total.as_str(),
        " unread",
    );
    out.line(0, head.as_str());
    let ghost top = out@;
    let mut printed_any_group = false;
    assert(folders@.take(0) =~= Seq::<Folder>::empty());
    for i in 0..folders.len()
        invariant
            out@ == folder_sections_to(top, feeds@, folders@.take(i as int)),
            printed_any_group == exists|j: int|
                0 <= j < i && feeds_in(feeds@, (#[trigger] folders@[j]).id).len() > 0,
    {
        assert(folders@.take(i + 1).drop_last() =~= folders@.take(i as int));
        let group = in_folder(feeds, folders[i].id);
        assert(crate::cli::referred(group@).len() == group@.len());
        if group.len() > 0 {
            assert(feeds_in(feeds@, folders@[i as int].id).len() > 0);
            printed_any_group = true;
            out.header(0, scalar(folders[i].name.as_str()).as_str());
            feed_table(&mut out, 1, &group);
        }
    }
    assert(folders@.take(folders@.len() as int) =~= folders@);
    let loose = in_no_folder(feeds, folders);
    assert(crate::cli::referred(loose@).len() == loose@.len());
    if loose.len() > 0 {
        if printed_any_group {
            out.header(0, "(no folder)");
            feed_table(&mut out, 1, &loose);
        } else {
            feed_table(&mut out, 0, &loose);
        }
    }
    let help = text::list3(
        "Run `papr list --feed <id>` to list a feed's articles",
        "Run `papr refresh --feed <id>` to fetch one feed",
        "Run `papr subscribe <url>` to add a feed",
    );
    out.help(&help);
    Ok(out.into_string())
}

// ───────────────────────────── list ─────────────────────────────

/// A listing of so many articles of so many.
pub open spec fn list_text(args: ListArgs, rows: Seq<ArticleSummary>, total: int) -> Seq<char> {
    let (query, unread_only) = listing_of(args);
    let label = label_of(query, unread_only);
    if rows.len() == 0 {
        help_to(
            one_line("articles: 0 "@ + label + " found"@),
            seq!["Run `papr refresh` to fetch new articles"@],
        )
    } else {
        let d = one_line(
            "count: "@ + text::decimal(rows.len()) + " of "@ + text::numeral(total) + " "@ + label,
        );
        let d = table_to(d, 0, "articles"@, article_fields(), article_rows(rows));
        let help = seq![
            "Run `papr read <id>` to read an article's full text"@,
            "Run `papr mark read <id>` to mark an article read"@,
        ];
        help_to(
            d,
            if args.offset + rows.len() < total {
                help.push(
                    "Run `papr list --offset "@ + text::numeral(args.offset + args.limit) + " "@
                        + flags_of(args) + "` for the next page"@,
                )
            } else {
                help
            },
        )
    }
}

/// A listing: `rows` of the `total` articles that were asked for.
pub fn cmd_list(args: &ListArgs, rows: &Vec<ArticleSummary>, total: i64) -> (r: Result<
    String,
    AxiError,
>)
    requires
        dates_cut_cleanly(rows@),
    ensures
        outcome(r) == Ok::<Seq<char>, AxiErrorView>(list_text(*args, rows@, total as int)),
{
    let (query, unread_only) = resolve_query(args);
    let label = scope_label(&query, unread_only);
    let mut out = Out::new();
    if rows.len() == 0 {
        let line = text::cat3("articles: 0 ", label.as_str(), " found");
        out.line(0, line.as_str());
        out.help(&text::list1("Run `papr refresh` to fetch new articles"));
        return Ok(out.into_string());
    }
    let shown = text::count(rows.len());
    let whole = text::integer(total);
    let mut line = text::cat5("count: ", shown.as_str(), " of ", whole.as_str(), " ");
    line.push_str(label.as_str());
    out.line(0, line.as_str());
    article_table(&mut out, "articles", rows);
    let mut help = text::list2(
        "Run `papr read <id>` to read an article's full text",
        "Run `papr mark read <id>` to mark an article read",
    );
    if (args.offset as i128) + (rows.len() as i128) < total as i128 {
        let next = text::wide_integer(args.offset as i128 + args.limit as i128);
        let hint = text::cat5(
            "Run `papr list --offset ",
            next.as_str(),
            " ",
            replay_filters(args).as_str(),
            "` for the next page",
        );
        text::append(&mut help, hint.as_str());
    }
    out.help(&help);
    Ok(out.into_string())
}

// ───────────────────────────── read ─────────────────────────────

/// What is to be read: articles by their ids, or the latest of a view.
#[derive(Debug, PartialEq, Eq)]
pub struct ReadArgs {
    pub ids: Vec<i64>,
    pub full: bool,
    pub feed: Option<i64>,
    pub folder: Option<i64>,
    pub tag: Option<i64>,
    pub unread: bool,
    pub limit: i64,
}

/// Where the articles to read come from.
#[derive(Debug, PartialEq, Eq)]
pub enum ReadPlan {
    /// These articles.
    Ids(Vec<i64>),
    /// The latest articles of this view, unread ones only where so asked.
    Latest { query: ArticleQuery, unread_only: bool, limit: i64 },
}

/// The refusal to read nothing.
pub open spec fn nothing_to_read() -> AxiErrorView {
    AxiErrorView {
        message: "read needs an article id or a filter"@,
        help: seq![
            "Run `papr read <id> [<id>...]` to read by id"@,
            "Run `papr read --feed <id> --limit 5` to read a feed's latest"@,
        ],
        usage: true,
    }
}

/// Where the articles to read come from: ids win over filters, which combine.
pub fn plan_read(args: &ReadArgs) -> (r: Result<ReadPlan, AxiError>)
    ensures
        if args.ids@.len() > 0 {
            r matches Ok(ReadPlan::Ids(ids)) && ids@ == args.ids@
        } else if args.feed is Some || args.folder is Some || args.tag is Some {
            r == Ok::<ReadPlan, AxiError>(
                ReadPlan::Latest {
                    query: place_query(args.feed, args.folder, args.tag),
                    unread_only: args.unread,
                    limit: args.limit,
                },
            )
        } else {
            r matches Err(e) && e@ == nothing_to_read()
        },
{
    if args.ids.len() > 0 {
        let mut ids: Vec<i64> = Vec::new();
        for i in 0..args.ids.len()
            invariant
                ids@ == args.ids@.take(i as int),
        {
            ids.push(args.ids[i]);
            assert(args.ids@.take(i + 1) =~= args.ids@.take(i as int).push(args.ids@[i as int]));
        }
        assert(args.ids@.take(args.ids@.len() as int) =~= args.ids@);
        return Ok(ReadPlan::Ids(ids));
    }
    if args.feed.is_some() || args.folder.is_some() || args.tag.is_some() {
        let query = choose_latest(args.feed, args.folder, args.tag);
        return Ok(
            ReadPlan::Latest { query, unread_only: args.unread, limit: args.limit },
        );
    }
    Err(
        AxiError::usage(
            "read needs an article id or a filter",
            text::list2(
                "Run `papr read <id> [<id>...]` to read by id",
                "Run `papr read --feed <id> --limit 5` to read a feed's latest",
            ),
        ),
    )
}

/// One of the articles to read.
#[derive(Debug, PartialEq, Eq)]
pub enum ReadItem {
    /// No article has this id.
    Missing(i64),
    /// The article and its plain text.
    Found(ArticleDetail, String),
}

/// How many characters of each article are shown.
pub open spec fn budget_of(count: nat, full: bool) -> nat {
    if full {
        usize::MAX as nat
    } else if count > 1 {
        600
    } else {
        1500
    }
}

/// The text that is shown of an article.
pub open spec fn body_of(body: Seq<char>, budget: nat) -> Seq<char> {
    let (shown, total, cut) = truncated(body, budget);
    if cut {
        shown + "\n... (truncated, "@ + text::decimal(total) + " chars total)"@
    } else {
        shown
    }
}

/// A document with one article more.
pub open spec fn read_item_to(doc: Seq<char>, item: ReadItem, budget: nat) -> Seq<char> {
    let d = header_to(doc, 0, "article"@);
    match item {
        ReadItem::Missing(id) => {
            let d = kv_to(d, 1, "id"@, text::numeral(id as int));
            kv_to(d, 1, "error"@, "not found"@)
        },
        ReadItem::Found(a, body) => {
            let d = kv_to(d, 1, "id"@, text::numeral(a.id as int));
            let d = kv_to(d, 1, "feed"@, a.feed_title@);
            let d = kv_to(d, 1, "title"@, a.title@);
            let d = kv_to(d, 1, "author"@, opt_of(text::view_of(a.author)));
            let d = kv_to(d, 1, "url"@, opt_of(text::view_of(a.url)));
            let d = kv_to(d, 1, "published"@, opt_of(text::view_of(a.published_at)));
            let d = kv_to(d, 1, "state"@, flag_cell(a.is_read, a.is_starred, a.read_later));
            let d = if a.tags@.len() == 0 {
                d
            } else {
                kv_to(d, 1, "tags"@, text::joined(text::views(a.tags@), ", "@))
            };
            block_to(d, 1, "text"@, body_of(body@, budget))
        },
    }
}

/// A document with these articles more.
pub open spec fn read_items_to(doc: Seq<char>, items: Seq<ReadItem>, budget: nat) -> Seq<char>
    decreases items.len(),
{
    if items.len() == 0 {
        doc
    } else {
        read_item_to(read_items_to(doc, items.drop_last(), budget), items.last(), budget)
    }
}

/// An article of which not all is shown.
pub open spec fn is_cut(item: ReadItem, budget: nat) -> bool {
    match item {
        ReadItem::Missing(_) => false,
        ReadItem::Found(_, body) => truncated(body@, budget).2,
    }
}

/// The articles that were asked for.
pub open spec fn read_text(items: Seq<ReadItem>, full: bool) -> Seq<char> {
    if items.len() == 0 {
        help_to(
            one_line("articles: 0 matched that filter"@),
            seq!["Run `papr list` to find article ids"@],
        )
    } else {
        let budget = budget_of(items.len(), full);
        let d = if items.len() > 1 {
            one_line("count: "@ + text::decimal(items.len()) + " articles"@)
        } else {
            Seq::empty()
        };
        let d = read_items_to(d, items, budget);
        if !full && exists|i: int| 0 <= i < items.len() && is_cut(#[trigger] items[i], budget) {
            help_to(d, seq!["Run `papr read <id> --full` to see the complete text"@])
        } else {
            d
        }
    }
}

fn write_item(out: &mut Out, item: &ReadItem, budget: usize) -> (cut: bool)
    ensures
        final(out)@ == read_item_to(old(out)@, *item, budget as nat),
        cut == is_cut(*item, budget as nat),
{
    out.header(0, "article");
    match item {
        ReadItem::Missing(id) => {
            out.kv(1, "id", text::integer(*id).as_str());
            out.kv(1, "error", "not found");
            false
        },
        ReadItem::Found(a, body) => {
            out.kv(1, "id", text::integer(a.id).as_str());
            out.kv(1, "feed", a.feed_title.as_str());
            out.kv(1, "title", a.title.as_str());
            out.kv(1, "author", opt(text::slice_of(&a.author)).as_str());
            out.kv(1, "url", opt(text::slice_of(&a.url)).as_str());
            out.kv(1, "published", opt(text::slice_of(&a.published_at)).as_str());
            out.kv(1, "state", detail_flags(a).as_str());
            if a.tags.len() > 0 {
                out.kv(1, "tags", text::join(&a.tags, ", ").as_str());
            }
            let (shown, total, cut) = truncate(body.as_str(), budget);
            if cut {
                let body = text::cat4(
                    shown.as_str(),
                    "\n... (truncated, ",
                    text::count(total).as_str(),
                    " chars total)",
                );
                out.block(1, "text", body.as_str());
            } else {
                out.block(1, "text", shown.as_str());
            }
            cut
        },
    }
}

/// The articles that were asked for: each with its state and its text, cut
/// short unless all of it was asked for.
pub fn cmd_read(items: &Vec<ReadItem>, full: bool) -> (r: Result<String, AxiError>)
    ensures
        outcome(r) == Ok::<Seq<char>, AxiErrorView>(read_text(items@, full)),
{
    let mut out = Out::new();
    if items.len() == 0 {
        out.line(0, "articles: 0 matched that filter");
        out.help(&text::list1("Run `papr list` to find article ids"));
        return Ok(out.into_string());
    }
    let budget: usize = if full {
        usize::MAX
    } else if items.len() > 1 {
        BATCH_TRUNCATE
    } else {
        READ_TRUNCATE
    };
    if items.len() > 1 {
        let line = text::cat3("count: ", text::count(items.len()).as_str(), " articles");
        out.line(0, line.as_str());
    }
    let ghost top = out@;
    let mut any_truncated = false;
    assert(items@.take(0) =~= Seq::<ReadItem>::empty());
    for i in 0..items.len()
        invariant
            out@ == read_items_to(top, items@.take(i as int), budget as nat),
            any_truncated == exists|j: int|
                0 <= j < i && is_cut(#[trigger] items@[j], budget as nat),
    {
        assert(items@.take(i + 1).drop_last() =~= items@.take(i as int));
        let cut = write_item(&mut out, &items[i], budget);
        if cut {
            assert(is_cut(items@[i as int], budget as nat));
            any_truncated = true;
        }
    }
    assert(items@.take(items@.len() as int) =~= items@);
    if any_truncated && !full {
        out.help(&text::list1("Run `papr read <id> --full` to see the complete text"));
    }
    Ok(out.into_string())
}

// ───────────────────────────── search, tags ─────────────────────────────

/// A match of a search.
#[derive(Debug, PartialEq, Eq)]
pub struct Hit {
    pub id: i64,
    pub title: String,
    pub feed: String,
}

/// The rows of matches.
pub open spec fn hit_rows(hits: Seq<Hit>) -> Seq<Seq<Seq<char>>> {
    hits.map_values(
        |h: Hit|
            seq![text::numeral(h.id as int), scalar_of(h.feed@), scalar_of(capped(h.title@, 80))],
    )
}

/// The matches of a search.
pub open spec fn search_text(query: Seq<char>, hits: Seq<Hit>) -> Seq<char> {
    if hits.len() == 0 {
        help_to(
            one_line("search: 0 matches for "@ + scalar_of(query)),
            seq!["Run `papr refresh` to fetch new articles, then search again"@],
        )
    } else {
        let d = one_line("count: "@ + text::decimal(hits.len()) + " matches"@);
        let d = table_to(d, 0, "matches"@, seq!["id"@, "feed"@, "title"@], hit_rows(hits));
        help_to(d, seq!["Run `papr read <id>` to read a match in full"@])
    }
}

/// The matches of a search.
pub fn cmd_search(query: &str, hits: &Vec<Hit>) -> (r: Result<String, AxiError>)
    ensures
        outcome(r) == Ok::<Seq<char>, AxiErrorView>(search_text(query@, hits@)),
{
    let mut out = Out::new();
    if hits.len() == 0 {
        let line = text::cat("search: 0 matches for ", scalar(query).as_str());
        out.line(0, line.as_str());
        out.help(&text::list1("Run `papr refresh` to fetch new articles, then search again"));
        return Ok(out.into_string());
    }
    let line = text::cat3("count: ", text::count(hits.len()).as_str(), " matches");
    out.line(0, line.as_str());
    let mut rows: Vec<Vec<String>> = Vec::new();
    let ghost all = hit_rows(hits@);
    assert(cells(rows@) =~= all.take(0));
    for i in 0..hits.len()
        invariant
            all == hit_rows(hits@),
            cells(rows@) == all.take(i as int),
    {
        let row = text::list3(
            text::integer(hits[i].id).as_str(),
            scalar(hits[i].feed.as_str()).as_str(),
            scalar(cap(hits[i].title.as_str(), 80).as_str()).as_str(),
        );
        push_row(&mut rows, row);
        assert(all.take(i + 1) =~= all.take(i as int).push(all[i as int]));
    }
    assert(all.take(all.len() as int) =~= all);
    out.table(0, "matches", &text::list3("id", "feed", "title"), &rows);
    out.help(&text::list1("Run `papr read <id>` to read a match in full"));
    Ok(out.into_string())
}

/// The rows of tags.
pub open spec fn tag_rows(tags: Seq<Tag>) -> Seq<Seq<Seq<char>>> {
    tags.map_values(
        |t: Tag|
            seq![
                text::numeral(t.id as int),
                scalar_of(t.name@),
                text::numeral(t.article_count as int),
            ],
    )
}

/// The view of all tags.
pub open spec fn tags_text(tags: Seq<Tag>) -> Seq<char> {
    if tags.len() == 0 {
        one_line("tags: 0 defined"@)
    } else {
        let d = one_line("count: "@ + text::decimal(tags.len()) + " tags"@);
        let d = table_to(d, 0, "tags"@, seq!["id"@, "name"@, "articles"@], tag_rows(tags));
        help_to(d, seq!["Run `papr list --tag <id>` to list a tag's articles"@])
    }
}

/// The view of all tags.
pub fn cmd_tags(tags: &Vec<Tag>) -> (r: Result<String, AxiError>)
    ensures
        outcome(r) == Ok::<Seq<char>, AxiErrorView>(tags_text(tags@)),
{
    let mut out = Out::new();
    if tags.len() == 0 {
        out.line(0, "tags: 0 defined");
        return Ok(out.into_string());
    }
    let line = text::cat3("count: ", text::count(tags.len()).as_str(), " tags");
    out.line(0, line.as_str());
    let mut rows: Vec<Vec<String>> = Vec::new();
    let ghost all = tag_rows(tags@);
    assert(cells(rows@) =~= all.take(0));
    for i in 0..tags.len()
        invariant
            all == tag_rows(tags@),
            cells(rows@) == all.take(i as int),
    {
        let row = text::list3(
            text::integer(tags[i].id).as_str(),
            scalar(tags[i].name.as_str()).as_str(),
            text::integer(tags[i].article_count).as_str(),
        );
        push_row(&mut rows, row);
        assert(all.take(i + 1) =~= all.take(i as int).push(all[i as int]));
    }
    assert(all.take(all.len() as int) =~= all);
    out.table(0, "tags", &text::list3("id", "name", "articles"), &rows);
    out.help(&text::list1("Run `papr list --tag <id>` to list a tag's articles"));
    Ok(out.into_string())
}

// ───────────────────────────── laws ─────────────────────────────

/// The feeds in a folder are those that name it, in order.
pub proof fn lemma_feeds_in(feeds: Seq<Feed>, folder: i64)
    ensures
        feeds_in(feeds, folder) == feeds.filter(|f: Feed| f.folder_id == Some(folder)),
    decreases feeds.len(),
{
    reveal(Seq::filter);
    if feeds.len() > 0 {
        lemma_feeds_in(feeds.drop_last(), folder);
    }
}

proof fn lemma_loose_feeds(feeds: Seq<Feed>, folders: Seq<Folder>)
    ensures
        loose_feeds(feeds, folders) == feeds.filter(
            |f: Feed|
                !exists|k: int| 0 <= k < folders.len() && f.folder_id == Some((#[trigger] folders[k]).id),
        ),
    decreases feeds.len(),
{
    reveal(Seq::filter);
    if feeds.len() > 0 {
        lemma_loose_feeds(feeds.drop_last(), folders);
    }
}

/// The view of feeds has a section for each folder that has feeds, in order,
/// with the folder's name and a table of all feeds in it; those in no folder
/// come last, below a name of their own where there is any other section.
pub proof fn law_feeds_are_listed_by_folder(feeds: Seq<Feed>, folders: Seq<Folder>)
    requires
        feeds.len() > 0,
    ensures
        ({
            let sections = Seq::new(
                folders.len(),
                |k: int|
                    {
                        let group = feeds.filter(|f: Feed| f.folder_id == Some(folders[k].id));
                        if group.len() == 0 {
                            Seq::<char>::empty()
                        } else {
                            scalar_of(folders[k].name@) + ":\n"@ + feed_table_to(
                                Seq::empty(),
                                1,
                                group,
                            )
                        }
                    },
            );
            let loose = feeds.filter(
                |f: Feed|
                    !exists|k: int|
                        0 <= k < folders.len() && f.folder_id == Some((#[trigger] folders[k]).id),
            );
            let last = if loose.len() == 0 {
                Seq::<char>::empty()
            } else if loose.len() < feeds.len() {
                "(no folder):\n"@ + feed_table_to(Seq::empty(), 1, loose)
            } else {
                feed_table_to(Seq::empty(), 0, loose)
            };
            feeds_text(feeds, folders) == help_to(
                "count: "@ + text::decimal(feeds.len()) + " feeds · "@ + text::numeral(
                    unread_sum(feeds),
                ) + " unread\n"@ + text::concatenated(sections) + last,
                seq![
                    "Run `papr list --feed <id>` to list a feed's articles"@,
                    "Run `papr refresh --feed <id>` to fetch one feed"@,
                    "Run `papr subscribe <url>` to add a feed"@,
                ],
            )
        }),
{
    let loose = feeds.filter(
        |f: Feed|
            !exists|k: int|
                0 <= k < folders.len() && f.folder_id == Some((#[trigger] folders[k]).id),
    );
    lemma_loose_feeds(feeds, folders);
    assert(loose_feeds(feeds, folders) == loose);
    let line = "count: "@ + text::decimal(feeds.len()) + " feeds · "@ + text::numeral(
        unread_sum(feeds),
    ) + " unread"@;
    let top = one_line(line);
    crate::toon::law_documents_grow_by_lines(Seq::empty(), 0, line, line, line);
    reveal_strlit(" unread");
    reveal_strlit("\n");
    reveal_strlit(" unread\n");
    assert(" unread\n"@ =~= " unread"@ + "\n"@);
    assert(top =~= "count: "@ + text::decimal(feeds.len()) + " feeds · "@ + text::numeral(
        unread_sum(feeds),
    ) + " unread\n"@);
    lemma_sections(top, feeds, folders);
    lemma_some_section(feeds, folders);
    let d = folder_sections_to(top, feeds, folders);
    if loose.len() > 0 {
        lemma_feed_table(d, 0, loose);
        crate::toon::law_documents_grow_by_lines(d, 0, "(no folder)"@, "(no folder)"@, "(no folder)"@);
        reveal_strlit("(no folder)");
        reveal_strlit("(no folder):\n");
        reveal_strlit(":\n");
        assert("(no folder):\n"@ =~= "(no folder)"@ + ":\n"@);
        lemma_feed_table(header_to(d, 0, "(no folder)"@), 1, loose);
        assert(feed_table_to(header_to(d, 0, "(no folder)"@), 1, loose) =~= d + ("(no folder):\n"@
            + feed_table_to(Seq::empty(), 1, loose)));
    } else {
        assert(d + Seq::<char>::empty() =~= d);
    }
}

proof fn lemma_feed_table(doc: Seq<char>, depth: nat, feeds: Seq<Feed>)
    ensures
        feed_table_to(doc, depth, feeds) == doc + feed_table_to(Seq::empty(), depth, feeds),
{
    crate::cli::law_feed_tables_hold_every_feed(doc, depth, feeds);
    crate::cli::law_feed_tables_hold_every_feed(Seq::empty(), depth, feeds);
    assert(feed_table_to(doc, depth, feeds) =~= doc + feed_table_to(Seq::empty(), depth, feeds));
}

proof fn lemma_sections(doc: Seq<char>, feeds: Seq<Feed>, folders: Seq<Folder>)
    ensures
        folder_sections_to(doc, feeds, folders) == doc + text::concatenated(
            Seq::new(
                folders.len(),
                |k: int|
                    {
                        let group = feeds.filter(|f: Feed| f.folder_id == Some(folders[k].id));
                        if group.len() == 0 {
                            Seq::<char>::empty()
                        } else {
                            scalar_of(folders[k].name@) + ":\n"@ + feed_table_to(
                                Seq::empty(),
                                1,
                                group,
                            )
                        }
                    },
            ),
        ),
    decreases folders.len(),
{
    let sections = Seq::new(
        folders.len(),
        |k: int|
            {
                let group = feeds.filter(|f: Feed| f.folder_id == Some(folders[k].id));
                if group.len() == 0 {
                    Seq::<char>::empty()
                } else {
                    scalar_of(folders[k].name@) + ":\n"@ + feed_table_to(Seq::empty(), 1, group)
                }
            },
    );
    if folders.len() == 0 {
        assert(doc + text::concatenated(sections) =~= doc);
    } else {
        let rest = folders.drop_last();
        lemma_sections(doc, feeds, rest);
        let before = Seq::new(
            rest.len(),
            |k: int|
                {
                    let group = feeds.filter(|f: Feed| f.folder_id == Some(rest[k].id));
                    if group.len() == 0 {
                        Seq::<char>::empty()
                    } else {
                        scalar_of(rest[k].name@) + ":\n"@ + feed_table_to(Seq::empty(), 1, group)
                    }
                },
        );
        assert forall|k: int| 0 <= k < before.len() implies before[k] == sections[k] by {
            assert(rest[k] == folders[k]);
        }
        assert(sections.drop_last() =~= before);
        let last = folders.last();
        let d = folder_sections_to(doc, feeds, rest);
        lemma_feeds_in(feeds, last.id);
        let group = feeds_in(feeds, last.id);
        let name = scalar_of(last.name@);
        crate::toon::law_documents_grow_by_lines(d, 0, name, name, name);
        lemma_feed_table(header_to(d, 0, name), 1, group);
        assert(group == feeds.filter(|f: Feed| f.folder_id == Some(folders[folders.len() - 1].id)));
        assert(folder_sections_to(doc, feeds, folders) =~= doc + (text::concatenated(before)
            + sections.last()));
    }
}

proof fn lemma_some_section(feeds: Seq<Feed>, folders: Seq<Folder>)
    ensures
        loose_feeds(feeds, folders).len() <= feeds.len(),
        any_section(feeds, folders) <==> loose_feeds(feeds, folders).len() < feeds.len(),
    decreases feeds.len(),
{
    if feeds.len() == 0 {
        assert forall|i: int| 0 <= i < folders.len() implies feeds_in(
            feeds,
            (#[trigger] folders[i]).id,
        ).len() == 0 by {}
    } else {
        let rest = feeds.drop_last();
        lemma_some_section(rest, folders);
        if is_folder(folders, feeds.last().folder_id) {
            let k = choose|k: int|
                0 <= k < folders.len() && feeds.last().folder_id == Some((#[trigger] folders[k]).id);
            assert(feeds_in(feeds, folders[k].id).len() > 0);
        } else {
            assert forall|i: int| 0 <= i < folders.len() implies feeds_in(
                feeds,
                (#[trigger] folders[i]).id,
            ) == feeds_in(rest, folders[i].id) by {}
            if any_section(rest, folders) {
                let k = choose|k: int|
                    0 <= k < folders.len() && feeds_in(rest, (#[trigger] folders[k]).id).len() > 0;
                assert(feeds_in(feeds, folders[k].id).len() > 0);
            }
        }
    }
}

/// Every feed is listed exactly once: where no two folders have the same id,
/// the sections together have as many rows as there are feeds, each section has
/// feeds of its own folder only, and each feed is in one of them.
pub proof fn law_every_feed_is_listed_once(feeds: Seq<Feed>, folders: Seq<Folder>, i: int)
    requires
        forall|j: int, k: int|
            0 <= j < k < folders.len() ==> (#[trigger] folders[j]).id != (#[trigger] folders[k]).id,
        0 <= i < feeds.len(),
    ensures
        loose_feeds(feeds, folders).len() + Seq::new(
            folders.len(),
            |k: int| feeds_in(feeds, folders[k].id).len() as int,
        ).fold_left(0int, |sum: int, n: int| sum + n) == feeds.len(),
        (exists|k: int|
            0 <= k < folders.len() && feeds[i].folder_id == Some((#[trigger] folders[k]).id)
                && feeds_in(feeds, folders[k].id).contains(feeds[i])) || (loose_feeds(
            feeds,
            folders,
        ).contains(feeds[i]) && forall|k: int|
            0 <= k < folders.len() ==> feeds[i].folder_id != Some((#[trigger] folders[k]).id)),
{
    lemma_sizes(feeds, folders);
    lemma_feeds_in_all(feeds, i);
    lemma_loose(feeds, folders, i);
}

proof fn lemma_feeds_in_all(feeds: Seq<Feed>, i: int)
    requires
        0 <= i < feeds.len(),
    ensures
        feeds[i].folder_id matches Some(id) ==> feeds_in(feeds, id).contains(feeds[i]),
    decreases feeds.len(),
{
    let rest = feeds.drop_last();
    if feeds[i].folder_id is Some {
        let id = feeds[i].folder_id->0;
        let before = feeds_in(rest, id);
        if i < rest.len() {
            lemma_feeds_in_all(rest, i);
            let k = choose|k: int| 0 <= k < before.len() && before[k] == rest[i];
            assert(feeds_in(feeds, id)[k] == feeds[i]);
        } else {
            assert(feeds_in(feeds, id).last() == feeds[i]);
        }
    }
}

proof fn lemma_loose(feeds: Seq<Feed>, folders: Seq<Folder>, i: int)
    requires
        0 <= i < feeds.len(),
    ensures
        !is_folder(folders, feeds[i].folder_id) ==> loose_feeds(feeds, folders).contains(feeds[i]),
    decreases feeds.len(),
{
    let rest = feeds.drop_last();
    if !is_folder(folders, feeds[i].folder_id) {
        let before = loose_feeds(rest, folders);
        if i < rest.len() {
            lemma_loose(rest, folders, i);
            let k = choose|k: int| 0 <= k < before.len() && before[k] == rest[i];
            assert(loose_feeds(feeds, folders)[k] == feeds[i]);
        } else {
            assert(loose_feeds(feeds, folders).last() == feeds[i]);
        }
    }
}

spec fn sizes(feeds: Seq<Feed>, folders: Seq<Folder>) -> Seq<int> {
    Seq::new(folders.len(), |k: int| feeds_in(feeds, folders[k].id).len() as int)
}

spec fn sum_of(s: Seq<int>) -> int {
    s.fold_left(0int, |sum: int, n: int| sum + n)
}

proof fn lemma_sizes(feeds: Seq<Feed>, folders: Seq<Folder>)
    requires
        forall|j: int, k: int|
            0 <= j < k < folders.len() ==> (#[trigger] folders[j]).id != (#[trigger] folders[k]).id,
    ensures
        loose_feeds(feeds, folders).len() + sum_of(sizes(feeds, folders)) == feeds.len(),
    decreases feeds.len(),
{
    if feeds.len() == 0 {
        lemma_sum_zero(sizes(feeds, folders));
    } else {
        let rest = feeds.drop_last();
        let id = feeds.last().folder_id;
        lemma_sizes(rest, folders);
        let a = sizes(rest, folders);
        let b = sizes(feeds, folders);
        if is_folder(folders, id) {
            let k = choose|k: int|
                0 <= k < folders.len() && id == Some((#[trigger] folders[k]).id);
            assert forall|j: int| 0 <= j < a.len() && j != k implies a[j] == b[j] by {
                assert(folders[j].id != folders[k].id);
            }
            assert(b[k] == a[k] + 1);
            assert(b =~= a.update(k, a[k] + 1));
            lemma_sum_update(a, k);
        } else {
            assert forall|j: int| 0 <= j < a.len() implies a[j] == b[j] by {
                assert(id != Some(folders[j].id));
            }
            assert(a =~= b);
        }
    }
}

proof fn lemma_sum_zero(s: Seq<int>)
    requires
        forall|i: int| 0 <= i < s.len() ==> s[i] == 0,
    ensures
        sum_of(s) == 0,
    decreases s.len(),
{
    reveal(Seq::fold_left);
    if s.len() > 0 {
        lemma_sum_zero(s.drop_last());
    }
}

proof fn lemma_sum_update(s: Seq<int>, k: int)
    requires
        0 <= k < s.len(),
    ensures
        sum_of(s.update(k, s[k] + 1)) == sum_of(s) + 1,
    decreases s.len(),
{
    reveal(Seq::fold_left);
    let t = s.update(k, s[k] + 1);
    if k < s.len() - 1 {
        lemma_sum_update(s.drop_last(), k);
        assert(t.drop_last() =~= s.drop_last().update(k, s[k] + 1));
    } else {
        assert(t.drop_last() =~= s.drop_last());
    }
}

/// The unread articles of all feeds are added up, each feed once.
pub proof fn law_unread_articles_add_up(feeds: Seq<Feed>, f: Feed)
    ensures
        unread_sum(Seq::empty()) == 0,
        unread_sum(feeds.push(f)) == unread_sum(feeds) + f.unread_count,
{
    assert(feeds.push(f).drop_last() =~= feeds);
}

/// A listing says how many articles it shows of how many and which, holds a row
/// for each of them, and points to the next page exactly where more are left,
/// with the same filters.
pub proof fn law_listings_hold_every_article(
    args: ListArgs,
    rows: Seq<ArticleSummary>,
    total: int,
)
    ensures
        ({
            let label = label_of(listing_of(args).0, listing_of(args).1);
            let hints = seq![
                "Run `papr read <id>` to read an article's full text"@,
                "Run `papr mark read <id>` to mark an article read"@,
            ];
            &&& rows.len() == 0 ==> list_text(args, rows, total) == "articles: 0 "@ + label
                + " found"@ + "\n"@ + help_to(
                Seq::empty(),
                seq!["Run `papr refresh` to fetch new articles"@],
            )
            &&& rows.len() > 0 ==> list_text(args, rows, total) == "count: "@ + text::decimal(
                rows.len(),
            ) + " of "@ + text::numeral(total) + " "@ + label + "\n"@ + table_to(
                Seq::empty(),
                0,
                "articles"@,
                seq!["id"@, "feed"@, "title"@, "flags"@, "date"@],
                article_rows(rows),
            ) + help_to(
                Seq::empty(),
                if args.offset + rows.len() < total {
                    hints.push(
                        "Run `papr list --offset "@ + text::numeral(args.offset + args.limit) + " "@
                            + flags_of(args) + "` for the next page"@,
                    )
                } else {
                    hints
                },
            )
        }),
{
    let label = label_of(listing_of(args).0, listing_of(args).1);
    let none = Seq::<char>::empty();
    if rows.len() == 0 {
        let line = "articles: 0 "@ + label + " found"@;
        crate::cli::law_store_failures_keep_their_words(line);
        crate::toon::law_documents_only_grow(
            one_line(line),
            0,
            none,
            none,
            seq!["Run `papr refresh` to fetch new articles"@],
            Seq::empty(),
        );
    } else {
        let hints = seq![
            "Run `papr read <id>` to read an article's full text"@,
            "Run `papr mark read <id>` to mark an article read"@,
        ];
        let said = if args.offset + rows.len() < total {
            hints.push(
                "Run `papr list --offset "@ + text::numeral(args.offset + args.limit) + " "@
                    + flags_of(args) + "` for the next page"@,
            )
        } else {
            hints
        };
        let line = "count: "@ + text::decimal(rows.len()) + " of "@ + text::numeral(total) + " "@
            + label;
        crate::cli::law_store_failures_keep_their_words(line);
        let fields = seq!["id"@, "feed"@, "title"@, "flags"@, "date"@];
        let d = table_to(one_line(line), 0, "articles"@, fields, article_rows(rows));
        crate::toon::law_documents_only_grow(
            one_line(line),
            0,
            "articles"@,
            none,
            fields,
            article_rows(rows),
        );
        crate::toon::law_documents_only_grow(d, 0, none, none, said, Seq::empty());
        assert(list_text(args, rows, total) =~= one_line(line) + table_to(
            none,
            0,
            "articles"@,
            fields,
            article_rows(rows),
        ) + help_to(none, said));
    }
}

/// A search says how many matches there are and holds a row for each, in order:
/// its id, its feed and its title.
pub proof fn law_searches_hold_every_match(query: Seq<char>, hits: Seq<Hit>)
    ensures
        hits.len() == 0 ==> search_text(query, hits) == "search: 0 matches for "@ + scalar_of(query)
            + "\n"@ + help_to(
            Seq::empty(),
            seq!["Run `papr refresh` to fetch new articles, then search again"@],
        ),
        hits.len() > 0 ==> search_text(query, hits) == "count: "@ + text::decimal(hits.len())
            + " matches"@ + "\n"@ + table_to(
            Seq::empty(),
            0,
            "matches"@,
            seq!["id"@, "feed"@, "title"@],
            Seq::new(
                hits.len(),
                |i: int|
                    seq![
                        text::numeral(hits[i].id as int),
                        scalar_of(hits[i].feed@),
                        scalar_of(capped(hits[i].title@, 80)),
                    ],
            ),
        ) + help_to(Seq::empty(), seq!["Run `papr read <id>` to read a match in full"@]),
{
    let none = Seq::<char>::empty();
    if hits.len() == 0 {
        let line = "search: 0 matches for "@ + scalar_of(query);
        crate::cli::law_store_failures_keep_their_words(line);
        crate::toon::law_documents_only_grow(
            one_line(line),
            0,
            none,
            none,
            seq!["Run `papr refresh` to fetch new articles, then search again"@],
            Seq::empty(),
        );
    } else {
        let line = "count: "@ + text::decimal(hits.len()) + " matches"@;
        let fields = seq!["id"@, "feed"@, "title"@];
        let hint = seq!["Run `papr read <id>` to read a match in full"@];
        crate::cli::law_store_failures_keep_their_words(line);
        let rows = hit_rows(hits);
        let d = table_to(one_line(line), 0, "matches"@, fields, rows);
        crate::toon::law_documents_only_grow(one_line(line), 0, "matches"@, none, fields, rows);
        crate::toon::law_documents_only_grow(d, 0, none, none, hint, Seq::empty());
        assert(rows =~= Seq::new(
            hits.len(),
            |i: int|
                seq![
                    text::numeral(hits[i].id as int),
                    scalar_of(hits[i].feed@),
                    scalar_of(capped(hits[i].title@, 80)),
                ],
        ));
    }
}

/// The view of tags says how many there are and holds a row for each, in order:
/// its id, its name and how many articles have it.
pub proof fn law_tags_are_all_listed(tags: Seq<Tag>)
    ensures
        tags.len() == 0 ==> tags_text(tags) == "tags: 0 defined"@ + "\n"@,
        tags.len() > 0 ==> tags_text(tags) == "count: "@ + text::decimal(tags.len()) + " tags"@
            + "\n"@ + table_to(
            Seq::empty(),
            0,
            "tags"@,
            seq!["id"@, "name"@, "articles"@],
            Seq::new(
                tags.len(),
                |i: int|
                    seq![
                        text::numeral(tags[i].id as int),
                        scalar_of(tags[i].name@),
                        text::numeral(tags[i].article_count as int),
                    ],
            ),
        ) + help_to(Seq::empty(), seq!["Run `papr list --tag <id>` to list a tag's articles"@]),
{
    let none = Seq::<char>::empty();
    crate::cli::law_store_failures_keep_their_words("tags: 0 defined"@);
    if tags.len() > 0 {
        let line = "count: "@ + text::decimal(tags.len()) + " tags"@;
        let fields = seq!["id"@, "name"@, "articles"@];
        let hint = seq!["Run `papr list --tag <id>` to list a tag's articles"@];
        crate::cli::law_store_failures_keep_their_words(line);
        let rows = tag_rows(tags);
        let d = table_to(one_line(line), 0, "tags"@, fields, rows);
        crate::toon::law_documents_only_grow(one_line(line), 0, "tags"@, none, fields, rows);
        crate::toon::law_documents_only_grow(d, 0, none, none, hint, Seq::empty());
        assert(rows =~= Seq::new(
            tags.len(),
            |i: int|
                seq![
                    text::numeral(tags[i].id as int),
                    scalar_of(tags[i].name@),
                    text::numeral(tags[i].article_count as int),
                ],
        ));
    }
}

/// Every article that was asked for is shown, in order: one more adds its part
/// to the document and leaves the others as they are.
pub proof fn law_every_article_is_read(
    doc: Seq<char>,
    items: Seq<ReadItem>,
    item: ReadItem,
    budget: nat,
)
    ensures
        read_items_to(doc, Seq::empty(), budget) == doc,
        read_items_to(doc, items.push(item), budget) == read_items_to(doc, items, budget)
            + read_item_to(Seq::empty(), item, budget),
{
    assert(items.push(item).drop_last() =~= items);
    lemma_read_item(read_items_to(doc, items, budget), item, budget);
}

proof fn lemma_read_item(doc: Seq<char>, item: ReadItem, budget: nat)
    ensures
        read_item_to(doc, item, budget) == doc + read_item_to(Seq::empty(), item, budget),
{
    let none = Seq::<char>::empty();
    crate::toon::law_documents_only_grow(doc, 0, "article"@, none, Seq::empty(), Seq::empty());
    let y0 = header_to(none, 0, "article"@);
    assert(header_to(doc, 0, "article"@) == doc + y0);
    match item {
        ReadItem::Missing(id) => {
            let y1 = lemma_shift(doc, y0, "id"@, text::numeral(id as int));
            let y2 = lemma_shift(doc, y1, "error"@, "not found"@);
        },
        ReadItem::Found(a, body) => {
            let y1 = lemma_shift(doc, y0, "id"@, text::numeral(a.id as int));
            let y2 = lemma_shift(doc, y1, "feed"@, a.feed_title@);
            let y3 = lemma_shift(doc, y2, "title"@, a.title@);
            let y4 = lemma_shift(doc, y3, "author"@, opt_of(text::view_of(a.author)));
            let y5 = lemma_shift(doc, y4, "url"@, opt_of(text::view_of(a.url)));
            let y6 = lemma_shift(doc, y5, "published"@, opt_of(text::view_of(a.published_at)));
            let y7 = lemma_shift(
                doc,
                y6,
                "state"@,
                flag_cell(a.is_read, a.is_starred, a.read_later),
            );
            let y8 = lemma_shift(doc, y7, "tags"@, text::joined(text::views(a.tags@), ", "@));
            let y = if a.tags@.len() == 0 {
                y7
            } else {
                y8
            };
            let shown = body_of(body@, budget);
            crate::toon::law_documents_only_grow(
                doc + y,
                1,
                "text"@,
                shown,
                Seq::empty(),
                Seq::empty(),
            );
            crate::toon::law_documents_only_grow(y, 1, "text"@, shown, Seq::empty(), Seq::empty());
            assert(block_to(doc + y, 1, "text"@, shown) =~= doc + block_to(y, 1, "text"@, shown));
        },
    }
}

proof fn lemma_shift(doc: Seq<char>, part: Seq<char>, key: Seq<char>, value: Seq<char>) -> (r: Seq<
    char,
>)
    ensures
        r == kv_to(part, 1, key, value),
        kv_to(doc + part, 1, key, value) == doc + r,
{
    crate::toon::law_documents_only_grow(doc + part, 1, key, value, Seq::empty(), Seq::empty());
    crate::toon::law_documents_only_grow(part, 1, key, value, Seq::empty(), Seq::empty());
    assert(kv_to(doc + part, 1, key, value) =~= doc + kv_to(part, 1, key, value));
    kv_to(part, 1, key, value)
}

/// An article is shown with its id, feed, title, author, URL, date, state and
/// tags, and with its text; one that is not there with its id and that it was
/// not found.
pub proof fn law_articles_are_shown(doc: Seq<char>, item: ReadItem, budget: nat)
    ensures
        item matches ReadItem::Missing(id) ==> read_item_to(doc, item, budget) == doc
            + "article:\n"@ + ("  "@ + "id"@ + ": "@ + scalar_of(text::numeral(id as int)) + "\n"@)
            + ("  "@ + "error"@ + ": "@ + scalar_of("not found"@) + "\n"@),
        item matches ReadItem::Found(a, body) ==> read_item_to(doc, item, budget) == doc
            + "article:\n"@ + ("  "@ + "id"@ + ": "@ + scalar_of(text::numeral(a.id as int))
            + "\n"@) + ("  "@ + "feed"@ + ": "@ + scalar_of(a.feed_title@) + "\n"@) + ("  "@
            + "title"@ + ": "@ + scalar_of(a.title@) + "\n"@) + ("  "@ + "author"@ + ": "@
            + scalar_of(opt_of(text::view_of(a.author))) + "\n"@) + ("  "@ + "url"@ + ": "@
            + scalar_of(opt_of(text::view_of(a.url))) + "\n"@) + ("  "@ + "published"@ + ": "@
            + scalar_of(opt_of(text::view_of(a.published_at))) + "\n"@) + ("  "@ + "state"@ + ": "@
            + scalar_of(flag_cell(a.is_read, a.is_starred, a.read_later)) + "\n"@) + (
        if a.tags@.len() == 0 {
            Seq::empty()
        } else {
            "  "@ + "tags"@ + ": "@ + scalar_of(text::joined(text::views(a.tags@), ", "@)) + "\n"@
        }) + block_to(Seq::empty(), 1, "text"@, body_of(body@, budget)),
{
    let none = Seq::<char>::empty();
    reveal_strlit("article");
    reveal_strlit(":\n");
    reveal_strlit("article:\n");
    assert("article:\n"@ =~= "article"@ + ":\n"@);
    crate::toon::law_documents_grow_by_lines(doc, 0, none, "article"@, none);
    let d0 = header_to(doc, 0, "article"@);
    assert(d0 =~= doc + "article:\n"@);
    match item {
        ReadItem::Missing(id) => {
            crate::toon::law_nested_values(d0, "id"@, text::numeral(id as int));
            let d1 = kv_to(d0, 1, "id"@, text::numeral(id as int));
            crate::toon::law_nested_values(d1, "error"@, "not found"@);
        },
        ReadItem::Found(a, body) => {
            crate::toon::law_nested_values(d0, "id"@, text::numeral(a.id as int));
            let d1 = kv_to(d0, 1, "id"@, text::numeral(a.id as int));
            crate::toon::law_nested_values(d1, "feed"@, a.feed_title@);
            let d2 = kv_to(d1, 1, "feed"@, a.feed_title@);
            crate::toon::law_nested_values(d2, "title"@, a.title@);
            let d3 = kv_to(d2, 1, "title"@, a.title@);
            let author = opt_of(text::view_of(a.author));
            crate::toon::law_nested_values(d3, "author"@, author);
            let d4 = kv_to(d3, 1, "author"@, author);
            let url = opt_of(text::view_of(a.url));
            crate::toon::law_nested_values(d4, "url"@, url);
            let d5 = kv_to(d4, 1, "url"@, url);
            let date = opt_of(text::view_of(a.published_at));
            crate::toon::law_nested_values(d5, "published"@, date);
            let d6 = kv_to(d5, 1, "published"@, date);
            let state = flag_cell(a.is_read, a.is_starred, a.read_later);
            crate::toon::law_nested_values(d6, "state"@, state);
            let d7 = kv_to(d6, 1, "state"@, state);
            let tags = text::joined(text::views(a.tags@), ", "@);
            crate::toon::law_nested_values(d7, "tags"@, tags);
            let d8 = if a.tags@.len() == 0 {
                d7
            } else {
                kv_to(d7, 1, "tags"@, tags)
            };
            assert(d7 + none =~= d7);
            crate::toon::law_documents_only_grow(
                d8,
                1,
                "text"@,
                body_of(body@, budget),
                Seq::empty(),
                Seq::empty(),
            );
        },
    }
}

/// A text that fits is shown whole; one that does not is cut behind the budget,
/// and how long it is is said.
pub proof fn law_texts_are_cut_at_the_budget(body: Seq<char>, budget: nat)
    ensures
        body.len() <= budget ==> body_of(body, budget) == body,
        body.len() > budget ==> body_of(body, budget) == body.take(budget as int)
            + "\n... (truncated, "@ + text::decimal(body.len()) + " chars total)"@,
{
    crate::cli::law_truncation_is_a_prefix(body, budget);
    assert(body.take(body.len() as int) =~= body);
}

/// One article is shown up to 1500 characters, each of several up to 600, and
/// all of each where that was asked for.
pub proof fn law_budgets(count: nat)
    ensures
        budget_of(1, false) == 1500,
        count > 1 ==> budget_of(count, false) == 600,
        budget_of(count, true) == usize::MAX,
{
}

/// What was asked for is shown behind a count where it is more than one
/// article, and how to see the rest is said exactly where something was cut.
pub proof fn law_readings_are_complete(items: Seq<ReadItem>, full: bool)
    ensures
        ({
            let budget = budget_of(items.len(), full);
            let d = read_items_to(
                if items.len() > 1 {
                    "count: "@ + text::decimal(items.len()) + " articles"@ + "\n"@
                } else {
                    Seq::empty()
                },
                items,
                budget,
            );
            let cut = exists|i: int|
                0 <= i < items.len() && (#[trigger] items[i] matches ReadItem::Found(a, body)
                    && body@.len() > budget);
            &&& items.len() == 0 ==> read_text(items, full) == "articles: 0 matched that filter"@
                + "\n"@ + help_to(Seq::empty(), seq!["Run `papr list` to find article ids"@])
            &&& items.len() > 0 && (full || !cut) ==> read_text(items, full) == d
            &&& items.len() > 0 && !full && cut ==> read_text(items, full) == d + help_to(
                Seq::empty(),
                seq!["Run `papr read <id> --full` to see the complete text"@],
            )
        }),
{
    let none = Seq::<char>::empty();
    let budget = budget_of(items.len(), full);
    let line = if items.len() == 0 {
        "articles: 0 matched that filter"@
    } else {
        "count: "@ + text::decimal(items.len()) + " articles"@
    };
    crate::cli::law_store_failures_keep_their_words(line);
    crate::toon::law_documents_only_grow(
        one_line(line),
        0,
        none,
        none,
        seq!["Run `papr list` to find article ids"@],
        Seq::empty(),
    );
    let d = read_items_to(
        if items.len() > 1 {
            one_line(line)
        } else {
            none
        },
        items,
        budget,
    );
    crate::toon::law_documents_only_grow(
        d,
        0,
        none,
        none,
        seq!["Run `papr read <id> --full` to see the complete text"@],
        Seq::empty(),
    );
    assert forall|i: int| 0 <= i < items.len() implies is_cut(#[trigger] items[i], budget) == (
    items[i] matches ReadItem::Found(a, body) && body@.len() > budget) by {
        match items[i] {
            ReadItem::Found(a, body) => crate::cli::law_truncation_is_a_prefix(body@, budget),
            ReadItem::Missing(_) => {},
        }
    }
    let cut = exists|i: int|
        0 <= i < items.len() && (#[trigger] items[i] matches ReadItem::Found(a, body) && body@.len()
            > budget);
    if cut {
        let i = choose|i: int|
            0 <= i < items.len() && (#[trigger] items[i] matches ReadItem::Found(a, body)
                && body@.len() > budget);
        assert(is_cut(items[i], budget));
    }
}

/// The home view says where the program and its database are and how much
/// there is, and then shows the latest unread articles, or the latest of all
/// exactly where nothing is unread.
pub proof fn law_home_shows_what_there_is(h: Home)
    ensures
        ({
            let home = text::view_of(h.home);
            let none = Seq::<char>::empty();
            home_text(h) == kv_to(none, 0, "bin"@, collapsed(h.bin@, home)) + kv_to(
                none,
                0,
                "description"@,
                "Read, search and triage your Papr RSS feeds from the shell."@,
            ) + kv_to(none, 0, "db"@, collapsed(h.db@, home)) + kv_to(
                none,
                0,
                "unread"@,
                text::numeral(h.unread as int),
            ) + kv_to(none, 0, "starred"@, text::numeral(h.starred as int)) + kv_to(
                none,
                0,
                "later"@,
                text::numeral(h.later as int),
            ) + kv_to(none, 0, "feeds"@, text::decimal(h.feeds as nat)) + (
            if h.latest_unread@.len() > 0 {
                table_to(
                    none,
                    0,
                    "articles"@,
                    seq!["id"@, "feed"@, "title"@, "flags"@, "date"@],
                    article_rows(h.latest_unread@),
                )
            } else {
                "inbox: 0 unread — all caught up"@ + "\n"@ + header_to(
                    none,
                    0,
                    "recent["@ + text::decimal(h.latest@.len()) + "]"@,
                ) + table_to(
                    none,
                    0,
                    "recent"@,
                    seq!["id"@, "feed"@, "title"@, "flags"@, "date"@],
                    article_rows(h.latest@),
                )
            }) + help_to(
                none,
                seq![
                    "Run `papr read <id>` to read an article's full text"@,
                    "Run `papr list --feed <id>` to list one feed's articles"@,
                    "Run `papr search \"<query>\"` to search every article"@,
                    "Run `papr refresh` to fetch new articles"@,
                ],
            )
        }),
{
    let home = text::view_of(h.home);
    let none = Seq::<char>::empty();
    let said = "Read, search and triage your Papr RSS feeds from the shell."@;
    let d1 = kv_to(none, 0, "bin"@, collapsed(h.bin@, home));
    let d2 = kv_to(d1, 0, "description"@, said);
    lemma_part(d1, "description"@, said);
    let d3 = kv_to(d2, 0, "db"@, collapsed(h.db@, home));
    lemma_part(d2, "db"@, collapsed(h.db@, home));
    let d4 = kv_to(d3, 0, "unread"@, text::numeral(h.unread as int));
    lemma_part(d3, "unread"@, text::numeral(h.unread as int));
    let d5 = kv_to(d4, 0, "starred"@, text::numeral(h.starred as int));
    lemma_part(d4, "starred"@, text::numeral(h.starred as int));
    let d6 = kv_to(d5, 0, "later"@, text::numeral(h.later as int));
    lemma_part(d5, "later"@, text::numeral(h.later as int));
    let d7 = kv_to(d6, 0, "feeds"@, text::decimal(h.feeds as nat));
    lemma_part(d6, "feeds"@, text::decimal(h.feeds as nat));
    let fields = seq!["id"@, "feed"@, "title"@, "flags"@, "date"@];
    let hints = seq![
        "Run `papr read <id>` to read an article's full text"@,
        "Run `papr list --feed <id>` to list one feed's articles"@,
        "Run `papr search \"<query>\"` to search every article"@,
        "Run `papr refresh` to fetch new articles"@,
    ];
    if h.latest_unread@.len() > 0 {
        let rows = article_rows(h.latest_unread@);
        crate::toon::law_documents_only_grow(d7, 0, "articles"@, none, fields, rows);
        let d8 = table_to(d7, 0, "articles"@, fields, rows);
        crate::toon::law_documents_only_grow(d8, 0, none, none, hints, Seq::empty());
    } else {
        let line = "inbox: 0 unread — all caught up"@;
        let d8 = line_to(d7, 0, line);
        crate::toon::law_documents_only_grow(d7, 0, none, line, fields, Seq::empty());
        crate::cli::law_store_failures_keep_their_words(line);
        let head = "recent["@ + text::decimal(h.latest@.len()) + "]"@;
        let d9 = header_to(d8, 0, head);
        crate::toon::law_documents_only_grow(d8, 0, head, none, fields, Seq::empty());
        let rows = article_rows(h.latest@);
        crate::toon::law_documents_only_grow(d9, 0, "recent"@, none, fields, rows);
        let d10 = table_to(d9, 0, "recent"@, fields, rows);
        crate::toon::law_documents_only_grow(d10, 0, none, none, hints, Seq::empty());
        assert(d10 =~= d7 + (line + "\n"@ + header_to(none, 0, head) + table_to(
            none,
            0,
            "recent"@,
            fields,
            rows,
        )));
    }
}

proof fn lemma_part(doc: Seq<char>, key: Seq<char>, value: Seq<char>)
    ensures
        kv_to(doc, 0, key, value) == doc + kv_to(Seq::empty(), 0, key, value),
{
    crate::toon::law_documents_only_grow(doc, 0, key, value, Seq::empty(), Seq::empty());
}

/// To read nothing is a wrong use, and it is said what to read by.
pub proof fn law_reading_nothing_is_refused()
    ensures
        nothing_to_read().message == "read needs an article id or a filter"@,
        nothing_to_read().usage,
        nothing_to_read().help == seq![
            "Run `papr read <id> [<id>...]` to read by id"@,
            "Run `papr read --feed <id> --limit 5` to read a feed's latest"@,
        ],
{
}

/// Without any feed the view says so, and how to add the first.
pub proof fn law_no_feeds_are_said(folders: Seq<Folder>)
    ensures
        feeds_text(Seq::empty(), folders) == "feeds: 0 subscriptions yet"@ + "\n"@ + help_to(
            Seq::empty(),
            seq!["Run `papr subscribe <url>` to add your first feed"@],
        ),
{
    let none = Seq::<char>::empty();
    let line = "feeds: 0 subscriptions yet"@;
    crate::cli::law_store_failures_keep_their_words(line);
    crate::toon::law_documents_only_grow(
        one_line(line),
        0,
        none,
        none,
        seq!["Run `papr subscribe <url>` to add your first feed"@],
        Seq::empty(),
    );
}

/// How much is shown unless told otherwise.
pub proof fn law_limits()
    ensures
        READ_TRUNCATE == 1500,
        BATCH_TRUNCATE == 600,
        LIST_LIMIT == 30,
        SEARCH_LIMIT == 20,
{
}

} // verus!
