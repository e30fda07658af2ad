use papr::cli::{
    app_data_dir, cap, choose_latest, collapse_home, count_articles, dates_are_clean, db_err,
    db_path, detail_flags, ensure_db, filter_query, home_err, human_bytes, ok_line, render_error,
    replay_filters, require_yes, resolve_query, scope_label, short_date, summary_flags, truncate,
    AxiError, FilterArgs, ListArgs, Platform,
};
use papr::commands::{
    cmd_feeds, cmd_home, cmd_list, cmd_read, cmd_search, cmd_tags, plan_read, Hit, Home, ReadArgs,
    ReadItem, ReadPlan, BATCH_TRUNCATE, LIST_LIMIT, READ_TRUNCATE, SEARCH_LIMIT,
};
use papr::error::AppError;
use papr::models::{ArticleDetail, ArticleQuery, ArticleSummary, Feed, Folder, Tag};
use papr::toon::{opt, scalar, Out};

fn s(text: &str) -> String {
    text.to_string()
}

// ── the notation ──

#[test]
fn scalars_are_quoted_where_they_are_ambiguous() {
    assert_eq!(scalar("plain words"), "plain words");
    assert_eq!(scalar("a: b \\ c"), "a: b \\ c");
    assert_eq!(scalar(""), "\"\"");
    assert_eq!(scalar(" x"), "\" x\"");
    assert_eq!(scalar("x\u{3000}"), "\"x\u{3000}\"");
    assert_eq!(scalar("a,b"), "\"a,b\"");
    assert_eq!(scalar("say \"hi\""), "\"say \\\"hi\\\"\"");
    assert_eq!(scalar("a\nb\rc\td\\"), "\"a\\nb\\rc\\td\\\\\"");
}

#[test]
fn absent_values_differ_from_empty_ones() {
    assert_eq!(opt(None), "-");
    assert_eq!(opt(Some("")), "\"\"");
    assert_eq!(opt(Some("a,b")), "\"a,b\"");
    assert_ne!(opt(None), opt(Some("")));
    assert_eq!(opt(Some("-")), "\"-\"");
    assert_ne!(opt(None), opt(Some("-")));
    assert_eq!(scalar("-"), "-");
}

#[test]
fn scalars_keep_to_one_line_and_can_be_told_apart() {
    let values = ["a", "a ", "\"a \"", "a\n", "a\\n", "\"a\\n\"", "a,", "", "-"];
    for (i, a) in values.iter().enumerate() {
        assert!(!scalar(a).contains('\n') && !scalar(a).contains('\r'));
        for (j, b) in values.iter().enumerate() {
            assert_eq!(scalar(a) == scalar(b), i == j, "{a:?} {b:?}");
        }
    }
}

#[test]
fn documents_are_built_line_by_line() {
    let mut out = Out::new();
    out.line(0, "a, b").kv(1, "key", "x,y").header(1, "h");
    out.table(
        1,
        "t",
        &vec![s("f1"), s("f2")],
        &vec![vec![s("a"), s("b")], vec![s("c"), s("d")]],
    );
    out.help(&vec![]);
    out.help(&vec![s("Run `x`"), s("Run `y`")]);
    out.block(0, "text", "one\n\ntwo");
    assert_eq!(
        out.into_string(),
        "a, b\n  key: \"x,y\"\n  h:\n  t[2]{f1,f2}:\n    a,b\n    c,d\n\
         help[2]:\n  Run `x`\n  Run `y`\ntext:\n  one\n  \n  two\n"
    );
    assert_eq!(Out::default().into_string(), "");
    assert_eq!(Out::new(), Out::default());
}

// ── errors ──

#[test]
fn errors_are_rendered_with_their_help() {
    let e = AxiError::usage("bad, really", vec![s("Run `papr`")]);
    assert_eq!(render_error(&e), "error: \"bad, really\"\nhelp[1]:\n  Run `papr`\n");
    assert_eq!(e.exit_code(), 2);
    let e = AxiError::runtime("gone");
    assert_eq!(render_error(&e), "error: gone\n");
    assert_eq!(e.exit_code(), 1);
    assert_eq!(AxiError::runtime_help("x", vec![]).exit_code(), 1);
    assert_eq!(db_err(&AppError::Store(s("locked"))), AxiError::runtime("locked"));
    assert_eq!(db_err(&AppError::code("noAiKey")), AxiError::runtime("noAiKey"));
    assert_eq!(db_err(&AppError::Opml(s("x"))), AxiError::runtime("x"));
    assert_eq!(db_err(&AppError::Network(s("y"))), AxiError::runtime("y"));
    assert_eq!(db_err(&AppError::other("z")), AxiError::runtime("z"));
}

#[test]
fn destructive_actions_ask_first() {
    assert_eq!(require_yes(true, "vacuum", "papr admin vacuum"), Ok(()));
    assert_eq!(
        require_yes(false, "vacuum", "papr admin vacuum"),
        Err(AxiError::usage(
            "vacuum is destructive and needs confirmation",
            vec![s("Run `papr admin vacuum --yes` to proceed")],
        ))
    );
    assert_eq!(ok_line("done"), Ok(s("done\n")));
}

// ── views ──

fn args() -> ListArgs {
    ListArgs {
        feed: None,
        folder: None,
        tag: None,
        starred: false,
        later: false,
        all: false,
        limit: 30,
        offset: 0,
    }
}

fn everything() -> ArticleQuery {
    ArticleQuery { feed: None, folder: None, tag: None, starred: false, later: false }
}

#[test]
fn filters_choose_a_view() {
    let f = FilterArgs { feed: Some(1), folder: Some(2), tag: Some(3), starred: true, later: true };
    assert_eq!(
        filter_query(&f),
        ArticleQuery { feed: Some(1), folder: Some(2), tag: Some(3), starred: true, later: true }
    );
    let none = FilterArgs { feed: None, folder: None, tag: None, starred: false, later: false };
    assert_eq!(filter_query(&none), everything());

    let mut a = args();
    assert_eq!(resolve_query(&a), (everything(), true));
    a.all = true;
    assert_eq!(resolve_query(&a), (everything(), false));
    a.all = false;
    a.feed = Some(1);
    assert_eq!(resolve_query(&a), (ArticleQuery { feed: Some(1), ..everything() }, true));
    a.starred = true;
    assert_eq!(
        resolve_query(&a),
        (ArticleQuery { feed: Some(1), starred: true, ..everything() }, false)
    );
    a.starred = false;
    a.later = true;
    a.tag = Some(3);
    assert_eq!(
        resolve_query(&a),
        (ArticleQuery { feed: Some(1), tag: Some(3), later: true, ..everything() }, false)
    );
    assert_eq!(
        choose_latest(None, Some(2), Some(3)),
        ArticleQuery { folder: Some(2), tag: Some(3), ..everything() }
    );
}

#[test]
fn views_have_names_and_counts() {
    let all = everything();
    let starred = ArticleQuery { starred: true, ..all };
    let later = ArticleQuery { later: true, ..all };
    let feed = |id: i64| ArticleQuery { feed: Some(id), ..all };
    let folder = |id: i64| ArticleQuery { folder: Some(id), ..all };
    let tag = |id: i64| ArticleQuery { tag: Some(id), ..all };
    assert_eq!(scope_label(&all, true), "unread");
    assert_eq!(scope_label(&all, false), "articles");
    assert_eq!(scope_label(&starred, false), "starred");
    assert_eq!(scope_label(&starred, true), "unread starred");
    assert_eq!(scope_label(&later, true), "unread read-later");
    assert_eq!(scope_label(&feed(1), true), "unread in feed");
    assert_eq!(scope_label(&folder(1), false), "in folder");
    assert_eq!(scope_label(&tag(1), true), "unread tagged");
    assert_eq!(scope_label(&ArticleQuery { starred: true, ..feed(1) }, false), "starred in feed");

    assert_eq!(
        count_articles(&all, true),
        (s("SELECT count(*) FROM articles WHERE 1=1 AND is_read = 0"), vec![])
    );
    assert_eq!(
        count_articles(&all, false),
        (s("SELECT count(*) FROM articles WHERE 1=1"), vec![])
    );
    assert_eq!(
        count_articles(&starred, false),
        (s("SELECT count(*) FROM articles WHERE is_starred = 1"), vec![])
    );
    assert_eq!(
        count_articles(&later, true),
        (s("SELECT count(*) FROM articles WHERE read_later = 1 AND is_read = 0"), vec![])
    );
    assert_eq!(
        count_articles(&feed(7), true),
        (s("SELECT count(*) FROM articles WHERE feed_id = ?1 AND is_read = 0"), vec![7])
    );
    assert_eq!(
        count_articles(&folder(7), false),
        (
            s("SELECT count(*) FROM articles WHERE feed_id IN (SELECT id FROM feeds WHERE folder_id = ?1)"),
            vec![7]
        )
    );
    assert_eq!(
        count_articles(&tag(-1), true),
        (
            s("SELECT count(*) FROM articles WHERE id IN (SELECT article_id FROM article_tags WHERE tag_id = ?1) AND is_read = 0"),
            vec![-1]
        )
    );
}

#[test]
fn filters_combine() {
    let feed_and_star = ArticleQuery { feed: Some(4), starred: true, ..everything() };
    assert_eq!(
        count_articles(&feed_and_star, false),
        (
            s("SELECT count(*) FROM articles WHERE feed_id = ?1 AND is_starred = 1"),
            vec![4]
        )
    );
    let most = ArticleQuery { folder: Some(5), tag: Some(6), later: true, ..everything() };
    assert_eq!(
        count_articles(&most, true),
        (
            s("SELECT count(*) FROM articles WHERE \
               feed_id IN (SELECT id FROM feeds WHERE folder_id = ?1) AND \
               id IN (SELECT article_id FROM article_tags WHERE tag_id = ?2) AND \
               read_later = 1 AND is_read = 0"),
            vec![5, 6]
        )
    );
    let mut a = args();
    a.feed = Some(4);
    a.starred = true;
    let text = cmd_list(&a, &vec![article(1, None)], 1).unwrap();
    assert!(text.starts_with("count: 1 of 1 starred in feed\n"), "{text}");
}

#[test]
fn filters_are_replayed() {
    let mut a = args();
    assert_eq!(replay_filters(&a), "");
    a.all = true;
    assert_eq!(replay_filters(&a), "--all");
    a.feed = Some(1);
    a.folder = Some(-2);
    a.tag = Some(3);
    a.starred = true;
    a.later = true;
    assert_eq!(
        replay_filters(&a),
        "--feed 1 --folder -2 --tag 3 --starred --later --all"
    );
}

#[test]
fn different_filters_replay_differently() {
    let mut seen: Vec<String> = Vec::new();
    for feed in [None, Some(1), Some(-1), Some(11)] {
        for folder in [None, Some(1)] {
            for tag in [None, Some(1), Some(2)] {
                for bits in 0..8 {
                    let a = ListArgs {
                        feed,
                        folder,
                        tag,
                        starred: bits & 1 != 0,
                        later: bits & 2 != 0,
                        all: bits & 4 != 0,
                        limit: 30,
                        offset: 0,
                    };
                    let text = replay_filters(&a);
                    assert!(!seen.contains(&text), "{text}");
                    seen.push(text);
                }
            }
        }
    }
}

// ── cells ──

#[test]
fn texts_are_cut_by_characters() {
    assert_eq!(truncate("日本語", 3), (s("日本語"), 3, false));
    assert_eq!(truncate("日本語", 2), (s("日本"), 3, true));
    assert_eq!(truncate("", 0), (s(""), 0, false));
    assert_eq!(cap("a\nb\rc", 5), "a b c");
    assert_eq!(cap("abcdef", 5), "abcd…");
    assert_eq!(cap("日本語", 2), "日…");
    assert_eq!(cap("ab", 0), "…");
    assert_eq!(cap("", 0), "");
}

#[test]
fn dates_are_cut_to_days() {
    assert_eq!(short_date(Some("2026-06-25T10:00:00Z")), "2026-06-25");
    assert_eq!(short_date(Some("2026-06-25")), "2026-06-25");
    assert_eq!(short_date(Some("2026")), "2026");
    assert_eq!(short_date(Some("a,b")), "\"a,b\"");
    assert_eq!(short_date(None), "-");
}

fn article(id: i64, published: Option<&str>) -> ArticleSummary {
    ArticleSummary {
        id,
        feed_title: s("Feed"),
        title: format!("Title {id}"),
        is_read: false,
        is_starred: id == 1,
        read_later: false,
        published_at: published.map(s),
    }
}

#[test]
fn dates_that_do_not_cut_are_found() {
    assert!(dates_are_clean(&vec![article(1, Some("2026-06-25T")), article(2, None)]));
    assert!(dates_are_clean(&vec![article(1, Some("日本"))]));
    assert!(!dates_are_clean(&vec![article(1, None), article(2, Some("2026-06-日本"))]));
}

#[test]
fn flags_of_articles() {
    let mut a = article(2, None);
    assert_eq!(summary_flags(&a), "unread");
    a.is_read = true;
    a.read_later = true;
    assert_eq!(summary_flags(&a), "read.later");
    a.is_starred = true;
    assert_eq!(summary_flags(&a), "read.star.later");
    assert_eq!(detail_flags(&detail(1)), "unread.star");
}

fn float_bytes(n: i64) -> String {
    let units = ["B", "KB", "MB", "GB"];
    let mut v = n as f64;
    let mut u = 0;
    while v >= 1024.0 && u < units.len() - 1 {
        v /= 1024.0;
        u += 1;
    }
    if u == 0 {
        format!("{n} B")
    } else {
        format!("{v:.1} {}", units[u])
    }
}

#[test]
fn sizes_are_written_as_floats_write_them() {
    assert_eq!(human_bytes(1023), "1023 B");
    assert_eq!(human_bytes(1536), "1.5 KB");
    assert_eq!(human_bytes(-5), "-5 B");
    let mut samples: Vec<i64> = (0..200_000).collect();
    samples.extend([i64::MAX, i64::MAX - 1, i64::MIN, -1, 1 << 53, (1 << 53) + 1]);
    for k in 10..63 {
        for d in -3..=3 {
            samples.push((1i64 << k) + d);
            samples.push((1i64 << k) / 10 * 13 + d);
            samples.push((1i64 << k) + (1i64 << (k - 2)) + d);
        }
    }
    let mut x: u64 = 88172645463325252;
    for _ in 0..200_000 {
        x ^= x << 13;
        x ^= x >> 7;
        x ^= x << 17;
        samples.push((x >> (1 + x % 50)) as i64);
    }
    for n in samples {
        assert_eq!(human_bytes(n), float_bytes(n), "{n}");
    }
}

// ── places ──

#[test]
fn homes_are_collapsed() {
    assert_eq!(collapse_home("/home/u/x", Some("/home/u")), "~/x");
    assert_eq!(collapse_home("/home/u2", Some("/home/u")), "~2");
    assert_eq!(collapse_home("/opt/x", Some("/home/u")), "/opt/x");
    assert_eq!(collapse_home("/opt/x", Some("")), "/opt/x");
    assert_eq!(collapse_home("/opt/x", None), "/opt/x");
}

#[test]
fn the_database_is_found_or_missed() {
    assert_eq!(ensure_db(true, "/x", None), Ok(()));
    assert_eq!(
        ensure_db(false, "/home/u/papr.db", Some("/home/u")),
        Err(AxiError::runtime_help(
            "no Papr database at ~/papr.db",
            vec![
                s("Install and launch Papr to create it, or"),
                s("Run any papr command with `--db <path>` / set PAPR_DB to point at one"),
            ],
        ))
    );
    assert_eq!(db_path(Some(s("/a")), Err(home_err())), Ok(s("/a")));
    assert_eq!(db_path(None, Ok(s("/b"))), Ok(s("/b")));
    assert_eq!(db_path(None, Err(home_err())), Err(home_err()));
    assert_eq!(home_err().message, "could not resolve the home directory");
    assert_eq!(home_err().help, vec![s("Set PAPR_DB or pass --db <path> to the database")]);
}

#[test]
fn platforms_keep_their_data_apart() {
    let home = || Some(s("/h"));
    assert_eq!(
        app_data_dir(Platform::MacOs, home(), None, None),
        Ok((s("/h"), s("Library/Application Support")))
    );
    assert_eq!(
        app_data_dir(Platform::Windows, None, Some(s("C:\\d")), None),
        Ok((s("C:\\d"), s("")))
    );
    assert_eq!(
        app_data_dir(Platform::Unix, home(), None, Some(s("/x"))),
        Ok((s("/x"), s("")))
    );
    assert_eq!(
        app_data_dir(Platform::Unix, home(), None, Some(s(""))),
        Ok((s("/h"), s(".local/share")))
    );
    assert_eq!(app_data_dir(Platform::Unix, None, None, None), Err(home_err()));
    assert_eq!(app_data_dir(Platform::MacOs, None, None, None), Err(home_err()));
    assert_eq!(app_data_dir(Platform::Windows, home(), None, None), Err(home_err()));
}

// ── commands ──

fn home() -> Home {
    Home {
        bin: s("/home/u/.local/bin/papr"),
        db: s("/data/papr.db"),
        home: Some(s("/home/u")),
        unread: 2,
        starred: 1,
        later: 0,
        feeds: 3,
        latest_unread: vec![article(1, Some("2026-06-25T08:00:00Z")), article(2, None)],
        latest: vec![article(9, None)],
    }
}

#[test]
fn the_home_view_shows_what_is_unread() {
    assert_eq!(
        cmd_home(&home()).unwrap(),
        "bin: ~/.local/bin/papr\n\
         description: \"Read, search and triage your Papr RSS feeds from the shell.\"\n\
         db: /data/papr.db\nunread: 2\nstarred: 1\nlater: 0\nfeeds: 3\n\
         articles[2]{id,feed,title,flags,date}:\n\
         \x20 1,Feed,Title 1,unread.star,2026-06-25\n\
         \x20 2,Feed,Title 2,unread,-\n\
         help[4]:\n\
         \x20 Run `papr read <id>` to read an article's full text\n\
         \x20 Run `papr list --feed <id>` to list one feed's articles\n\
         \x20 Run `papr search \"<query>\"` to search every article\n\
         \x20 Run `papr refresh` to fetch new articles\n"
    );
    let mut clear = home();
    clear.latest_unread = vec![];
    let text = cmd_home(&clear).unwrap();
    assert!(text.contains(
        "feeds: 3\ninbox: 0 unread — all caught up\nrecent[1]:\n\
         recent[1]{id,feed,title,flags,date}:\n  9,Feed,Title 9,unread,-\n"
    ));
}

fn feed(id: i64, folder_id: Option<i64>) -> Feed {
    Feed {
        id,
        title: format!("Feed {id}"),
        unread_count: id * 2,
        source_type: s("rss"),
        folder_id,
    }
}

#[test]
fn feeds_are_grouped_by_folder() {
    assert_eq!(
        cmd_feeds(&vec![], &vec![]).unwrap(),
        "feeds: 0 subscriptions yet\nhelp[1]:\n  Run `papr subscribe <url>` to add your first feed\n"
    );
    let folders = vec![
        Folder { id: 1, name: s("Tech, etc") },
        Folder { id: 2, name: s("Empty") },
    ];
    let feeds = vec![feed(1, Some(1)), feed(2, None), feed(3, Some(9))];
    let help = "help[3]:\n  Run `papr list --feed <id>` to list a feed's articles\n  \
                Run `papr refresh --feed <id>` to fetch one feed\n  \
                Run `papr subscribe <url>` to add a feed\n";
    assert_eq!(
        cmd_feeds(&feeds, &folders).unwrap(),
        format!(
            "count: 3 feeds · 12 unread\n\"Tech, etc\":\n  feeds[1]{{id,title,unread,type}}:\n    \
             1,Feed 1,2,rss\n(no folder):\n  feeds[2]{{id,title,unread,type}}:\n    \
             2,Feed 2,4,rss\n    3,Feed 3,6,rss\n{help}"
        )
    );
    assert_eq!(
        cmd_feeds(&vec![feed(2, None)], &folders).unwrap(),
        format!(
            "count: 1 feeds · 4 unread\nfeeds[1]{{id,title,unread,type}}:\n  2,Feed 2,4,rss\n{help}"
        )
    );
}

#[test]
fn lists_state_their_totals() {
    let rows = vec![article(1, None), article(2, None)];
    let help = "  Run `papr read <id>` to read an article's full text\n  \
                Run `papr mark read <id>` to mark an article read\n";
    assert_eq!(
        cmd_list(&args(), &rows, 2).unwrap(),
        format!(
            "count: 2 of 2 unread\narticles[2]{{id,feed,title,flags,date}}:\n  \
             1,Feed,Title 1,unread.star,-\n  2,Feed,Title 2,unread,-\nhelp[2]:\n{help}"
        )
    );
    let mut a = args();
    a.feed = Some(4);
    a.limit = 2;
    a.offset = 6;
    let text = cmd_list(&a, &rows, 9).unwrap();
    assert!(text.starts_with("count: 2 of 9 unread in feed\n"));
    assert!(text.ends_with(&format!(
        "help[3]:\n{help}  Run `papr list --offset 8 --feed 4` for the next page\n"
    )));
    assert!(cmd_list(&a, &rows, 8).unwrap().ends_with(&format!("help[2]:\n{help}")));
    assert_eq!(
        cmd_list(&args(), &vec![], 0).unwrap(),
        "articles: 0 unread found\nhelp[1]:\n  Run `papr refresh` to fetch new articles\n"
    );
    assert_eq!(LIST_LIMIT, 30);
    assert_eq!(SEARCH_LIMIT, 20);
}

fn read_args() -> ReadArgs {
    ReadArgs { ids: vec![], full: false, feed: None, folder: None, tag: None, unread: false, limit: 5 }
}

#[test]
fn reading_needs_ids_or_a_filter() {
    let mut a = read_args();
    let e = plan_read(&a).unwrap_err();
    assert_eq!(e.message, "read needs an article id or a filter");
    assert_eq!(
        e.help,
        vec![
            s("Run `papr read <id> [<id>...]` to read by id"),
            s("Run `papr read --feed <id> --limit 5` to read a feed's latest"),
        ]
    );
    assert_eq!(e.exit_code(), 2);
    a.tag = Some(3);
    a.unread = true;
    assert_eq!(
        plan_read(&a),
        Ok(ReadPlan::Latest {
            query: ArticleQuery { tag: Some(3), ..everything() },
            unread_only: true,
            limit: 5
        })
    );
    a.feed = Some(1);
    assert_eq!(
        plan_read(&a),
        Ok(ReadPlan::Latest {
            query: ArticleQuery { feed: Some(1), tag: Some(3), ..everything() },
            unread_only: true,
            limit: 5
        })
    );
    a.ids = vec![4, 5];
    assert_eq!(plan_read(&a), Ok(ReadPlan::Ids(vec![4, 5])));
}

fn detail(id: i64) -> ArticleDetail {
    ArticleDetail {
        id,
        feed_title: s("Feed"),
        title: s("Hello, world"),
        author: None,
        url: Some(s("https://e.com")),
        published_at: Some(s("2026-06-25")),
        is_read: false,
        is_starred: true,
        read_later: false,
        tags: vec![s("x"), s("y")],
    }
}

#[test]
fn articles_are_read_with_a_preview() {
    assert_eq!(
        cmd_read(&vec![], false).unwrap(),
        "articles: 0 matched that filter\nhelp[1]:\n  Run `papr list` to find article ids\n"
    );
    assert_eq!(
        cmd_read(&vec![ReadItem::Found(detail(1), s("one\ntwo"))], false).unwrap(),
        "article:\n  id: 1\n  feed: Feed\n  title: \"Hello, world\"\n  author: -\n  \
         url: https://e.com\n  published: 2026-06-25\n  state: unread.star\n  tags: \"x, y\"\n  \
         text:\n    one\n    two\n"
    );
    let mut bare = detail(1);
    bare.tags = vec![];
    let long = "x".repeat(READ_TRUNCATE + 1);
    let text = cmd_read(&vec![ReadItem::Found(bare, long.clone())], false).unwrap();
    assert!(!text.contains("tags"));
    assert!(text.ends_with(
        "\n    ... (truncated, 1501 chars total)\n\
         help[1]:\n  Run `papr read <id> --full` to see the complete text\n"
    ));
    let full = cmd_read(&vec![ReadItem::Found(detail(1), long.clone())], true).unwrap();
    assert!(full.contains(&long) && !full.contains("help"));
    let batch = vec![
        ReadItem::Missing(8),
        ReadItem::Found(detail(1), "y".repeat(BATCH_TRUNCATE + 1)),
    ];
    let text = cmd_read(&batch, false).unwrap();
    assert!(text.starts_with("count: 2 articles\narticle:\n  id: 8\n  error: not found\narticle:\n"));
    assert!(text.contains("(truncated, 601 chars total)"));
}

#[test]
fn searches_and_tags() {
    assert_eq!(
        cmd_search("a,b", &vec![]).unwrap(),
        "search: 0 matches for \"a,b\"\nhelp[1]:\n  \
         Run `papr refresh` to fetch new articles, then search again\n"
    );
    let hits = vec![Hit { id: 3, title: s("T"), feed: s("F") }];
    assert_eq!(
        cmd_search("q", &hits).unwrap(),
        "count: 1 matches\nmatches[1]{id,feed,title}:\n  3,F,T\nhelp[1]:\n  \
         Run `papr read <id>` to read a match in full\n"
    );
    assert_eq!(cmd_tags(&vec![]).unwrap(), "tags: 0 defined\n");
    assert_eq!(
        cmd_tags(&vec![Tag { id: 1, name: s("ai"), article_count: 7 }]).unwrap(),
        "count: 1 tags\ntags[1]{id,name,articles}:\n  1,ai,7\nhelp[1]:\n  \
         Run `papr list --tag <id>` to list a tag's articles\n"
    );
}
