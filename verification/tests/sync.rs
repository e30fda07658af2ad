use papr::course::{
    SessionAction, SessionEvent, SessionRun, SessionStage, SyncAction, SyncEvent, SyncRun,
};
use papr::desktop;
use papr::error::AppError;
use papr::greader::{
    list_subscriptions, login_request, persist_session, push_state, set_subscription_folder,
    subscribe_url, token_request, Creds, MinifluxCategory, Provider, Session, Sub, SubCat,
    READ_TAG, STARRED_TAG,
};
use papr::models::SyncEntry;
use papr::net::{Body, Method, Reply};
use papr::sync::{
    feeds_to_push, item_article, item_date, item_url, plan_item, plan_subscription, pull_contents,
    pull_items, run_if_connected, server_urls, FeedTarget, ImportAction, ImportEvent, ImportRun,
    Instant, Item, ItemAction, ItemEvent, ItemRun, PullPlan, PushAction, PushRun, StreamMap,
    SubscribeAction, SubscribeRun,
};

fn s(text: &str) -> String {
    text.to_string()
}

fn session() -> Session {
    Session { base: s("https://b"), auth: s("A"), token: s("T") }
}

// ── the course of a sync ──

fn connection(auth: Option<&str>, provider: Provider, key: Option<&str>) -> Creds {
    Creds {
        url: s("https://r/"),
        user: s("me"),
        auth: auth.map(s),
        legacy_pass: Some(s("pw")),
        miniflux_api_key: key.map(s),
        provider,
    }
}

#[test]
fn a_sync_needs_a_connection() {
    let creds = connection(None, Provider::FreshRss, None);
    let run = SessionRun::start(Some(&creds), false).unwrap();
    assert_eq!(run.base, "https://r/api/greader.php");
    assert_eq!(run.stage, SessionStage::Login { user: s("me"), pass: s("pw") });
    assert_eq!(
        SessionRun::start(None, false),
        Err(AppError::Code(s("freshrssNotConnected")))
    );
    assert!(run_if_connected(&Some(creds)));
    assert!(!run_if_connected(&None));
}

#[test]
fn a_stored_token_gives_a_session() {
    let creds = connection(Some("A"), Provider::Miniflux, None);
    let run = SessionRun::new(&creds, false);
    assert_eq!(run.action(), SessionAction::Send(token_request("https://r", "A")));
    let run = run.answer(SessionEvent::Reply(Reply::Body(s(" T "))));
    assert_eq!(run.action(), SessionAction::Done);
    let session = Session { base: s("https://r"), auth: s("A"), token: s("T") };
    assert_eq!(run.stage, SessionStage::Done(Ok(session)));
}

#[test]
fn a_password_is_exchanged_and_forgotten() {
    let creds = connection(None, Provider::Miniflux, None);
    let login = || SessionRun::new(&creds, false).answer(SessionEvent::Reply(Reply::Body(s("Auth=A"))));
    assert_eq!(
        SessionRun::new(&creds, false).action(),
        SessionAction::Send(login_request("https://r", "me", "pw"))
    );
    let run = login().answer(SessionEvent::Stored);
    assert_eq!(run.action(), SessionAction::Send(token_request("https://r", "A")));
    let run = run.answer(SessionEvent::Reply(Reply::Body(s("T"))));
    let settings = persist_session("https://r/", "me", "A", Provider::Miniflux);
    assert_eq!(run.action(), SessionAction::Store(settings));
    let session = Session { base: s("https://r"), auth: s("A"), token: s("T") };
    let kept = login()
        .answer(SessionEvent::Reply(Reply::Body(s("T"))))
        .answer(SessionEvent::Stored);
    assert_eq!(kept.stage, SessionStage::Done(Ok(session)));
    let lost = run.answer(SessionEvent::Failed(AppError::Store(s("full"))));
    assert_eq!(lost.stage, SessionStage::Done(Err(AppError::Store(s("full")))));
}

#[test]
fn a_session_may_fail() {
    let creds = connection(None, Provider::FreshRss, None);
    let away = || SessionEvent::Reply(Reply::Failed(s("dns")));
    assert_eq!(
        SessionRun::new(&creds, false).answer(away()).stage,
        SessionStage::Done(Err(AppError::Network(s("dns"))))
    );
    let token = connection(Some("A"), Provider::FreshRss, None);
    assert_eq!(
        SessionRun::new(&token, false).answer(away()).stage,
        SessionStage::Done(Err(AppError::Code(s("freshrssLoginFailed"))))
    );
    assert_eq!(
        SessionRun::new(&token, true).answer(away()).stage,
        SessionStage::Done(Err(AppError::Network(s("dns"))))
    );
}

fn sync_of(provider: Provider, key: Option<&str>) -> SyncRun {
    SyncRun::new(connection(Some("A"), provider, key), session())
}

#[test]
fn a_sync_runs_its_course() {
    let mut run = sync_of(Provider::Miniflux, Some("k"));
    assert_eq!(run.action(), SyncAction::TakeQueue);
    run = run.answer(SyncEvent::Queue(vec![entry(1, "read")]));
    assert_eq!(
        run.action(),
        SyncAction::Push(PushAction::Send(push_state(&session(), "r1", "read", true)))
    );
    run = run.answer(SyncEvent::Sent(false));
    assert_eq!(run.action(), SyncAction::Push(PushAction::Requeue(entry(1, "read"))));
    run = run.answer(SyncEvent::Failed(AppError::Store(s("x"))));
    assert!(matches!(run.action(), SyncAction::Push(_)));
    run = run.answer(SyncEvent::Sent(true));
    match run.action() {
        SyncAction::Categories(r) => assert_eq!(r.url, "https://r/v1/categories"),
        other => panic!("{other:?}"),
    }
    run = run.answer(SyncEvent::Categories(vec![
        MinifluxCategory { id: 1, title: s("F") },
        MinifluxCategory { id: 2, title: s(" ") },
        MinifluxCategory { id: 3, title: s("G") },
    ]));
    assert_eq!(run.action(), SyncAction::Folder(s("F")));
    run = run.answer(SyncEvent::Folder);
    assert_eq!(run.action(), SyncAction::Folder(s("G")));
    run = run.answer(SyncEvent::Folder);
    assert_eq!(run.action(), SyncAction::Subscriptions(list_subscriptions(&session())));
    run = run.answer(SyncEvent::Subscriptions(vec![sub("feed/1", Some("https://a"), None, None)]));
    assert_eq!(run.action(), SyncAction::Import(ImportAction::FindFeed(s("https://a"))));
    run = run.answer(SyncEvent::Import(ImportEvent::Found(None)));
    run = run.answer(SyncEvent::Import(ImportEvent::Inserted(5)));
    assert_eq!(run.action(), SyncAction::Targets);
    run = run.answer(SyncEvent::Targets(vec![
        FeedTarget { url: s("https://a"), folder: None },
        FeedTarget { url: s("https://b"), folder: None },
    ]));
    assert_eq!(
        run.action(),
        SyncAction::Subscribe(SubscribeAction::Subscribe(subscribe_url(&session(), "https://b")))
    );
    run = run.answer(SyncEvent::Sent(false));
    assert!(matches!(run.action(), SyncAction::Ids(_)));
    run = run.answer(SyncEvent::Items(vec![]));
    assert!(matches!(run.action(), SyncAction::Ids(_)), "an answer to another question");
    run = run.answer(SyncEvent::Ids(vec![s("r1")]));
    match run.action() {
        SyncAction::Items(r) => assert_eq!(r, pull_items(&session(), &vec![s("r1")]).unwrap()),
        other => panic!("{other:?}"),
    }
    run = run.answer(SyncEvent::Items(vec![item("r1")]));
    assert_eq!(run.action(), SyncAction::Item(ItemAction::ArticleByUrl(s("https://e/1"))));
    run = run.answer(SyncEvent::Item(ItemEvent::Found(None)));
    // The stream of the imported subscription leads to its feed.
    assert_eq!(
        run.action(),
        SyncAction::Item(ItemAction::ArticleByGuid { feed: 5, guid: s("r1") })
    );
    for event in [ItemEvent::Found(Some(9)), ItemEvent::Done, ItemEvent::Done, ItemEvent::Done] {
        assert_eq!(sync_of(Provider::Miniflux, None).result(), None);
        run = run.answer(SyncEvent::Item(event));
    }
    assert_eq!(run.action(), SyncAction::Done);
    assert_eq!(run.result(), Some(Ok(0)));
}

#[test]
fn syncs_skip_what_they_do_not_need() {
    // No queue, no access to folders, no subscriptions, no local feeds.
    let mut run = sync_of(Provider::FreshRss, Some("k"));
    run = run.answer(SyncEvent::Queue(vec![]));
    assert_eq!(run.action(), SyncAction::Subscriptions(list_subscriptions(&session())));
    run = run.answer(SyncEvent::Subscriptions(vec![]));
    run = run.answer(SyncEvent::Targets(vec![]));
    match run.action() {
        SyncAction::Items(r) => assert!(r.url.contains("stream/contents/")),
        other => panic!("{other:?}"),
    }
    run = run.answer(SyncEvent::Items(vec![]));
    assert_eq!(run.result(), Some(Ok(0)));
    let mut run = sync_of(Provider::Miniflux, None).answer(SyncEvent::Queue(vec![]));
    run = run.answer(SyncEvent::Subscriptions(vec![]));
    run = run.answer(SyncEvent::Targets(vec![]));
    run = run.answer(SyncEvent::Ids(vec![]));
    assert_eq!(run.result(), Some(Ok(0)));
}

#[test]
fn failures_end_a_sync_but_for_folders() {
    let failed = || SyncEvent::Failed(AppError::Network(s("dns")));
    let error = Some(Err(AppError::Network(s("dns"))));
    assert_eq!(sync_of(Provider::FreshRss, None).answer(failed()).result(), error);
    let folders = || sync_of(Provider::Miniflux, Some("k")).answer(SyncEvent::Queue(vec![]));
    let run = folders().answer(failed());
    assert_eq!(run.action(), SyncAction::Subscriptions(list_subscriptions(&session())));
    assert_eq!(run.answer(failed()).result(), error);
    let named = vec![MinifluxCategory { id: 1, title: s("F") }];
    let run = folders().answer(SyncEvent::Categories(named)).answer(failed());
    assert_eq!(run.action(), SyncAction::Subscriptions(list_subscriptions(&session())));
    let run = run.answer(SyncEvent::Subscriptions(vec![])).answer(failed());
    assert_eq!(run.action(), SyncAction::Done);
    assert_eq!(run.answer(SyncEvent::Targets(vec![])).result(), error);
}

#[test]
fn the_desktop_sync_runs_its_course() {
    let mut run = desktop::SyncRun::new(session());
    assert_eq!(run.action(), desktop::SyncAction::TakeQueue);
    run = run.answer(desktop::SyncEvent::Queue(vec![entry(1, "read")]));
    assert!(matches!(run.action(), desktop::SyncAction::Push(PushAction::Send(_))));
    run = run.answer(desktop::SyncEvent::Sent(true));
    assert_eq!(
        run.action(),
        desktop::SyncAction::Subscriptions(list_subscriptions(&session()))
    );
    run = run.answer(desktop::SyncEvent::Subscriptions(vec![sub("", Some("https://a"), None, None)]));
    assert_eq!(
        run.action(),
        desktop::SyncAction::Import(desktop::ImportAction::FindFeed(s("https://a")))
    );
    run = run.answer(desktop::SyncEvent::Import(desktop::ImportEvent::Found(Some(1))));
    assert_eq!(run.action(), desktop::SyncAction::Items(desktop::pull_contents(&session())));
    run = run.answer(desktop::SyncEvent::Items(vec![item("r1")]));
    assert_eq!(run.action(), desktop::SyncAction::Pending);
    run = run.answer(desktop::SyncEvent::Pending(vec![4]));
    run = run.answer(desktop::SyncEvent::Item(desktop::ItemEvent::Found(Some(4))));
    run = run.answer(desktop::SyncEvent::Item(desktop::ItemEvent::Done));
    assert_eq!(run.action(), desktop::SyncAction::Done);
    assert_eq!(run.result(), Some(Ok(1)));
    let failed = desktop::SyncEvent::Failed(AppError::Store(s("locked")));
    assert_eq!(
        desktop::SyncRun::new(session()).answer(failed).result(),
        Some(Err(AppError::Store(s("locked"))))
    );
}

fn entry(id: i64, field: &str) -> SyncEntry {
    SyncEntry { article_id: id, remote_id: format!("r{id}"), field: s(field), value: true }
}

#[test]
fn changes_are_pushed_or_queued_again() {
    let mut run = PushRun::new(vec![entry(1, "read"), entry(2, "starred"), entry(3, "read")]);
    let mut sent = 0;
    let mut requeued = vec![];
    loop {
        match run.action(&session()) {
            PushAction::Send(request) => {
                sent += 1;
                let field = if sent == 2 { "starred" } else { "read" };
                assert_eq!(request, push_state(&session(), &format!("r{sent}"), field, true));
                run = run.answer(sent == 1);
            }
            PushAction::Requeue(entry) => {
                requeued.push(entry);
                run = run.answer(false);
            }
            PushAction::Done(pushed) => {
                assert_eq!(pushed, 1);
                break;
            }
        }
    }
    assert_eq!(sent, 3);
    assert_eq!(requeued, vec![entry(2, "starred"), entry(3, "read")]);
    assert_eq!(PushRun::new(vec![]).action(&session()), PushAction::Done(0));
}

// ── subscriptions ──

fn sub(id: &str, url: Option<&str>, title: Option<&str>, folder: Option<&str>) -> Sub {
    Sub {
        id: s(id),
        url: url.map(s),
        title: title.map(s),
        categories: folder.iter().map(|f| SubCat { id: s(""), label: Some(s(f)) }).collect(),
    }
}

#[test]
fn subscriptions_become_plans() {
    let plan = plan_subscription(&sub("feed/1", Some(" https://a "), None, Some("F")));
    assert_eq!(plan.folder.as_deref(), Some("F"));
    let feed = plan.feed.unwrap();
    assert_eq!((feed.url.as_str(), feed.title.as_str(), feed.stream.as_str()), ("https://a", "https://a", "feed/1"));
    let plan = plan_subscription(&sub("", Some("https://a"), Some("T"), None));
    let feed = plan.feed.unwrap();
    assert_eq!((feed.title.as_str(), feed.stream.as_str()), ("T", "feed/https://a"));
    assert_eq!(plan.folder, None);
    assert_eq!(plan_subscription(&sub("x", Some("  "), None, None)).feed, None);
    let subs = vec![
        sub("", Some("https://a"), None, None),
        sub("", Some(""), None, None),
        sub("", None, None, None),
        sub("", Some(" https://b"), None, None),
    ];
    assert_eq!(server_urls(&subs), vec![s("https://a"), s(" https://b")]);
}

#[test]
fn the_server_files_feeds() {
    let subs = vec![
        sub("feed/1", Some("https://new"), Some("New"), Some("F")),
        sub("feed/2", Some("https://old"), None, None),
        sub("feed/3", None, None, Some("G")),
        sub("feed/4", Some("https://kept"), None, Some("F")),
    ];
    let mut run = ImportRun::new(&subs);
    assert_eq!(run.action(), ImportAction::FolderId(s("F")));
    run.answer(ImportEvent::Moved);
    assert_eq!(run.action(), ImportAction::FolderId(s("F")), "an answer to another question");
    run.answer(ImportEvent::FolderId(7));
    assert_eq!(run.action(), ImportAction::FindFeed(s("https://new")));
    run.answer(ImportEvent::Found(None));
    assert_eq!(
        run.action(),
        ImportAction::InsertFeed { url: s("https://new"), title: s("New"), folder: Some(7) }
    );
    run.answer(ImportEvent::Inserted(11));
    assert_eq!(run.action(), ImportAction::FindFeed(s("https://old")));
    run.answer(ImportEvent::Found(Some(12)));
    assert_eq!(run.action(), ImportAction::FeedFolder(12));
    run.answer(ImportEvent::InFolder(Some(7)));
    assert_eq!(run.action(), ImportAction::MoveFeed { id: 12, folder: None });
    run.answer(ImportEvent::Moved);
    assert_eq!(run.action(), ImportAction::FolderId(s("G")));
    run.answer(ImportEvent::FolderId(8));
    assert_eq!(run.action(), ImportAction::FolderId(s("F")));
    run.answer(ImportEvent::FolderId(7));
    run.answer(ImportEvent::Found(Some(14)));
    run.answer(ImportEvent::InFolder(Some(7)));
    assert_eq!(run.action(), ImportAction::Done);
    assert_eq!(run.streams.get("feed/1"), Some(11));
    assert_eq!(run.streams.get("feed/https://new"), Some(11));
    assert_eq!(run.streams.get("feed/2"), Some(12));
    assert_eq!(run.streams.get("feed/4"), Some(14));
    assert_eq!(run.streams.get("feed/3"), None);
}

#[test]
fn streams_keep_their_last_feed() {
    let mut streams = StreamMap::new();
    streams.insert(s("feed/1"), 1);
    streams.insert(s("feed/2"), 2);
    streams.insert(s("feed/1"), 3);
    assert_eq!(streams.get("feed/1"), Some(3));
    assert_eq!(streams.get("feed/2"), Some(2));
    assert_eq!(streams.get(""), None);
}

#[test]
fn feeds_to_push_selects_only_local_only_feeds() {
    let local = vec![
        s("https://a.example/feed"),
        s("https://b.example/feed"),
        s("https://c.example/feed"),
    ];
    let server = vec![s("https://b.example/feed")];
    assert_eq!(
        feeds_to_push(&local, &server),
        vec!["https://a.example/feed", "https://c.example/feed"]
    );
}

#[test]
fn feeds_to_push_empty_when_server_has_everything() {
    let local = vec![s("https://a.example/feed")];
    let server = vec![s("https://a.example/feed")];
    assert!(feeds_to_push(&local, &server).is_empty());
}

#[test]
fn local_feeds_reach_the_server() {
    let target = |url: &str, folder: Option<&str>| FeedTarget { url: s(url), folder: folder.map(s) };
    let targets = vec![target("a", Some("F")), target("b", None), target("c", Some("G")), target("d", None)];
    let mut run = SubscribeRun::new(targets, &vec![s("d")]);
    assert_eq!(
        run.action(&session()),
        SubscribeAction::Subscribe(subscribe_url(&session(), "a"))
    );
    run.answer(true);
    assert_eq!(
        run.action(&session()),
        SubscribeAction::File(set_subscription_folder(&session(), "feed/a", &vec![], Some("F")))
    );
    run.answer(false);
    assert_eq!(
        run.action(&session()),
        SubscribeAction::Subscribe(subscribe_url(&session(), "b"))
    );
    run.answer(true);
    assert_eq!(
        run.action(&session()),
        SubscribeAction::Subscribe(subscribe_url(&session(), "c"))
    );
    run.answer(false);
    assert_eq!(run.action(&session()), SubscribeAction::Done);
}

// ── articles ──

#[test]
fn articles_are_pulled_by_provider() {
    match pull_contents(&session(), Provider::FreshRss) {
        PullPlan::Contents(r) => assert_eq!(
            r.url,
            "https://b/reader/api/0/stream/contents/user/-/state/com.google/reading-list?output=json&n=1000"
        ),
        other => panic!("{other:?}"),
    }
    match pull_contents(&session(), Provider::Miniflux) {
        PullPlan::Ids(r) => assert_eq!(
            r.url,
            "https://b/reader/api/0/stream/items/ids?output=json&s=user/-/state/com.google/reading-list&n=1000"
        ),
        other => panic!("{other:?}"),
    }
    assert_eq!(pull_items(&session(), &vec![]), None);
    let r = pull_items(&session(), &vec![s("1"), s("2")]).unwrap();
    assert_eq!(r.method, Method::Post);
    assert_eq!(r.url, "https://b/reader/api/0/stream/items/contents");
    let form: Vec<(String, String)> =
        [("T", "T"), ("output", "json"), ("i", "1"), ("i", "2")].iter().map(|(a, b)| (s(a), s(b))).collect();
    assert_eq!(r.body, Body::Form(form));
    assert_eq!(
        desktop::pull_contents(&session()).url,
        "https://b/reader/api/0/stream/contents/user/-/state/com.google/reading-list?output=json&n=1000"
    );
}

fn item(id: &str) -> Item {
    Item {
        id: s(id),
        title: Some(s(" T ")),
        author: Some(s("A")),
        published: Some(1_700_000_000),
        summary: Some(s("<p>sum</p>")),
        content: None,
        origin: Some(s("feed/1")),
        categories: vec![],
        canonical: vec![],
        alternate: vec![s(" https://e/1 ")],
    }
}

#[test]
fn items_have_urls() {
    let mut i = item("1");
    assert_eq!(item_url(&i).as_deref(), Some("https://e/1"));
    i.canonical = vec![s(""), s("https://c")];
    assert_eq!(item_url(&i), None);
    i.canonical = vec![s("https://c")];
    assert_eq!(item_url(&i).as_deref(), Some("https://c"));
    i.canonical = vec![];
    i.alternate = vec![];
    assert_eq!(item_url(&i), None);
}

#[test]
fn items_become_articles() {
    let a = item_article(&item("1"), None, Some(Instant { seconds: 1_700_000_000, nanos: 0 }));
    assert_eq!(a.guid, "1");
    assert_eq!(a.title, "T");
    assert_eq!(a.author.as_deref(), Some("A"));
    assert_eq!(a.content_html.as_deref(), Some("<p>sum</p>"));
    assert_eq!(a.body_text, "sum");
    assert_eq!(a.summary.as_deref(), Some("sum"));
    assert_eq!(a.published_at.as_deref(), Some("2023-11-14T22:13:20+00:00"));
    assert_eq!(a.image_url, None);
    assert!(a.enclosures.is_empty());

    let mut bare = item("2");
    bare.title = Some(s("  "));
    bare.author = Some(s(" "));
    bare.summary = Some(s("<br>"));
    bare.content = Some(s(" <b>x</b> "));
    let a = item_article(&bare, Some(s("https://u")), None);
    assert_eq!(a.title, "Untitled");
    assert_eq!(a.author, None);
    assert_eq!(a.summary, None);
    assert_eq!(a.content_html.as_deref(), Some("<b>x</b>"));
    assert_eq!(a.url.as_deref(), Some("https://u"));
    assert_eq!(a.published_at, None);
    bare.content = Some(s("  "));
    let a = item_article(&bare, None, None);
    assert_eq!((a.content_html, a.body_text), (None, s("")));
}

#[test]
fn dates_are_written_with_their_fraction() {
    let date = |seconds: i64, nanos: u32| {
        item_article(&item("1"), None, Some(Instant { seconds, nanos })).published_at
    };
    assert_eq!(date(0, 0).as_deref(), Some("1970-01-01T00:00:00+00:00"));
    assert_eq!(date(-1, 0).as_deref(), Some("1969-12-31T23:59:59+00:00"));
    assert_eq!(date(0, 500_000_000).as_deref(), Some("1970-01-01T00:00:00.500+00:00"));
    assert_eq!(date(i64::MAX, 0), None);
}

#[test]
fn only_dates_that_exist_are_kept() {
    let mut i = item("1");
    assert_eq!(item_date(&i), Some(1_700_000_000));
    i.published = Some(i64::MAX);
    assert_eq!(item_date(&i), None);
    i.published = Some(i64::MIN);
    assert_eq!(item_date(&i), None);
    i.published = None;
    assert_eq!(item_date(&i), None);
}

fn streams() -> StreamMap {
    let mut map = StreamMap::new();
    map.insert(s("feed/1"), 5);
    map
}

#[test]
fn items_become_plans() {
    let mut i = item("1");
    i.categories = vec![s("user/9/state/com.google/read")];
    let plan = plan_item(i, &streams());
    assert_eq!(plan.feed, Some(5));
    assert!(plan.read && !plan.starred);
    let mut i = item("1");
    i.origin = Some(s("feed/2"));
    assert_eq!(plan_item(i, &streams()).feed, None);
    let mut i = item("1");
    i.origin = None;
    assert_eq!(plan_item(i, &streams()).feed, None);
}

#[test]
fn known_articles_take_the_servers_state() {
    let mut i = item("r1");
    i.categories = vec![s(STARRED_TAG)];
    let mut run = ItemRun::new(vec![i], &streams());
    assert_eq!(run.action(), ItemAction::ArticleByUrl(s("https://e/1")));
    run.answer(ItemEvent::Found(Some(3)));
    assert_eq!(run.action(), ItemAction::SetRemoteId { article: 3, remote_id: s("r1") });
    run.answer(ItemEvent::Done);
    assert_eq!(run.action(), ItemAction::SetState { article: 3, read: false, starred: true });
    run.answer(ItemEvent::Done);
    assert_eq!(run.action(), ItemAction::ClearQueue(3));
    run.answer(ItemEvent::Done);
    assert_eq!(run.action(), ItemAction::Done(0));
    assert_eq!(run.reconciled, 1);
}

#[test]
fn new_articles_are_stored_and_counted() {
    let mut read = item("r2");
    read.categories = vec![s(READ_TAG)];
    read.published = None;
    read.alternate = vec![];
    let mut lost = item("r3");
    lost.origin = None;
    let mut run = ItemRun::new(vec![item("r1"), read, lost], &streams());
    run.answer(ItemEvent::Found(None));
    assert_eq!(run.action(), ItemAction::ArticleByGuid { feed: 5, guid: s("r1") });
    run.answer(ItemEvent::Found(None));
    assert_eq!(run.action(), ItemAction::SetRight(1_700_000_000));
    run.answer(ItemEvent::Dated(Instant { seconds: 1_600_000_000, nanos: 0 }));
    match run.action() {
        ItemAction::Store { feed, content } => {
            assert_eq!(feed, 5);
            assert_eq!(content.published_at.as_deref(), Some("2020-09-13T12:26:40+00:00"));
            assert_eq!(content.url.as_deref(), Some("https://e/1"));
        }
        other => panic!("{other:?}"),
    }
    run.answer(ItemEvent::Stored(true));
    assert_eq!(run.action(), ItemAction::ArticleByGuid { feed: 5, guid: s("r1") });
    run.answer(ItemEvent::Found(Some(8)));
    run.answer(ItemEvent::Done);
    run.answer(ItemEvent::Done);
    run.answer(ItemEvent::Done);
    assert_eq!((run.inserted, run.reconciled), (1, 1));
    // The second has no URL and no date, and is read already.
    assert_eq!(run.action(), ItemAction::ArticleByGuid { feed: 5, guid: s("r2") });
    run.answer(ItemEvent::Found(None));
    assert!(matches!(run.action(), ItemAction::Store { .. }));
    run.answer(ItemEvent::Stored(true));
    run.answer(ItemEvent::Found(None));
    // It vanished again; the third is of no known feed.
    assert_eq!(run.action(), ItemAction::ArticleByUrl(s("https://e/1")));
    run.answer(ItemEvent::Found(None));
    assert_eq!(run.action(), ItemAction::Done(1));
    assert_eq!(run.reconciled, 1);
}

// ── the desktop app ──

#[test]
fn the_desktop_app_leaves_filed_feeds() {
    let subs = vec![
        sub("", Some("https://a"), None, Some("F")),
        sub("", Some("https://b"), None, Some("F")),
        sub("", Some("https://c"), None, None),
        sub("", Some("https://d"), Some("D"), None),
    ];
    let mut run = desktop::ImportRun::new(&subs);
    run.answer(desktop::ImportEvent::FolderId(7));
    run.answer(desktop::ImportEvent::Found(Some(1)));
    assert_eq!(run.action(), desktop::ImportAction::FeedFolder(1));
    run.answer(desktop::ImportEvent::InFolder(Some(2)));
    assert_eq!(run.action(), desktop::ImportAction::FolderId(s("F")));
    run.answer(desktop::ImportEvent::FolderId(7));
    run.answer(desktop::ImportEvent::Found(Some(2)));
    run.answer(desktop::ImportEvent::InFolder(None));
    assert_eq!(run.action(), desktop::ImportAction::MoveFeed { id: 2, into: 7 });
    run.answer(desktop::ImportEvent::Moved);
    assert_eq!(run.action(), desktop::ImportAction::FindFeed(s("https://c")));
    run.answer(desktop::ImportEvent::Found(Some(3)));
    assert_eq!(run.action(), desktop::ImportAction::FindFeed(s("https://d")));
    run.answer(desktop::ImportEvent::Found(None));
    assert_eq!(
        run.action(),
        desktop::ImportAction::InsertFeed { url: s("https://d"), title: s("D"), folder: None }
    );
    run.answer(desktop::ImportEvent::Inserted);
    assert_eq!(run.action(), desktop::ImportAction::Done);
}

#[test]
fn the_desktop_app_keeps_pending_changes() {
    let mut a = item("r1");
    a.categories = vec![s(READ_TAG)];
    let mut b = item("r2");
    b.categories = vec![s("user/9/state/com.google/read")];
    let mut none = item("r3");
    none.alternate = vec![];
    let mut run = desktop::ItemRun::new(&vec![a, none, b], vec![4]);
    assert_eq!(run.action(), desktop::ItemAction::ArticleByUrl(s(" https://e/1 ")));
    run.answer(desktop::ItemEvent::Found(Some(4)));
    assert_eq!(
        run.action(),
        desktop::ItemAction::SetRemoteId { article: 4, remote_id: s("r1") }
    );
    run.answer(desktop::ItemEvent::Done);
    assert_eq!(run.action(), desktop::ItemAction::ArticleByUrl(s(" https://e/1 ")));
    run.answer(desktop::ItemEvent::Found(Some(5)));
    run.answer(desktop::ItemEvent::Done);
    assert_eq!(
        run.action(),
        desktop::ItemAction::SetState { article: 5, read: false, starred: false }
    );
    run.answer(desktop::ItemEvent::Done);
    assert_eq!(run.action(), desktop::ItemAction::Done(2));
}
