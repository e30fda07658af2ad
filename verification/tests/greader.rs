use papr::desktop;
use papr::error::AppError;
use papr::greader::{
    client_login, connect, connected_url, create_remote_folder, creds, delete_remote_folder,
    disconnect, find_miniflux_category_id, folder_tag, greader_base, has_exact_tag, has_state_tag,
    label_tag, list_subscriptions, login_request, miniflux_api, miniflux_categories,
    persist_session, push_state, rename_remote_folder, replace_subscription_url, session_plan,
    session_with_token, set_subscription_folder, set_subscription_folder_url, subscribe_url,
    subscription_folder, subscription_stream, sync_remote_folders, token_request,
    unsubscribe_stream, unsubscribe_subscription_url, Creds, MinifluxCategory, Provider,
    RemoteFolder, Session, SessionPlan, Sub, SubCat, READ_TAG, STARRED_TAG,
};
use papr::json::{object1, Json};
use papr::net::{Body, Method, Reply, Request};

fn s(text: &str) -> String {
    text.to_string()
}

fn cat(id: &str, label: Option<&str>) -> SubCat {
    SubCat { id: s(id), label: label.map(s) }
}

fn pairs(v: &[(&str, &str)]) -> Vec<(String, String)> {
    v.iter().map(|(a, b)| (s(a), s(b))).collect()
}

// ── folders and tags ──

#[test]
fn folder_name_prefers_label() {
    assert_eq!(
        cat("user/-/label/Tech", Some("Tech")).folder_name().as_deref(),
        Some("Tech")
    );
}

#[test]
fn folder_name_falls_back_to_label_id() {
    assert_eq!(
        cat("user/-/label/科技", None).folder_name().as_deref(),
        Some("科技")
    );
}

#[test]
fn folder_name_skips_unnamed_categories() {
    assert_eq!(cat("user/-/state/com.google/read", None).folder_name(), None);
    assert_eq!(cat("", Some("   ")).folder_name(), None);
}

#[test]
fn folder_name_skips_freshrss_uncategorized() {
    assert_eq!(
        cat("user/-/label/Uncategorized", Some("Uncategorized")).folder_name(),
        None
    );
    assert_eq!(cat("user/-/label/uncategorized", None).folder_name(), None);
}

#[test]
fn sync_folder_name_prefers_label() {
    assert_eq!(
        desktop::folder_name(&cat("user/-/label/Tech", Some("Tech"))).as_deref(),
        Some("Tech")
    );
}

#[test]
fn sync_folder_name_falls_back_to_label_id() {
    assert_eq!(
        desktop::folder_name(&cat("user/-/label/科技", None)).as_deref(),
        Some("科技")
    );
}

#[test]
fn sync_folder_name_skips_unnamed_categories() {
    assert_eq!(desktop::folder_name(&cat("user/-/state/com.google/read", None)), None);
    assert_eq!(desktop::folder_name(&cat("", Some("   "))), None);
}

#[test]
fn the_desktop_app_takes_uncategorized_for_a_folder() {
    assert_eq!(
        desktop::folder_name(&cat("user/-/label/Uncategorized", None)).as_deref(),
        Some("Uncategorized")
    );
}

#[test]
fn state_tag_accepts_numeric_user_prefix() {
    let categories = vec![
        s("user/123/state/com.google/read"),
        s("user/-/state/com.google/starred"),
    ];
    assert!(has_state_tag(&categories, READ_TAG));
    assert!(has_state_tag(&categories, STARRED_TAG));
}

#[test]
fn exact_tags_are_those_of_the_own_user() {
    let categories = vec![s("user/123/state/com.google/read")];
    assert!(!has_exact_tag(&categories, READ_TAG));
    assert!(!has_state_tag(&categories, STARRED_TAG));
    assert!(has_exact_tag(&vec![s(READ_TAG)], READ_TAG));
    assert!(!has_state_tag(&vec![], READ_TAG));
}

#[test]
fn folder_ids_end_in_the_last_label() {
    assert_eq!(
        cat("user/-/label/a/label/b ", None).folder_name().as_deref(),
        Some("b")
    );
    assert_eq!(cat("user/-/label/", None).folder_name(), None);
    assert_eq!(cat("x", Some(" A ")).folder_name().as_deref(), Some("A"));
    let cats = vec![cat("", None), cat("", Some("A")), cat("", Some("B"))];
    assert_eq!(subscription_folder(&cats).as_deref(), Some("A"));
    assert_eq!(label_tag(" A "), "user/-/label/A");
    assert_eq!(folder_tag(&cat("user/7/label/A", Some("A"))), Some(s("user/7/label/A")));
    assert_eq!(folder_tag(&cat("7", Some("A"))), Some(s("user/-/label/A")));
    assert_eq!(folder_tag(&cat("7", None)), None);
}

// ── the server ──

#[test]
fn providers_go_by_their_setting() {
    assert_eq!(Provider::from_setting(None), Provider::FreshRss);
    assert_eq!(Provider::from_setting(Some(" miniflux\n")), Provider::Miniflux);
    assert_eq!(Provider::from_setting(Some("Miniflux")), Provider::FreshRss);
    for p in [Provider::FreshRss, Provider::Miniflux] {
        assert_eq!(Provider::from_setting(Some(p.as_str())), p);
    }
    assert_eq!(Provider::FreshRss.path_suffix(), "/api/greader.php");
    assert_eq!(Provider::Miniflux.path_suffix(), "");
}

#[test]
fn the_api_root_is_appended_once() {
    let fresh = |url: &str| greader_base(url, Provider::FreshRss);
    assert_eq!(fresh(" https://r.example/ "), "https://r.example/api/greader.php");
    assert_eq!(fresh("https://r.example/api/greader.php"), "https://r.example/api/greader.php");
    assert_eq!(
        fresh("https://r.example/api/greader.php/x//"),
        "https://r.example/api/greader.php/x"
    );
    assert_eq!(greader_base("https://m.example//", Provider::Miniflux), "https://m.example");
    for url in ["https://r.example", "r/", "", "x/api/greader.php/y"] {
        let once = fresh(url);
        assert_eq!(fresh(&once), once);
    }
    // White space inside the path is trimmed only when it comes to stand at
    // the end.
    let odd = greader_base("http://x /", Provider::Miniflux);
    assert_eq!(odd, "http://x ");
    assert_ne!(greader_base(&odd, Provider::Miniflux), odd);
}

fn session() -> Session {
    Session { base: s("https://b"), auth: s("A"), token: s("T") }
}

fn auth() -> Vec<(String, String)> {
    pairs(&[("Authorization", "GoogleLogin auth=A")])
}

fn posted(path: &str, form: &[(&str, &str)]) -> Request {
    Request {
        method: Method::Post,
        url: format!("https://b/reader/api/0/{path}"),
        headers: auth(),
        body: Body::Form(pairs(form)),
        timeout: None,
    }
}

#[test]
fn requests_carry_the_session() {
    let got = list_subscriptions(&session());
    assert_eq!(got.method, Method::Get);
    assert_eq!(got.url, "https://b/reader/api/0/subscription/list?output=json");
    assert_eq!(got.headers, auth());
    assert_eq!(got.body, Body::Empty);
    assert_eq!(
        subscribe_url(&session(), "https://f"),
        posted("subscription/edit", &[("ac", "subscribe"), ("s", "feed/https://f"), ("T", "T")])
    );
    assert_eq!(
        unsubscribe_stream(&session(), "feed/1"),
        posted("subscription/edit", &[("ac", "unsubscribe"), ("s", "feed/1"), ("T", "T")])
    );
    assert_eq!(
        set_subscription_folder(&session(), "feed/1", &vec![s("r1"), s("r2")], Some(" F ")),
        posted(
            "subscription/edit",
            &[
                ("ac", "edit"),
                ("s", "feed/1"),
                ("T", "T"),
                ("a", "user/-/label/F"),
                ("r", "r1"),
                ("r", "r2"),
            ],
        )
    );
    assert_eq!(
        set_subscription_folder(&session(), "feed/1", &vec![], Some("  ")),
        posted("subscription/edit", &[("ac", "edit"), ("s", "feed/1"), ("T", "T")])
    );
    assert_eq!(
        push_state(&session(), "i1", "starred", true),
        posted("edit-tag", &[("i", "i1"), ("a", STARRED_TAG), ("T", "T")])
    );
    assert_eq!(
        push_state(&session(), "i1", "read", false),
        posted("edit-tag", &[("i", "i1"), ("r", READ_TAG), ("T", "T")])
    );
}

fn refused() -> Reply {
    Reply::Refused { status: s("403 Forbidden"), detail: s("d"), message: s("m") }
}

#[test]
fn logins_give_tokens() {
    let request = login_request("https://b", "me", "pw");
    assert_eq!(request.method, Method::Post);
    assert_eq!(request.url, "https://b/accounts/ClientLogin");
    assert_eq!(request.body, Body::Form(pairs(&[("Email", "me"), ("Passwd", "pw")])));
    assert!(request.headers.is_empty());

    let login = |body: &str| client_login(Reply::Body(s(body)));
    assert_eq!(login("SID=x\r\nAuth= tok \nAuth=other"), Ok(s("tok")));
    let none = Err(AppError::Code(s("freshrssNoToken")));
    assert_eq!(login("SID=x"), none);
    assert_eq!(login("Auth=\nAuth=tok"), none);
    assert_eq!(login(" Auth=tok"), none);
    assert_eq!(client_login(refused()), Err(AppError::Code(s("freshrssLoginFailed"))));
    assert_eq!(
        client_login(Reply::Failed(s("dns"))),
        Err(AppError::Network(s("dns")))
    );
    assert_eq!(
        client_login(Reply::Broken(s("cut"))),
        Err(AppError::Network(s("cut")))
    );
}

#[test]
fn sessions_have_a_write_token() {
    let request = token_request("https://b", "A");
    assert_eq!(request.method, Method::Get);
    assert_eq!(request.url, "https://b/reader/api/0/token");
    assert_eq!(request.headers, auth());
    assert_eq!(
        session_with_token("https://b", s("A"), Reply::Body(s(" T\n"))),
        Ok(session())
    );
    let failed = Err(AppError::Code(s("freshrssLoginFailed")));
    assert_eq!(session_with_token("https://b", s("A"), refused()), failed);
    assert_eq!(session_with_token("https://b", s("A"), Reply::Failed(s("dns"))), failed);
    assert_eq!(
        session_with_token("https://b", s("A"), Reply::Broken(s("cut"))),
        Err(AppError::Network(s("cut")))
    );
    // The desktop app tells a server that refuses from one that is away.
    assert_eq!(desktop::session_with_token("https://b", s("A"), refused()), failed);
    assert_eq!(
        desktop::session_with_token("https://b", s("A"), Reply::Failed(s("dns"))),
        Err(AppError::Network(s("dns")))
    );
    assert_eq!(
        desktop::session_with_token("https://b", s("A"), Reply::Body(s(" T\n"))),
        Ok(session())
    );
}

// ── the stored connection ──

fn stored(settings: &[(String, String)]) -> Option<Creds> {
    let get = |key: &str| {
        settings.iter().rev().find(|(k, _)| k == key).map(|(_, v)| v.clone())
    };
    creds(
        get("freshrss_url"),
        get("freshrss_user"),
        get("freshrss_auth"),
        get("freshrss_pass"),
        get("miniflux_api_key"),
        get("freshrss_provider"),
    )
}

#[test]
fn connections_are_read_back() {
    let settings = connect(" https://m ", "me", &session(), Provider::Miniflux, Some(" k "));
    assert_eq!(
        settings,
        pairs(&[
            ("freshrss_url", "https://m"),
            ("freshrss_user", "me"),
            ("freshrss_auth", "A"),
            ("freshrss_pass", ""),
            ("freshrss_provider", "miniflux"),
            ("miniflux_api_key", "k"),
        ])
    );
    let c = stored(&settings).unwrap();
    assert_eq!(c.auth.as_deref(), Some("A"));
    assert_eq!(c.legacy_pass, None);
    assert_eq!(c.miniflux_api_key.as_deref(), Some("k"));
    assert_eq!(connected_url(Some(c)), Some((s("https://m"), s("miniflux"))));
    assert_eq!(connected_url(None), None);
    let fresh = connect("https://f", "me", &session(), Provider::FreshRss, Some("k"));
    assert_eq!(fresh, persist_session("https://f", "me", "A", Provider::FreshRss));
    assert_eq!(fresh.len(), 5);
}

#[test]
fn connections_are_forgotten() {
    let mut settings = connect("https://m", "me", &session(), Provider::Miniflux, Some("k"));
    settings.extend(disconnect());
    assert_eq!(stored(&settings), None);
    assert_eq!(disconnect().len(), 6);
    assert!(disconnect().iter().all(|(_, v)| v.is_empty()));
    let mut settings = connect("https://f", "me", &session(), Provider::FreshRss, None);
    settings.extend(desktop::disconnect());
    assert_eq!(stored(&settings), None);
    assert_eq!(desktop::disconnect().len(), 5);
}

#[test]
fn connections_need_a_url_a_user_and_a_secret() {
    let full = pairs(&[("freshrss_url", "u"), ("freshrss_user", "me"), ("freshrss_pass", "pw")]);
    let c = stored(&full).unwrap();
    assert_eq!(session_plan(&c), SessionPlan::Login { user: s("me"), pass: s("pw") });
    assert_eq!(c.provider, Provider::FreshRss);
    for missing in 0..3 {
        let mut less = full.clone();
        less[missing].1 = s("");
        assert_eq!(stored(&less), None);
    }
    let mut blank = full.clone();
    blank[0].1 = s("  ");
    assert_eq!(stored(&blank), None);
    let mut both = full.clone();
    both.push((s("freshrss_auth"), s("A")));
    assert_eq!(session_plan(&stored(&both).unwrap()), SessionPlan::Token(s("A")));
}

// ── subscriptions ──

fn sub(id: &str, url: Option<&str>, categories: Vec<SubCat>) -> Sub {
    Sub { id: s(id), url: url.map(s), title: None, categories }
}

#[test]
fn subscriptions_are_edited_by_url() {
    let subs = vec![
        sub("feed/9", Some("https://a"), vec![]),
        sub("", Some("https://b"), vec![]),
        sub("feed/x", None, vec![]),
    ];
    assert_eq!(subscription_stream(&subs[0], "https://a"), "feed/9");
    assert_eq!(subscription_stream(&subs[1], "https://b"), "feed/https://b");
    assert_eq!(
        unsubscribe_subscription_url(&session(), &subs, "https://a"),
        vec![unsubscribe_stream(&session(), "feed/9")]
    );
    assert_eq!(unsubscribe_subscription_url(&session(), &subs, "https://c"), vec![]);
    assert_eq!(
        replace_subscription_url(&session(), &subs, "https://b", "https://n"),
        vec![
            unsubscribe_stream(&session(), "feed/https://b"),
            subscribe_url(&session(), "https://n"),
        ]
    );
    assert_eq!(replace_subscription_url(&session(), &subs, "https://c", "https://n"), vec![]);
}

#[test]
fn a_moved_feed_leaves_its_other_folders() {
    let cats = vec![
        cat("user/-/label/A", Some("A")),
        cat("7", Some("B")),
        cat("user/-/label/Uncategorized", None),
    ];
    let subs = vec![sub("feed/9", Some("https://a"), cats)];
    assert_eq!(
        set_subscription_folder_url(&session(), &subs, "https://a", Some("B")),
        vec![set_subscription_folder(
            &session(),
            "feed/9",
            &vec![s("user/-/label/A")],
            Some("B"),
        )]
    );
    assert_eq!(
        set_subscription_folder_url(&session(), &subs, "https://a", None),
        vec![set_subscription_folder(
            &session(),
            "feed/9",
            &vec![s("user/-/label/A"), s("user/-/label/B")],
            None,
        )]
    );
    assert_eq!(
        set_subscription_folder_url(&session(), &subs, "https://n", Some("C")),
        vec![
            subscribe_url(&session(), "https://n"),
            set_subscription_folder(&session(), "feed/https://n", &vec![], Some("C")),
        ]
    );
}

// ── Miniflux categories ──

fn miniflux(key: Option<&str>) -> Creds {
    Creds {
        url: s(" https://m/ "),
        user: s("me"),
        auth: Some(s("A")),
        legacy_pass: None,
        miniflux_api_key: key.map(s),
        provider: Provider::Miniflux,
    }
}

fn api(method: Method, path: &str, body: Body) -> RemoteFolder {
    RemoteFolder::Send(Request {
        method,
        url: format!("https://m/v1/categories{path}"),
        headers: pairs(&[("X-Auth-Token", "k")]),
        body,
        timeout: None,
    })
}

fn titled(title: &str) -> Body {
    Body::Json(object1("title", Json::text(title)))
}

#[test]
fn remote_folders_are_miniflux_categories() {
    let c = miniflux(Some("k"));
    let categories = vec![
        MinifluxCategory { id: 1, title: s(" Tech ") },
        MinifluxCategory { id: 2, title: s("News") },
    ];
    assert_eq!(find_miniflux_category_id(&categories, "tech"), Some(1));
    assert_eq!(find_miniflux_category_id(&categories, "x"), None);
    assert_eq!(miniflux_api(&c), Some((s("https://m"), s("k"))));
    let list = miniflux_categories(&c).unwrap();
    assert_eq!(RemoteFolder::Send(list), api(Method::Get, "", Body::Empty));

    assert_eq!(create_remote_folder(&c, &categories, " TECH"), RemoteFolder::Present);
    assert_eq!(
        create_remote_folder(&c, &categories, " New "),
        api(Method::Post, "", titled("New"))
    );
    assert_eq!(
        rename_remote_folder(&c, &categories, "news", " N "),
        api(Method::Put, "/2", titled("N"))
    );
    assert_eq!(rename_remote_folder(&c, &categories, "x", "N"), RemoteFolder::NotHere);
    assert_eq!(
        delete_remote_folder(&c, &categories, "News"),
        api(Method::Delete, "/2", Body::Empty)
    );
    assert_eq!(delete_remote_folder(&c, &categories, "x"), RemoteFolder::NotHere);
    assert_eq!(sync_remote_folders(&categories), Some(vec![s(" Tech "), s("News")]));
    assert_eq!(sync_remote_folders(&vec![]), None);
}

#[test]
fn without_a_key_there_are_no_remote_folders() {
    let c = miniflux(None);
    assert_eq!(miniflux_api(&c), None);
    assert_eq!(miniflux_categories(&c), None);
    assert_eq!(create_remote_folder(&c, &vec![], "x"), RemoteFolder::NotHere);
    let mut fresh = miniflux(Some("k"));
    fresh.provider = Provider::FreshRss;
    assert_eq!(miniflux_api(&fresh), None);
    assert_eq!(delete_remote_folder(&fresh, &vec![], "x"), RemoteFolder::NotHere);
}
