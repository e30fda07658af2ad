//! The Google Reader compatible API that FreshRSS and Miniflux serve: where
//! it sits under a server's URL, how a session is had, which requests change
//! what on the server, and how its replies are read.

use vstd::prelude::*;
use crate::error::{text_outcome, AppError, ErrorView};
use crate::json::{object1, Json, JsonTree};
use crate::net::{
    pairs, pairs1, pairs2, pairs3, put_pair, Body, BodyView, Method, Reply, Request, RequestView,
};
use crate::text;

verus! {

/// The tag of an article that has been read.
pub const READ_TAG: &'static str = "user/-/state/com.google/read";

/// The tag of a starred article.
pub const STARRED_TAG: &'static str = "user/-/state/com.google/starred";

/// The stream of everything a user subscribes to.
pub const READING_LIST: &'static str = "user/-/state/com.google/reading-list";

// ───────────────────────────── state tags ─────────────────────────────

/// Category `c` says `tag`: it is the tag itself, or ends as the tag does
/// behind its `user/-`, since servers may write a numeric user there.
pub open spec fn says_tag(c: Seq<char>, tag: Seq<char>) -> bool {
    c == tag || text::ends(c, text::stripped_start(tag, "user/-"@))
}

/// Whether one of an item's categories says `tag`.
pub fn has_state_tag(categories: &Vec<String>, tag: &str) -> (r: bool)
    ensures
        r == exists|i: int| 0 <= i < categories@.len() && says_tag(#[trigger] categories@[i]@, tag@),
{
    let tail = text::strip_start(tag, "user/-");
    for i in 0..categories.len()
        invariant
            tail@ == text::stripped_start(tag@, "user/-"@),
            forall|j: int| 0 <= j < i ==> !says_tag(#[trigger] categories@[j]@, tag@),
    {
        let c = categories[i].as_str();
        if text::same(c, tag) || text::ends_with(c, tail.as_str()) {
            assert(says_tag(categories@[i as int]@, tag@));
            return true;
        }
    }
    false
}

/// A state tag is understood whatever user a server writes into it: `-`, a
/// number, or anything else.
pub proof fn law_state_tags_of_any_user(user: Seq<char>)
    ensures
        says_tag(
            "user/"@ + user + "/state/com.google/read"@,
            "user/-/state/com.google/read"@,
        ),
        says_tag(
            "user/"@ + user + "/state/com.google/starred"@,
            "user/-/state/com.google/starred"@,
        ),
{
    reveal_strlit("user/");
    reveal_strlit("user/-");
    reveal_strlit("/state/com.google/read");
    reveal_strlit("/state/com.google/starred");
    reveal_strlit("user/-/state/com.google/read");
    reveal_strlit("user/-/state/com.google/starred");
    let read = "user/-/state/com.google/read"@;
    let starred = "user/-/state/com.google/starred"@;
    assert(read.subrange(0, 6) =~= "user/-"@);
    assert(read.skip(6) =~= "/state/com.google/read"@);
    assert(read.skip(6).subrange(0, 6)[0] != "user/-"@[0]);
    assert(text::stripped_start(read.skip(6), "user/-"@) == read.skip(6));
    assert(text::stripped_start(read, "user/-"@) == "/state/com.google/read"@);
    assert(starred.subrange(0, 6) =~= "user/-"@);
    assert(starred.skip(6) =~= "/state/com.google/starred"@);
    assert(starred.skip(6).subrange(0, 6)[0] != "user/-"@[0]);
    assert(text::stripped_start(starred.skip(6), "user/-"@) == starred.skip(6));
    assert(text::stripped_start(starred, "user/-"@) == "/state/com.google/starred"@);
    let a = "user/"@ + user + "/state/com.google/read"@;
    let b = "user/"@ + user + "/state/com.google/starred"@;
    assert(a.subrange(a.len() - 22, a.len() as int) =~= "/state/com.google/read"@);
    assert(b.subrange(b.len() - 25, b.len() as int) =~= "/state/com.google/starred"@);
}

/// Whether one of an item's categories is exactly `tag`.
pub fn has_exact_tag(categories: &Vec<String>, tag: &str) -> (r: bool)
    ensures
        r == text::views(categories@).contains(tag@),
{
    for i in 0..categories.len()
        invariant
            forall|j: int| 0 <= j < i ==> #[trigger] categories@[j]@ != tag@,
    {
        if text::same(categories[i].as_str(), tag) {
            assert(text::views(categories@)[i as int] == tag@);
            return true;
        }
    }
    assert forall|j: int| 0 <= j < categories@.len() implies text::views(categories@)[j]
        != tag@ by {
        assert(categories@[j]@ != tag@);
    }
    false
}

// ───────────────────────────── providers ─────────────────────────────

/// Which compatible server the user is connected to. The protocol is the
/// same; only the place of its root under the server's URL differs.
#[derive(Clone, Copy, Debug, PartialEq, Eq, Structural)]
pub enum Provider {
    FreshRss,
    Miniflux,
}

/// What a server appends to its URL to reach the API root.
pub open spec fn suffix_of(provider: Provider) -> Seq<char> {
    match provider {
        Provider::FreshRss => "/api/greader.php"@,
        Provider::Miniflux => ""@,
    }
}

/// The name a provider is stored under.
pub open spec fn name_of(provider: Provider) -> Seq<char> {
    match provider {
        Provider::FreshRss => "freshrss"@,
        Provider::Miniflux => "miniflux"@,
    }
}

/// The provider that a stored setting names: FreshRSS unless it says
/// otherwise, so a missing or unknown setting means FreshRSS.
pub open spec fn provider_of(setting: Option<Seq<char>>) -> Provider {
    if text::trimmed(text::or_else(setting, ""@)) == "miniflux"@ {
        Provider::Miniflux
    } else {
        Provider::FreshRss
    }
}

impl Provider {
    /// What the server appends to its URL to reach the API root.
    pub fn path_suffix(self) -> (r: &'static str)
        ensures
            r@ == suffix_of(self),
    {
        match self {
            Provider::FreshRss => "/api/greader.php",
            Provider::Miniflux => "",
        }
    }

    /// The provider that a stored setting names.
    pub fn from_setting(s: Option<&str>) -> (r: Self)
        ensures
            r == provider_of(text::str_of(s)),
    {
        let setting = match s {
            Some(s) => s,
            None => "",
        };
        if text::same(text::trim(setting).as_str(), "miniflux") {
            Provider::Miniflux
        } else {
            Provider::FreshRss
        }
    }

    /// The name the provider is stored under.
    pub fn as_str(self) -> (r: &'static str)
        ensures
            r@ == name_of(self),
    {
        match self {
            Provider::FreshRss => "freshrss",
            Provider::Miniflux => "miniflux",
        }
    }
}

/// A provider is found again under the name it is stored under.
pub proof fn law_provider_setting_round_trip(provider: Provider)
    ensures
        provider_of(Some(name_of(provider))) == provider,
{
    reveal_strlit("freshrss");
    reveal_strlit("miniflux");
    let s = name_of(provider);
    assert(text::trimmed_start(s) == s);
    assert(text::trimmed_end(s) == s);
    assert("freshrss"@[0] != "miniflux"@[0]);
}

/// A server URL without white space around it nor slashes behind it.
pub open spec fn plain_url(url: Seq<char>) -> Seq<char> {
    text::trimmed_end_of(text::trimmed(url), '/')
}

/// The API root under a server's URL: the URL itself where it already holds
/// the provider's path, else the URL with that path appended.
pub open spec fn base_of(url: Seq<char>, provider: Provider) -> Seq<char> {
    let t = plain_url(url);
    let suffix = suffix_of(provider);
    if text::ends(t, suffix) || text::contains(t, suffix + "/"@) {
        t
    } else {
        t + suffix
    }
}

/// The API root under a server's URL.
pub fn greader_base(url: &str, provider: Provider) -> (r: String)
    ensures
        r@ == base_of(url@, provider),
{
    let t = text::trim_end_of(text::trim(url).as_str(), '/');
    let suffix = provider.path_suffix();
    let inner = text::cat(suffix, "/");
    if text::ends_with(t.as_str(), suffix) || text::holds(t.as_str(), inner.as_str()) {
        t
    } else {
        text::cat(t.as_str(), suffix)
    }
}

proof fn lemma_trimmed_end_fixed(s: Seq<char>)
    ensures
        s.len() == 0 || !text::is_space(s.last()) ==> text::trimmed_end(s) == s,
        text::trimmed_end(s).len() == 0 || !text::is_space(text::trimmed_end(s).last()),
        text::trimmed_end(s).len() <= s.len(),
        text::trimmed_end(s) == s.take(text::trimmed_end(s).len() as int),
    decreases s.len(),
{
    if s.len() > 0 && text::is_space(s.last()) {
        lemma_trimmed_end_fixed(s.drop_last());
        let n = text::trimmed_end(s).len() as int;
        assert(s.drop_last().take(n) =~= s.take(n));
    } else {
        assert(s.take(s.len() as int) =~= s);
    }
}

proof fn lemma_trimmed_start_fixed(s: Seq<char>)
    ensures
        text::trimmed_start(s).len() == 0 || !text::is_space(text::trimmed_start(s)[0]),
    decreases s.len(),
{
    if s.len() > 0 && text::is_space(s[0]) {
        lemma_trimmed_start_fixed(s.drop_first());
    }
}

proof fn lemma_trimmed_end_of_fixed(s: Seq<char>, c: char)
    ensures
        text::trimmed_end_of(s, c).len() == 0 || text::trimmed_end_of(s, c).last() != c,
        text::trimmed_end_of(s, c).len() <= s.len(),
        text::trimmed_end_of(s, c) == s.take(text::trimmed_end_of(s, c).len() as int),
    decreases s.len(),
{
    if s.len() > 0 && s.last() == c {
        lemma_trimmed_end_of_fixed(s.drop_last(), c);
        let n = text::trimmed_end_of(s, c).len() as int;
        assert(s.drop_last().take(n) =~= s.take(n));
    } else {
        assert(s.take(s.len() as int) =~= s);
    }
}

/// Normalising a server's URL is idempotent: a URL that already holds the
/// API path is left as it is. Left out is a URL that holds the path and has
/// white space between its last character and the slashes behind it, where
/// the first pass keeps that white space and a second one drops it.
pub proof fn law_greader_base_idempotent(url: Seq<char>, provider: Provider)
    requires
        base_of(url, provider) == plain_url(url) ==> plain_url(url).len() == 0 || !text::is_space(
            plain_url(url).last(),
        ),
    ensures
        base_of(base_of(url, provider), provider) == base_of(url, provider),
{
    let suffix = suffix_of(provider);
    let u = text::trimmed(url);
    let t = plain_url(url);
    let b = base_of(url, provider);
    reveal_strlit("/api/greader.php");
    reveal_strlit("");
    reveal_strlit("/");
    lemma_trimmed_start_fixed(url);
    lemma_trimmed_end_fixed(text::trimmed_start(url));
    lemma_trimmed_end_of_fixed(u, '/');
    if b.len() > 0 {
        if t.len() > 0 {
            assert(t[0] == u[0]);
            assert(u[0] == text::trimmed_start(url)[0]);
            assert(b[0] == t[0]);
        }
        assert(!text::is_space(b[0]));
        if b == t {
            assert(!text::is_space(b.last()));
            assert(b.last() != '/');
        } else {
            assert(b.last() == suffix.last());
        }
    }
    assert(text::trimmed_start(b) == b);
    lemma_trimmed_end_fixed(b);
    assert(text::trimmed(b) == b);
    assert(text::trimmed_end_of(b, '/') == b);
    assert(plain_url(b) == b);
    if b != t {
        assert(b.subrange(b.len() - suffix.len(), b.len() as int) =~= suffix);
        assert(text::ends(b, suffix));
    }
}

// ───────────────────────────── sessions ─────────────────────────────

/// An authenticated session with a server.
#[derive(Debug, PartialEq, Eq)]
pub struct Session {
    pub base: String,
    pub auth: String,
    pub token: String,
}

/// What a [`Session`] holds.
pub struct SessionView {
    pub base: Seq<char>,
    pub auth: Seq<char>,
    pub token: Seq<char>,
}

impl View for Session {
    type V = SessionView;

    open spec fn view(&self) -> SessionView {
        SessionView { base: self.base@, auth: self.auth@, token: self.token@ }
    }
}

/// The header that authenticates a request.
pub open spec fn auth_headers(auth: Seq<char>) -> Seq<(Seq<char>, Seq<char>)> {
    seq![("Authorization"@, "GoogleLogin auth="@ + auth)]
}

/// A read of the API.
pub open spec fn get_request(s: SessionView, path: Seq<char>) -> RequestView {
    RequestView {
        method: Method::Get,
        url: s.base + "/reader/api/0/"@ + path,
        headers: auth_headers(s.auth),
        body: BodyView::Empty,
        timeout: None,
    }
}

/// A change through the API.
pub open spec fn post_request(
    s: SessionView,
    path: Seq<char>,
    form: Seq<(Seq<char>, Seq<char>)>,
) -> RequestView {
    RequestView {
        method: Method::Post,
        url: s.base + "/reader/api/0/"@ + path,
        headers: auth_headers(s.auth),
        body: BodyView::Form(form),
        timeout: None,
    }
}

impl Session {
    /// A read of the API.
    pub fn get(&self, path: &str) -> (r: Request)
        ensures
            r@ == get_request(self@, path@),
    {
        let auth = text::cat("GoogleLogin auth=", self.auth.as_str());
        Request {
            method: Method::Get,
            url: text::cat3(self.base.as_str(), "/reader/api/0/", path),
            headers: pairs1("Authorization", auth.as_str()),
            body: Body::Empty,
            timeout: None,
        }
    }

    /// A change through the API.
    pub fn post(&self, path: &str, form: Vec<(String, String)>) -> (r: Request)
        ensures
            r@ == post_request(self@, path@, pairs(form@)),
    {
        let auth = text::cat("GoogleLogin auth=", self.auth.as_str());
        Request {
            method: Method::Post,
            url: text::cat3(self.base.as_str(), "/reader/api/0/", path),
            headers: pairs1("Authorization", auth.as_str()),
            body: Body::Form(form),
            timeout: None,
        }
    }
}

/// The exchange of a user name and password for an auth token.
pub open spec fn login_exchange(base: Seq<char>, user: Seq<char>, pass: Seq<char>) -> RequestView {
    RequestView {
        method: Method::Post,
        url: base + "/accounts/ClientLogin"@,
        headers: Seq::empty(),
        body: BodyView::Form(seq![("Email"@, user), ("Passwd"@, pass)]),
        timeout: None,
    }
}

/// The exchange of a user name and password for an auth token.
pub fn login_request(base: &str, user: &str, pass: &str) -> (r: Request)
    ensures
        r@ == login_exchange(base@, user@, pass@),
{
    let headers: Vec<(String, String)> = Vec::new();
    assert(pairs(headers@) =~= Seq::<(Seq<char>, Seq<char>)>::empty());
    Request {
        method: Method::Post,
        url: text::cat(base, "/accounts/ClientLogin"),
        headers,
        body: Body::Form(pairs2("Email", user, "Passwd", pass)),
        timeout: None,
    }
}

/// What follows `Auth=` in the first of these lines that starts so.
pub open spec fn auth_line(lines: Seq<Seq<char>>) -> Option<Seq<char>>
    decreases lines.len(),
{
    if lines.len() == 0 {
        None
    } else if text::begins(lines[0], "Auth="@) {
        Some(lines[0].skip("Auth="@.len() as int))
    } else {
        auth_line(lines.drop_first())
    }
}

/// The auth token in a login's answer: what the first `Auth=` line holds,
/// white space aside.
pub open spec fn token_in(body: Seq<char>) -> Option<Seq<char>> {
    text::nonempty_of(text::trimmed_of(auth_line(text::pieces(body, '\n'))))
}

/// What a login comes to.
pub open spec fn login_outcome(reply: Reply) -> Result<Seq<char>, ErrorView> {
    match reply {
        Reply::Failed(e) => Err(ErrorView::Network(e@)),
        Reply::Refused { status, detail, message } => Err(ErrorView::Code("freshrssLoginFailed"@)),
        Reply::Broken(e) => Err(ErrorView::Network(e@)),
        Reply::Body(body) => match token_in(body@) {
            Some(token) => Ok(token),
            None => Err(ErrorView::Code("freshrssNoToken"@)),
        },
    }
}

/// The auth token that a login's reply grants.
pub fn client_login(reply: Reply) -> (r: Result<String, AppError>)
    ensures
        text_outcome(r) == login_outcome(reply),
{
    match reply {
        Reply::Failed(e) => Err(AppError::Network(e)),
        Reply::Refused { status: _, detail: _, message: _ } => Err(
            AppError::code("freshrssLoginFailed"),
        ),
        Reply::Broken(e) => Err(AppError::Network(e)),
        Reply::Body(body) => {
            let lines = text::split(body.as_str(), '\n');
            let ghost all = text::views(lines@);
            assert(all.skip(0) =~= all);
            for i in 0..lines.len()
                invariant
                    all == text::views(lines@),
                    all == text::pieces(body@, '\n'),
                    auth_line(all) == auth_line(all.skip(i as int)),
                    reply == Reply::Body(body),
            {
                let ghost rest = all.skip(i as int);
                assert(rest[0] == lines@[i as int]@);
                assert(rest.drop_first() =~= all.skip(i + 1));
                match text::strip_prefix(lines[i].as_str(), "Auth=") {
                    Some(found) => {
                        return match text::named(Some(found.as_str())) {
                            Some(token) => Ok(token),
                            None => Err(AppError::code("freshrssNoToken")),
                        };
                    },
                    None => {},
                }
            }
            assert(all.skip(all.len() as int).len() == 0);
            Err(AppError::code("freshrssNoToken"))
        },
    }
}

/// The request for a write token.
pub open spec fn token_exchange(base: Seq<char>, auth: Seq<char>) -> RequestView {
    RequestView {
        method: Method::Get,
        url: base + "/reader/api/0/token"@,
        headers: auth_headers(auth),
        body: BodyView::Empty,
        timeout: None,
    }
}

/// The request for a write token.
pub fn token_request(base: &str, auth: &str) -> (r: Request)
    ensures
        r@ == token_exchange(base@, auth@),
{
    let header = text::cat("GoogleLogin auth=", auth);
    Request {
        method: Method::Get,
        url: text::cat(base, "/reader/api/0/token"),
        headers: pairs1("Authorization", header.as_str()),
        body: Body::Empty,
        timeout: None,
    }
}

/// The session that a write token opens. An answer that cannot be had means
/// that the auth token is no longer valid.
pub open spec fn session_outcome(base: Seq<char>, auth: Seq<char>, reply: Reply) -> Result<
    SessionView,
    ErrorView,
> {
    match reply {
        Reply::Body(token) => Ok(SessionView { base, auth, token: text::trimmed(token@) }),
        Reply::Broken(e) => Err(ErrorView::Network(e@)),
        _ => Err(ErrorView::Code("freshrssLoginFailed"@)),
    }
}

/// What a fallible function that gives a session came back with.
pub open spec fn session_result(r: Result<Session, AppError>) -> Result<SessionView, ErrorView> {
    match r {
        Ok(s) => Ok(s@),
        Err(e) => Err(e@),
    }
}

/// The session that a write token's reply opens.
pub fn session_with_token(base: &str, auth: String, reply: Reply) -> (r: Result<Session, AppError>)
    ensures
        session_result(r) == session_outcome(base@, auth@, reply),
{
    match reply {
        Reply::Body(token) => Ok(
            Session { base: base.to_owned(), auth, token: text::trim(token.as_str()) },
        ),
        Reply::Broken(e) => Err(AppError::Network(e)),
        _ => Err(AppError::code("freshrssLoginFailed")),
    }
}

// ─────────────────────────── stored connection ───────────────────────────

/// A stored connection. The long-lived auth token is kept rather than the
/// password; `legacy_pass` is a password from an older install, awaiting its
/// one exchange for a token.
#[derive(Debug, PartialEq, Eq)]
pub struct Creds {
    pub url: String,
    pub user: String,
    pub auth: Option<String>,
    pub legacy_pass: Option<String>,
    pub miniflux_api_key: Option<String>,
    pub provider: Provider,
}

/// What [`Creds`] hold.
pub struct CredsView {
    pub url: Seq<char>,
    pub user: Seq<char>,
    pub auth: Option<Seq<char>>,
    pub legacy_pass: Option<Seq<char>>,
    pub miniflux_api_key: Option<Seq<char>>,
    pub provider: Provider,
}

impl View for Creds {
    type V = CredsView;

    open spec fn view(&self) -> CredsView {
        CredsView {
            url: self.url@,
            user: self.user@,
            auth: text::view_of(self.auth),
            legacy_pass: text::view_of(self.legacy_pass),
            miniflux_api_key: text::view_of(self.miniflux_api_key),
            provider: self.provider,
        }
    }
}

/// What is stored under the settings' names.
pub type Stored = Map<Seq<char>, Seq<char>>;

/// The setting of this name, where it is stored.
pub open spec fn setting(stored: Stored, name: Seq<char>) -> Option<Seq<char>> {
    if stored.contains_key(name) {
        Some(stored[name])
    } else {
        None
    }
}

/// What is stored after these settings were written, one after the other.
pub open spec fn written(stored: Stored, settings: Seq<(Seq<char>, Seq<char>)>) -> Stored
    decreases settings.len(),
{
    if settings.len() == 0 {
        stored
    } else {
        written(stored, settings.drop_last()).insert(settings.last().0, settings.last().1)
    }
}

/// The connection that the stored settings describe: one needs a URL, a user
/// and an auth token or an old password. The names say `freshrss` whatever
/// the provider.
pub open spec fn connection(stored: Stored) -> Option<CredsView> {
    connection_of(
        setting(stored, "freshrss_url"@),
        setting(stored, "freshrss_user"@),
        setting(stored, "freshrss_auth"@),
        setting(stored, "freshrss_pass"@),
        setting(stored, "miniflux_api_key"@),
        setting(stored, "freshrss_provider"@),
    )
}

/// The connection that six settings describe.
pub open spec fn connection_of(
    url: Option<Seq<char>>,
    user: Option<Seq<char>>,
    auth: Option<Seq<char>>,
    pass: Option<Seq<char>>,
    miniflux_api_key: Option<Seq<char>>,
    provider: Option<Seq<char>>,
) -> Option<CredsView> {
    let found = CredsView {
        url: text::or_else(url, Seq::empty()),
        user: text::or_else(user, Seq::empty()),
        auth: text::nonempty_of(auth),
        legacy_pass: text::nonempty_of(pass),
        miniflux_api_key: text::nonempty_of(miniflux_api_key),
        provider: provider_of(provider),
    };
    if text::trimmed(found.url).len() == 0 || found.user.len() == 0 || (found.auth is None
        && found.legacy_pass is None) {
        None
    } else {
        Some(found)
    }
}

/// What an optional connection is.
pub open spec fn creds_of(creds: Option<Creds>) -> Option<CredsView> {
    match creds {
        Some(c) => Some(c@),
        None => None,
    }
}

/// The connection that the stored settings describe, each handed over as it
/// was read: URL, user, auth token, old password, Miniflux API key, provider.
pub fn creds(
    url: Option<String>,
    user: Option<String>,
    auth: Option<String>,
    pass: Option<String>,
    miniflux_api_key: Option<String>,
    provider: Option<String>,
) -> (r: Option<Creds>)
    ensures
        creds_of(r) == connection_of(
            text::view_of(url),
            text::view_of(user),
            text::view_of(auth),
            text::view_of(pass),
            text::view_of(miniflux_api_key),
            text::view_of(provider),
        ),
{
    proof {
        reveal_strlit("");
    }
    assert(""@ =~= Seq::<char>::empty());
    let url = text::or(url, "");
    let user = text::or(user, "");
    let auth = text::nonempty(auth);
    let legacy_pass = text::nonempty(pass);
    let miniflux_api_key = text::nonempty(miniflux_api_key);
    let provider = Provider::from_setting(text::slice_of(&provider));
    if text::trim(url.as_str()).as_str().is_empty() || user.as_str().is_empty() || (auth.is_none()
        && legacy_pass.is_none()) {
        return None;
    }
    Some(Creds { url, user, auth, legacy_pass, miniflux_api_key, provider })
}

/// The URL and the provider's name of a connection.
pub open spec fn connected(creds: Option<CredsView>) -> Option<(Seq<char>, Seq<char>)> {
    match creds {
        Some(c) => Some((c.url, name_of(c.provider))),
        None => None,
    }
}

/// The URL and the provider's name of the stored connection; `None` where
/// there is none.
pub fn connected_url(creds: Option<Creds>) -> (r: Option<(String, String)>)
    ensures
        connected(creds_of(creds)) == (match r {
            Some(p) => Some((p.0@, p.1@)),
            None => None,
        }),
{
    match creds {
        Some(c) => Some((c.url, c.provider.as_str().to_owned())),
        None => None,
    }
}

/// The settings that store a verified connection: the auth token, and an
/// empty password.
pub open spec fn session_settings(
    url: Seq<char>,
    user: Seq<char>,
    auth: Seq<char>,
    provider: Provider,
) -> Seq<(Seq<char>, Seq<char>)> {
    seq![
        ("freshrss_url"@, text::trimmed(url)),
        ("freshrss_user"@, user),
        ("freshrss_auth"@, auth),
        ("freshrss_pass"@, ""@),
        ("freshrss_provider"@, name_of(provider)),
    ]
}

/// The settings to write for a verified connection.
pub fn persist_session(url: &str, user: &str, auth: &str, provider: Provider) -> (r: Vec<
    (String, String),
>)
    ensures
        pairs(r@) == session_settings(url@, user@, auth@, provider),
{
    let mut v: Vec<(String, String)> = Vec::new();
    put_pair(&mut v, "freshrss_url", text::trim(url).as_str());
    put_pair(&mut v, "freshrss_user", user);
    put_pair(&mut v, "freshrss_auth", auth);
    put_pair(&mut v, "freshrss_pass", "");
    put_pair(&mut v, "freshrss_provider", provider.as_str());
    assert(pairs(v@) =~= session_settings(url@, user@, auth@, provider));
    v
}

/// The settings to write once the server has accepted a connection: those of
/// the session and, for Miniflux, its API key.
pub open spec fn connect_settings(
    url: Seq<char>,
    user: Seq<char>,
    auth: Seq<char>,
    provider: Provider,
    api_key: Option<Seq<char>>,
) -> Seq<(Seq<char>, Seq<char>)> {
    let session = session_settings(url, user, auth, provider);
    if provider == Provider::Miniflux {
        session.push(("miniflux_api_key"@, text::trimmed(text::or_else(api_key, ""@))))
    } else {
        session
    }
}

/// The settings to write once the server has accepted a connection.
pub fn connect(
    url: &str,
    user: &str,
    session: &Session,
    provider: Provider,
    api_key: Option<&str>,
) -> (r: Vec<(String, String)>)
    ensures
        pairs(r@) == connect_settings(
            url@,
            user@,
            session@.auth,
            provider,
            text::str_of(api_key),
        ),
{
    let mut v = persist_session(url, user, session.auth.as_str(), provider);
    match provider {
        Provider::Miniflux => {
            let key = match api_key {
                Some(key) => key,
                None => "",
            };
            put_pair(&mut v, "miniflux_api_key", text::trim(key).as_str());
        },
        Provider::FreshRss => {},
    }
    v
}

/// The settings that forget a connection.
pub open spec fn disconnect_settings() -> Seq<(Seq<char>, Seq<char>)> {
    seq![
        ("freshrss_url"@, ""@),
        ("freshrss_user"@, ""@),
        ("freshrss_auth"@, ""@),
        ("freshrss_pass"@, ""@),
        ("freshrss_provider"@, ""@),
        ("miniflux_api_key"@, ""@),
    ]
}

/// The settings to write to forget a connection.
pub fn disconnect() -> (r: Vec<(String, String)>)
    ensures
        pairs(r@) == disconnect_settings(),
{
    let mut v: Vec<(String, String)> = Vec::new();
    put_pair(&mut v, "freshrss_url", "");
    put_pair(&mut v, "freshrss_user", "");
    put_pair(&mut v, "freshrss_auth", "");
    put_pair(&mut v, "freshrss_pass", "");
    put_pair(&mut v, "freshrss_provider", "");
    put_pair(&mut v, "miniflux_api_key", "");
    assert(pairs(v@) =~= disconnect_settings());
    v
}

/// The names of the settings are told apart by their lengths and letters.
pub proof fn lemma_setting_names()
    ensures
        "freshrss_url"@.len() == 12,
        "freshrss_user"@.len() == 13,
        "freshrss_user"@[9] == 'u',
        "freshrss_auth"@.len() == 13,
        "freshrss_auth"@[9] == 'a',
        "freshrss_pass"@.len() == 13,
        "freshrss_pass"@[9] == 'p',
        "freshrss_provider"@.len() == 17,
        "miniflux_api_key"@.len() == 16,
        ""@.len() == 0,
{
    reveal_strlit("freshrss_url");
    reveal_strlit("freshrss_user");
    reveal_strlit("freshrss_auth");
    reveal_strlit("freshrss_pass");
    reveal_strlit("freshrss_provider");
    reveal_strlit("miniflux_api_key");
    reveal_strlit("");
}

/// A stored connection is read back, with the auth token, without any
/// password, and with the URL as it was typed but for white space around it.
pub proof fn law_connection_read_back(
    stored: Stored,
    url: Seq<char>,
    user: Seq<char>,
    auth: Seq<char>,
    provider: Provider,
    api_key: Option<Seq<char>>,
)
    requires
        text::trimmed(url).len() > 0,
        user.len() > 0,
        auth.len() > 0,
    ensures
        connection(written(stored, connect_settings(url, user, auth, provider, api_key))) matches Some(
            c,
        ) && c.url == text::trimmed(url) && c.user == user && c.auth == Some(auth)
            && c.legacy_pass is None && c.provider == provider && (provider == Provider::Miniflux
            ==> c.miniflux_api_key == text::nonempty_of(text::trimmed_of(api_key))),
{
    lemma_setting_names();
    law_provider_setting_round_trip(provider);
    let s = connect_settings(url, user, auth, provider, api_key);
    let five = session_settings(url, user, auth, provider);
    reveal_with_fuel(written, 7);
    assert(five.drop_last().drop_last().drop_last().drop_last().drop_last().len() == 0);
    if provider == Provider::Miniflux {
        assert(s.drop_last() =~= five);
    }
    let t = text::trimmed_start(url);
    lemma_trimmed_start_fixed(url);
    lemma_trimmed_end_fixed(t);
    let u = text::trimmed(url);
    assert(u[0] == t[0]);
    assert(text::trimmed_start(u) == u);
    lemma_trimmed_end_fixed(u);
    assert(text::trimmed(u) == u);
    assert(text::trimmed(""@) =~= ""@);
    let after = written(stored, s);
    assert(setting(after, "freshrss_url"@) == Some(u));
    assert(setting(after, "freshrss_user"@) == Some(user));
    assert(setting(after, "freshrss_auth"@) == Some(auth));
    assert(setting(after, "freshrss_pass"@) == Some(""@));
    assert(setting(after, "freshrss_provider"@) == Some(name_of(provider)));
}

/// After a disconnect no connection is stored, whatever was before.
pub proof fn law_disconnect_forgets(stored: Stored)
    ensures
        connection(written(stored, disconnect_settings())) is None,
{
    lemma_setting_names();
    reveal_with_fuel(written, 7);
    let d = disconnect_settings();
    assert(d.drop_last().drop_last().drop_last().drop_last().drop_last().drop_last().len() == 0);
    assert(setting(written(stored, d), "freshrss_url"@) == Some(""@));
    assert(text::trimmed(""@) =~= ""@);
}

/// How the stored connection gets a session.
#[derive(Debug, PartialEq, Eq)]
pub enum SessionPlan {
    /// By the stored auth token.
    Token(String),
    /// By a login with the old password, whose token is then stored.
    Login { user: String, pass: String },
}

/// How the stored connection gets a session: by its auth token where it has
/// one, else by a login.
pub fn session_plan(creds: &Creds) -> (r: SessionPlan)
    ensures
        match creds@.auth {
            Some(auth) => r matches SessionPlan::Token(t) && t@ == auth,
            None => r matches SessionPlan::Login { user, pass } && user@ == creds@.user && pass@
                == text::or_else(creds@.legacy_pass, Seq::empty()),
        },
{
    match &creds.auth {
        Some(auth) => SessionPlan::Token(auth.clone()),
        None => {
            let pass = match &creds.legacy_pass {
                Some(pass) => pass.clone(),
                None => String::new(),
            };
            SessionPlan::Login { user: creds.user.clone(), pass }
        },
    }
}

// ───────────────────────────── subscriptions ─────────────────────────────

/// A category a subscription belongs to: FreshRSS and Miniflux folders.
#[derive(Debug, PartialEq, Eq)]
pub struct SubCat {
    pub id: String,
    pub label: Option<String>,
}

/// A server-side subscription.
#[derive(Debug, PartialEq, Eq)]
pub struct Sub {
    pub id: String,
    pub url: Option<String>,
    pub title: Option<String>,
    pub categories: Vec<SubCat>,
}

/// The name a category carries: its label, or else what follows the last
/// `/label/` in its id, white space aside.
pub open spec fn category_name(cat: SubCat) -> Option<Seq<char>> {
    match text::nonempty_of(text::trimmed_of(text::view_of(cat.label))) {
        Some(label) => Some(label),
        None => text::nonempty_of(text::trimmed_of(id_name(cat.id@))),
    }
}

/// What follows the last `/label/` in a category's id.
pub open spec fn id_name(id: Seq<char>) -> Option<Seq<char>> {
    if text::contains(id, "/label/"@) {
        let at = choose|i: int| text::last_at(id, "/label/"@, i);
        Some(id.skip(at + "/label/"@.len()))
    } else {
        None
    }
}

/// The folder a category stands for: its name, but for the label under which
/// FreshRSS files what nobody filed.
pub open spec fn folder_of(cat: SubCat) -> Option<Seq<char>> {
    match category_name(cat) {
        Some(name) => if text::same_but_case(name, "Uncategorized"@) {
            None
        } else {
            Some(name)
        },
        None => None,
    }
}

/// The folder of the first category that stands for one.
pub open spec fn folder_among(cats: Seq<SubCat>) -> Option<Seq<char>>
    decreases cats.len(),
{
    if cats.len() == 0 {
        None
    } else {
        match folder_of(cats[0]) {
            Some(name) => Some(name),
            None => folder_among(cats.drop_first()),
        }
    }
}

impl SubCat {
    /// The name the category carries.
    pub fn name(&self) -> (r: Option<String>)
        ensures
            text::view_of(r) == category_name(*self),
    {
        match text::named(text::slice_of(&self.label)) {
            Some(label) => Some(label),
            None => match text::find_last(self.id.as_str(), "/label/") {
                Some(at) => {
                    let chars = text::chars_of(self.id.as_str());
                    let end: usize = chars.len();
                    proof {
                        reveal_strlit("/label/");
                        let chosen = choose|i: int| text::last_at(self.id@, "/label/"@, i);
                        assert(text::last_at(self.id@, "/label/"@, chosen));
                        assert(chosen == at);
                        assert(at + 7 <= end);
                    }
                    let name = text::text_between(&chars, at + 7, end);
                    assert(name@ =~= self.id@.skip(at + 7));
                    text::named(Some(name.as_str()))
                },
                None => None,
            },
        }
    }

    /// The folder the category stands for; `None` for an unnamed category and
    /// for FreshRSS's built-in "Uncategorized".
    pub fn folder_name(&self) -> (r: Option<String>)
        ensures
            text::view_of(r) == folder_of(*self),
    {
        match self.name() {
            Some(name) => if text::same_ignoring_case(name.as_str(), "Uncategorized") {
                None
            } else {
                Some(name)
            },
            None => None,
        }
    }
}

/// The folder a subscription is filed under.
pub fn subscription_folder(categories: &Vec<SubCat>) -> (r: Option<String>)
    ensures
        text::view_of(r) == folder_among(categories@),
{
    assert(categories@.skip(0) =~= categories@);
    for i in 0..categories.len()
        invariant
            folder_among(categories@) == folder_among(categories@.skip(i as int)),
    {
        let ghost rest = categories@.skip(i as int);
        assert(rest[0] == categories@[i as int]);
        assert(rest.drop_first() =~= categories@.skip(i + 1));
        match categories[i].folder_name() {
            Some(name) => {
                return Some(name);
            },
            None => {},
        }
    }
    assert(categories@.skip(categories@.len() as int).len() == 0);
    None
}

/// The stream of a subscription: its id, or else `feed/` and its URL.
pub open spec fn stream_of(sub: Sub, fallback_url: Seq<char>) -> Seq<char> {
    if sub.id@.len() == 0 {
        "feed/"@ + fallback_url
    } else {
        sub.id@
    }
}

/// The stream of a subscription.
pub fn subscription_stream(sub: &Sub, fallback_url: &str) -> (r: String)
    ensures
        r@ == stream_of(*sub, fallback_url@),
{
    if sub.id.as_str().is_empty() {
        text::cat("feed/", fallback_url)
    } else {
        sub.id.clone()
    }
}

/// The tag of the folder of this name.
pub open spec fn label_of(name: Seq<char>) -> Seq<char> {
    "user/-/label/"@ + text::trimmed(name)
}

/// The tag of the folder of this name.
pub fn label_tag(name: &str) -> (r: String)
    ensures
        r@ == label_of(name@),
{
    text::cat("user/-/label/", text::trim(name).as_str())
}

/// The tag of a category that stands for a folder: its id where that is a
/// label, else the label of its name.
pub open spec fn folder_tag_of(cat: SubCat) -> Option<Seq<char>> {
    match folder_of(cat) {
        Some(name) => Some(
            if text::contains(cat.id@, "/label/"@) {
                cat.id@
            } else {
                label_of(name)
            },
        ),
        None => None,
    }
}

/// The tag of a category that stands for a folder.
pub fn folder_tag(cat: &SubCat) -> (r: Option<String>)
    ensures
        text::view_of(r) == folder_tag_of(*cat),
{
    match cat.folder_name() {
        Some(name) => if text::holds(cat.id.as_str(), "/label/") {
            Some(cat.id.clone())
        } else {
            Some(label_tag(name.as_str()))
        },
        None => None,
    }
}

/// The request for the list of subscriptions.
pub fn list_subscriptions(session: &Session) -> (r: Request)
    ensures
        r@ == get_request(session@, "subscription/list?output=json"@),
{
    session.get("subscription/list?output=json")
}

/// The request that subscribes the server to a feed.
pub open spec fn subscribe_request(s: SessionView, url: Seq<char>) -> RequestView {
    post_request(
        s,
        "subscription/edit"@,
        seq![("ac"@, "subscribe"@), ("s"@, "feed/"@ + url), ("T"@, s.token)],
    )
}

/// The request that subscribes the server to a feed.
pub fn subscribe_url(session: &Session, url: &str) -> (r: Request)
    ensures
        r@ == subscribe_request(session@, url@),
{
    let stream = text::cat("feed/", url);
    session.post(
        "subscription/edit",
        pairs3("ac", "subscribe", "s", stream.as_str(), "T", session.token.as_str()),
    )
}

/// The request that ends a subscription.
pub open spec fn unsubscribe_request(s: SessionView, stream: Seq<char>) -> RequestView {
    post_request(
        s,
        "subscription/edit"@,
        seq![("ac"@, "unsubscribe"@), ("s"@, stream), ("T"@, s.token)],
    )
}

/// The request that ends a subscription.
pub fn unsubscribe_stream(session: &Session, stream: &str) -> (r: Request)
    ensures
        r@ == unsubscribe_request(session@, stream@),
{
    session.post(
        "subscription/edit",
        pairs3("ac", "unsubscribe", "s", stream, "T", session.token.as_str()),
    )
}

/// One `r` field for each tag to take away.
pub open spec fn removals(tags: Seq<Seq<char>>) -> Seq<(Seq<char>, Seq<char>)> {
    tags.map_values(|t: Seq<char>| ("r"@, t))
}

/// The form that files a subscription: into `folder` where that is named, out
/// of each of the folders with the tags in `remove`.
pub open spec fn filing_form(
    token: Seq<char>,
    stream: Seq<char>,
    remove: Seq<Seq<char>>,
    folder: Option<Seq<char>>,
) -> Seq<(Seq<char>, Seq<char>)> {
    let start = seq![("ac"@, "edit"@), ("s"@, stream), ("T"@, token)];
    let into = match text::nonempty_of(text::trimmed_of(folder)) {
        Some(name) => start.push(("a"@, label_of(name))),
        None => start,
    };
    into + removals(remove)
}

/// The request that files a subscription.
pub fn set_subscription_folder(
    session: &Session,
    stream: &str,
    remove: &Vec<String>,
    folder: Option<&str>,
) -> (r: Request)
    ensures
        r@ == post_request(
            session@,
            "subscription/edit"@,
            filing_form(session@.token, stream@, text::views(remove@), text::str_of(folder)),
        ),
{
    let mut form = pairs3("ac", "edit", "s", stream, "T", session.token.as_str());
    match text::named(folder) {
        Some(name) => {
            put_pair(&mut form, "a", label_tag(name.as_str()).as_str());
        },
        None => {},
    }
    let ghost start = pairs(form@);
    let ghost all = removals(text::views(remove@));
    assert(start + all.take(0) =~= start);
    for i in 0..remove.len()
        invariant
            pairs(form@) == start + all.take(i as int),
            all == removals(text::views(remove@)),
    {
        put_pair(&mut form, "r", remove[i].as_str());
        assert(all.take(i + 1) =~= all.take(i as int).push(("r"@, remove@[i as int]@)));
        assert(start + all.take(i + 1) =~= (start + all.take(i as int)).push(
            ("r"@, remove@[i as int]@),
        ));
    }
    assert(all.take(all.len() as int) =~= all);
    session.post("subscription/edit", form)
}

/// The request that sets or clears one state of an article: `starred`, or
/// else read.
pub open spec fn state_request(
    s: SessionView,
    remote_id: Seq<char>,
    field: Seq<char>,
    value: bool,
) -> RequestView {
    let tag = if field == "starred"@ {
        "user/-/state/com.google/starred"@
    } else {
        "user/-/state/com.google/read"@
    };
    let action = if value {
        "a"@
    } else {
        "r"@
    };
    post_request(s, "edit-tag"@, seq![("i"@, remote_id), (action, tag), ("T"@, s.token)])
}

/// The request that sets or clears one state of an article.
pub fn push_state(session: &Session, remote_id: &str, field: &str, value: bool) -> (r: Request)
    ensures
        r@ == state_request(session@, remote_id@, field@, value),
{
    let tag = if text::same(field, "starred") {
        STARRED_TAG
    } else {
        READ_TAG
    };
    let action = if value {
        "a"
    } else {
        "r"
    };
    session.post(
        "edit-tag",
        pairs3("i", remote_id, action, tag, "T", session.token.as_str()),
    )
}

/// The first subscription to this URL.
pub open spec fn subscription_to(subs: Seq<Sub>, url: Seq<char>) -> Option<Sub>
    decreases subs.len(),
{
    if subs.len() == 0 {
        None
    } else if text::view_of(subs[0].url) == Some(url) {
        Some(subs[0])
    } else {
        subscription_to(subs.drop_first(), url)
    }
}

fn find_subscription<'a>(subs: &'a Vec<Sub>, url: &str) -> (r: Option<&'a Sub>)
    ensures
        subscription_to(subs@, url@) == (match r {
            Some(s) => Some(*s),
            None => None,
        }),
{
    assert(subs@.skip(0) =~= subs@);
    for i in 0..subs.len()
        invariant
            subscription_to(subs@, url@) == subscription_to(subs@.skip(i as int), url@),
    {
        assert(subs@.skip(i as int)[0] == subs@[i as int]);
        assert(subs@.skip(i as int).drop_first() =~= subs@.skip(i + 1));
        if text::same_option(&subs[i].url, url) {
            return Some(&subs[i]);
        }
    }
    assert(subs@.skip(subs@.len() as int).len() == 0);
    None
}

/// What a list of requests says.
pub open spec fn requests(v: Seq<Request>) -> Seq<RequestView> {
    v.map_values(|r: Request| r@)
}

/// The requests that end the subscription to a URL: none where the server has
/// none, which is then reported as nothing done.
pub fn unsubscribe_subscription_url(session: &Session, subs: &Vec<Sub>, url: &str) -> (r: Vec<
    Request,
>)
    ensures
        requests(r@) == (match subscription_to(subs@, url@) {
            Some(sub) => seq![unsubscribe_request(session@, stream_of(sub, url@))],
            None => Seq::empty(),
        }),
{
    let mut out: Vec<Request> = Vec::new();
    match find_subscription(subs, url) {
        Some(old) => {
            let stream = subscription_stream(old, url);
            let request = unsubscribe_stream(session, stream.as_str());
            out.push(request);
            assert(requests(out@) =~= seq![
                unsubscribe_request(session@, stream_of(*old, url@)),
            ]);
        },
        None => {
            assert(requests(out@) =~= Seq::<RequestView>::empty());
        },
    }
    out
}

/// The requests that carry a changed feed URL to the server: out of the old
/// subscription, into the new one; none where the server lacks the old one.
pub fn replace_subscription_url(
    session: &Session,
    subs: &Vec<Sub>,
    old_url: &str,
    new_url: &str,
) -> (r: Vec<Request>)
    ensures
        requests(r@) == (match subscription_to(subs@, old_url@) {
            Some(sub) => seq![
                unsubscribe_request(session@, stream_of(sub, old_url@)),
                subscribe_request(session@, new_url@),
            ],
            None => Seq::empty(),
        }),
{
    let mut out: Vec<Request> = Vec::new();
    match find_subscription(subs, old_url) {
        Some(old) => {
            let stream = subscription_stream(old, old_url);
            let first = unsubscribe_stream(session, stream.as_str());
            let second = subscribe_url(session, new_url);
            out.push(first);
            out.push(second);
            assert(requests(out@) =~= seq![
                unsubscribe_request(session@, stream_of(*old, old_url@)),
                subscribe_request(session@, new_url@),
            ]);
        },
        None => {
            assert(requests(out@) =~= Seq::<RequestView>::empty());
        },
    }
    out
}

/// The tags of the folders among these categories, but for the tag to keep.
pub open spec fn tags_to_remove(cats: Seq<SubCat>, keep: Option<Seq<char>>) -> Seq<Seq<char>>
    decreases cats.len(),
{
    if cats.len() == 0 {
        Seq::empty()
    } else {
        let before = tags_to_remove(cats.drop_last(), keep);
        match folder_tag_of(cats.last()) {
            Some(tag) => if keep == Some(tag) {
                before
            } else {
                before.push(tag)
            },
            None => before,
        }
    }
}

/// A move takes a subscription out of exactly the folders it is in, other
/// than the one it moves into.
pub proof fn law_move_leaves_other_folders(
    cats: Seq<SubCat>,
    keep: Option<Seq<char>>,
    tag: Seq<char>,
)
    ensures
        tags_to_remove(cats, keep).contains(tag) <==> keep != Some(tag) && exists|i: int|
            0 <= i < cats.len() && folder_tag_of(#[trigger] cats[i]) == Some(tag),
    decreases cats.len(),
{
    if cats.len() > 0 {
        let head = cats.drop_last();
        law_move_leaves_other_folders(head, keep, tag);
        let before = tags_to_remove(head, keep);
        let all = tags_to_remove(cats, keep);
        if before.contains(tag) {
            let k = choose|k: int| 0 <= k < before.len() && before[k] == tag;
            assert(all[k] == tag);
            let i = choose|i: int|
                0 <= i < head.len() && folder_tag_of(#[trigger] head[i]) == Some(tag);
            assert(cats[i] == head[i]);
        }
        if folder_tag_of(cats.last()) == Some(tag) && keep != Some(tag) {
            assert(all[all.len() - 1] == tag);
            assert(folder_tag_of(cats[cats.len() - 1]) == Some(tag));
        }
        if all.contains(tag) && folder_tag_of(cats.last()) != Some(tag) {
            let k = choose|k: int| 0 <= k < all.len() && all[k] == tag;
            assert(before[k] == tag);
        }
        if exists|i: int| 0 <= i < cats.len() && folder_tag_of(#[trigger] cats[i]) == Some(tag) {
            let i = choose|i: int|
                0 <= i < cats.len() && folder_tag_of(#[trigger] cats[i]) == Some(tag);
            if i < head.len() {
                assert(head[i] == cats[i]);
            }
        }
    }
}

/// The requests that move the subscription to `url` into `folder`, or out of
/// every folder: a feed the server lacks is subscribed to first.
pub open spec fn move_requests(
    s: SessionView,
    subs: Seq<Sub>,
    url: Seq<char>,
    folder: Option<Seq<char>>,
) -> Seq<RequestView> {
    match subscription_to(subs, url) {
        None => seq![
            subscribe_request(s, url),
            post_request(
                s,
                "subscription/edit"@,
                filing_form(s.token, "feed/"@ + url, Seq::empty(), folder),
            ),
        ],
        Some(sub) => {
            let keep = match folder {
                Some(name) => Some(label_of(name)),
                None => None,
            };
            seq![
                post_request(
                    s,
                    "subscription/edit"@,
                    filing_form(
                        s.token,
                        stream_of(sub, url),
                        tags_to_remove(sub.categories@, keep),
                        folder,
                    ),
                ),
            ]
        },
    }
}

/// The requests that carry a feed's move into or out of a folder to the
/// server.
pub fn set_subscription_folder_url(
    session: &Session,
    subs: &Vec<Sub>,
    url: &str,
    folder: Option<&str>,
) -> (r: Vec<Request>)
    ensures
        requests(r@) == move_requests(session@, subs@, url@, text::str_of(folder)),
{
    let mut out: Vec<Request> = Vec::new();
    match find_subscription(subs, url) {
        None => {
            let none: Vec<String> = Vec::new();
            assert(text::views(none@) =~= Seq::<Seq<char>>::empty());
            let stream = text::cat("feed/", url);
            let first = subscribe_url(session, url);
            let second = set_subscription_folder(session, stream.as_str(), &none, folder);
            out.push(first);
            out.push(second);
            assert(requests(out@) =~= move_requests(session@, subs@, url@, text::str_of(folder)));
        },
        Some(sub) => {
            let stream = subscription_stream(sub, url);
            let keep = match folder {
                Some(name) => Some(label_tag(name)),
                None => None,
            };
            let cats = &sub.categories;
            let mut remove: Vec<String> = Vec::new();
            assert(cats@.take(0) =~= Seq::<SubCat>::empty());
            assert(text::views(remove@) =~= Seq::<Seq<char>>::empty());
            for i in 0..cats.len()
                invariant
                    text::views(remove@) == tags_to_remove(
                        cats@.take(i as int),
                        text::view_of(keep),
                    ),
            {
                assert(cats@.take(i + 1).drop_last() =~= cats@.take(i as int));
                let ghost before = remove@;
                match folder_tag(&cats[i]) {
                    Some(tag) => {
                        if !text::same_option(&keep, tag.as_str()) {
                            let ghost t = tag@;
                            remove.push(tag);
                            assert(text::views(remove@) =~= text::views(before).push(t));
                        }
                    },
                    None => {},
                }
            }
            assert(cats@.take(cats@.len() as int) =~= cats@);
            let request = set_subscription_folder(session, stream.as_str(), &remove, folder);
            out.push(request);
            assert(requests(out@) =~= move_requests(session@, subs@, url@, text::str_of(folder)));
        },
    }
    out
}

// ─────────────────────────── Miniflux folders ───────────────────────────

/// A category of Miniflux's own API, which also lists the empty ones.
#[derive(Debug, PartialEq, Eq)]
pub struct MinifluxCategory {
    pub id: i64,
    pub title: String,
}

/// The root and the key of Miniflux's own API, where the connection has them.
pub open spec fn miniflux_access(creds: CredsView) -> Option<(Seq<char>, Seq<char>)> {
    match (creds.provider, creds.miniflux_api_key) {
        (Provider::Miniflux, Some(key)) => Some((plain_url(creds.url), key)),
        _ => None,
    }
}

/// The root and the key of Miniflux's own API, where the connection has them.
pub fn miniflux_api(creds: &Creds) -> (r: Option<(String, String)>)
    ensures
        miniflux_access(creds@) == (match r {
            Some(p) => Some((p.0@, p.1@)),
            None => None,
        }),
{
    match creds.provider {
        Provider::Miniflux => match &creds.miniflux_api_key {
            Some(key) => {
                let base = text::trim_end_of(text::trim(creds.url.as_str()).as_str(), '/');
                Some((base, key.clone()))
            },
            None => None,
        },
        Provider::FreshRss => None,
    }
}

/// A request to Miniflux's own API.
pub open spec fn miniflux_request(
    method: Method,
    url: Seq<char>,
    key: Seq<char>,
    body: BodyView,
) -> RequestView {
    RequestView { method, url, headers: seq![("X-Auth-Token"@, key)], body, timeout: None }
}

/// The request for Miniflux's categories; `None` where the connection has no
/// access to them, which counts as there being none.
pub open spec fn categories_request(creds: CredsView) -> Option<RequestView> {
    match miniflux_access(creds) {
        Some(access) => Some(
            miniflux_request(
                Method::Get,
                access.0 + "/v1/categories"@,
                access.1,
                BodyView::Empty,
            ),
        ),
        None => None,
    }
}

/// The request for Miniflux's categories, where the connection has access to
/// them.
pub fn miniflux_categories(creds: &Creds) -> (r: Option<Request>)
    ensures
        categories_request(creds@) == (match r {
            Some(request) => Some(request@),
            None => None,
        }),
{
    match miniflux_api(creds) {
        Some(access) => Some(
            Request {
                method: Method::Get,
                url: text::cat(access.0.as_str(), "/v1/categories"),
                headers: pairs1("X-Auth-Token", access.1.as_str()),
                body: Body::Empty,
                timeout: None,
            },
        ),
        None => None,
    }
}

/// The id of the first category of this name, white space around it and the
/// case of ASCII letters aside.
pub open spec fn category_id(categories: Seq<MinifluxCategory>, name: Seq<char>) -> Option<i64>
    decreases categories.len(),
{
    if categories.len() == 0 {
        None
    } else if text::same_but_case(text::trimmed(categories[0].title@), text::trimmed(name)) {
        Some(categories[0].id)
    } else {
        category_id(categories.drop_first(), name)
    }
}

/// The id of the first category of this name.
pub fn find_miniflux_category_id(categories: &Vec<MinifluxCategory>, name: &str) -> (r: Option<i64>)
    ensures
        r == category_id(categories@, name@),
{
    let wanted = text::trim(name);
    assert(categories@.skip(0) =~= categories@);
    for i in 0..categories.len()
        invariant
            wanted@ == text::trimmed(name@),
            category_id(categories@, name@) == category_id(categories@.skip(i as int), name@),
    {
        assert(categories@.skip(i as int)[0] == categories@[i as int]);
        assert(categories@.skip(i as int).drop_first() =~= categories@.skip(i + 1));
        let title = text::trim(categories[i].title.as_str());
        if text::same_ignoring_case(title.as_str(), wanted.as_str()) {
            return Some(categories[i].id);
        }
    }
    assert(categories@.skip(categories@.len() as int).len() == 0);
    None
}

/// What a change of a server-side folder takes.
#[derive(Debug, PartialEq, Eq)]
pub enum RemoteFolder {
    /// There is nothing to change here.
    NotHere,
    /// The folder is there already.
    Present,
    /// This request makes the change.
    Send(Request),
}

/// What a [`RemoteFolder`] says.
pub enum RemoteFolderView {
    NotHere,
    Present,
    Send(RequestView),
}

impl View for RemoteFolder {
    type V = RemoteFolderView;

    open spec fn view(&self) -> RemoteFolderView {
        match *self {
            RemoteFolder::NotHere => RemoteFolderView::NotHere,
            RemoteFolder::Present => RemoteFolderView::Present,
            RemoteFolder::Send(r) => RemoteFolderView::Send(r@),
        }
    }
}

/// The body that names a category.
pub open spec fn title_body(name: Seq<char>) -> BodyView {
    BodyView::Json(JsonTree::Object(seq![("title"@, JsonTree::Text(text::trimmed(name)))]))
}

fn titled(name: &str) -> (r: Body)
    ensures
        r@ == title_body(name@),
{
    Body::Json(object1("title", Json::text(text::trim(name).as_str())))
}

/// How an empty folder is made on the server, which takes Miniflux's own API:
/// the other's labels exist on subscriptions only.
pub fn create_remote_folder(
    creds: &Creds,
    categories: &Vec<MinifluxCategory>,
    name: &str,
) -> (r: RemoteFolder)
    ensures
        r@ == (match miniflux_access(creds@) {
            None => RemoteFolderView::NotHere,
            Some(access) => if category_id(categories@, name@) is Some {
                RemoteFolderView::Present
            } else {
                RemoteFolderView::Send(
                    miniflux_request(
                        Method::Post,
                        access.0 + "/v1/categories"@,
                        access.1,
                        title_body(name@),
                    ),
                )
            },
        }),
{
    match miniflux_api(creds) {
        None => RemoteFolder::NotHere,
        Some(access) => if find_miniflux_category_id(categories, name).is_some() {
            RemoteFolder::Present
        } else {
            RemoteFolder::Send(
                Request {
                    method: Method::Post,
                    url: text::cat(access.0.as_str(), "/v1/categories"),
                    headers: pairs1("X-Auth-Token", access.1.as_str()),
                    body: titled(name),
                    timeout: None,
                },
            )
        },
    }
}

/// How a folder is renamed on the server.
pub fn rename_remote_folder(
    creds: &Creds,
    categories: &Vec<MinifluxCategory>,
    old_name: &str,
    new_name: &str,
) -> (r: RemoteFolder)
    ensures
        r@ == (match (miniflux_access(creds@), category_id(categories@, old_name@)) {
            (Some(access), Some(id)) => RemoteFolderView::Send(
                miniflux_request(
                    Method::Put,
                    access.0 + "/v1/categories/"@ + text::numeral(id as int),
                    access.1,
                    title_body(new_name@),
                ),
            ),
            _ => RemoteFolderView::NotHere,
        }),
{
    match (miniflux_api(creds), find_miniflux_category_id(categories, old_name)) {
        (Some(access), Some(id)) => RemoteFolder::Send(
            Request {
                method: Method::Put,
                url: text::cat3(
                    access.0.as_str(),
                    "/v1/categories/",
                    text::integer(id).as_str(),
                ),
                headers: pairs1("X-Auth-Token", access.1.as_str()),
                body: titled(new_name),
                timeout: None,
            },
        ),
        _ => RemoteFolder::NotHere,
    }
}

/// How a folder is deleted on the server.
pub fn delete_remote_folder(
    creds: &Creds,
    categories: &Vec<MinifluxCategory>,
    name: &str,
) -> (r: RemoteFolder)
    ensures
        r@ == (match (miniflux_access(creds@), category_id(categories@, name@)) {
            (Some(access), Some(id)) => RemoteFolderView::Send(
                miniflux_request(
                    Method::Delete,
                    access.0 + "/v1/categories/"@ + text::numeral(id as int),
                    access.1,
                    BodyView::Empty,
                ),
            ),
            _ => RemoteFolderView::NotHere,
        }),
{
    match (miniflux_api(creds), find_miniflux_category_id(categories, name)) {
        (Some(access), Some(id)) => RemoteFolder::Send(
            Request {
                method: Method::Delete,
                url: text::cat3(
                    access.0.as_str(),
                    "/v1/categories/",
                    text::integer(id).as_str(),
                ),
                headers: pairs1("X-Auth-Token", access.1.as_str()),
                body: Body::Empty,
                timeout: None,
            },
        ),
        _ => RemoteFolder::NotHere,
    }
}

/// The titles to have as local folders: those of the categories that carry
/// one, in order.
pub open spec fn titles_of(categories: Seq<MinifluxCategory>) -> Seq<Seq<char>>
    decreases categories.len(),
{
    if categories.len() == 0 {
        Seq::empty()
    } else {
        let before = titles_of(categories.drop_last());
        if text::trimmed(categories.last().title@).len() == 0 {
            before
        } else {
            before.push(categories.last().title@)
        }
    }
}

/// The local folders that the server's categories call for; `None` where the
/// server has no categories, which is reported as nothing synced.
pub fn sync_remote_folders(categories: &Vec<MinifluxCategory>) -> (r: Option<Vec<String>>)
    ensures
        r is None <==> categories@.len() == 0,
        r matches Some(titles) ==> text::views(titles@) == titles_of(categories@),
{
    if categories.len() == 0 {
        return None;
    }
    let mut out: Vec<String> = Vec::new();
    assert(categories@.take(0) =~= Seq::<MinifluxCategory>::empty());
    assert(text::views(out@) =~= Seq::<Seq<char>>::empty());
    for i in 0..categories.len()
        invariant
            text::views(out@) == titles_of(categories@.take(i as int)),
    {
        assert(categories@.take(i + 1).drop_last() =~= categories@.take(i as int));
        let ghost before = out@;
        let title = categories[i].title.clone();
        if !text::trim(title.as_str()).as_str().is_empty() {
            out.push(title);
            assert(text::views(out@) =~= text::views(before).push(categories@[i as int].title@));
        }
    }
    assert(categories@.take(categories@.len() as int) =~= categories@);
    Some(out)
}

// ───────────────────────────── laws ─────────────────────────────

proof fn lemma_tag_rest(rest: Seq<char>)
    requires
        rest.len() > 0,
        rest[0] == '/',
    ensures
        text::stripped_start("user/-"@ + rest, "user/-"@) == rest,
{
    reveal_strlit("user/-");
    text::law_prefixes_come_off(rest, "user/-"@);
    assert("user/-"@[0] == 'u');
    if "user/-"@.len() <= rest.len() && rest.take("user/-"@.len() as int) == "user/-"@ {
        assert(rest.take("user/-"@.len() as int)[0] == rest[0]);
    }
}

/// A category says that an article is read, or that it is starred, exactly by
/// how it ends, and never both.
pub proof fn law_state_tags_are_told_by_their_end(c: Seq<char>)
    ensures
        says_tag(c, "user/-/state/com.google/read"@) <==> {
            let end = "/state/com.google/read"@;
            c.len() >= end.len() && c.skip(c.len() - end.len()) == end
        },
        says_tag(c, "user/-/state/com.google/starred"@) <==> {
            let end = "/state/com.google/starred"@;
            c.len() >= end.len() && c.skip(c.len() - end.len()) == end
        },
        !(says_tag(c, "user/-/state/com.google/read"@) && says_tag(
            c,
            "user/-/state/com.google/starred"@,
        )),
{
    reveal_strlit("user/-");
    reveal_strlit("/state/com.google/read");
    reveal_strlit("/state/com.google/starred");
    reveal_strlit("user/-/state/com.google/read");
    reveal_strlit("user/-/state/com.google/starred");
    let read = "/state/com.google/read"@;
    let starred = "/state/com.google/starred"@;
    assert("user/-/state/com.google/read"@ =~= "user/-"@ + read);
    assert("user/-/state/com.google/starred"@ =~= "user/-"@ + starred);
    lemma_tag_rest(read);
    lemma_tag_rest(starred);
    assert(("user/-"@ + read).skip(6) =~= read);
    assert(("user/-"@ + starred).skip(6) =~= starred);
    if c.len() >= read.len() {
        assert(c.subrange(c.len() - read.len(), c.len() as int) =~= c.skip(c.len() - read.len()));
    }
    if c.len() >= starred.len() {
        assert(c.subrange(c.len() - starred.len(), c.len() as int) =~= c.skip(
            c.len() - starred.len(),
        ));
    }
    if c.len() >= starred.len() && c.skip(c.len() - read.len()) == read && c.skip(
        c.len() - starred.len(),
    ) == starred {
        assert(c[c.len() - 2] == c.skip(c.len() - read.len())[read.len() - 2]);
        assert(c[c.len() - 2] == c.skip(c.len() - starred.len())[starred.len() - 2]);
        assert(c[c.len() - 3] == c.skip(c.len() - read.len())[read.len() - 3]);
        assert(c[c.len() - 3] == c.skip(c.len() - starred.len())[starred.len() - 3]);
    }
}

/// Only a setting that names Miniflux, white space aside, means Miniflux; any
/// other and a missing one mean FreshRSS.
pub proof fn law_providers_by_setting(s: Seq<char>)
    ensures
        provider_of(None) == Provider::FreshRss,
        provider_of(Some(s)) == Provider::Miniflux <==> text::trimmed(s) == "miniflux"@,
        suffix_of(Provider::FreshRss) == "/api/greader.php"@,
        suffix_of(Provider::Miniflux) == ""@,
        name_of(Provider::FreshRss) == "freshrss"@,
        name_of(Provider::Miniflux) == "miniflux"@,
{
    reveal_strlit("");
    reveal_strlit("miniflux");
    text::law_blank_texts_trim_to_nothing(""@);
    assert(text::trimmed(""@).len() == 0);
}

/// The API root of Miniflux is the server's URL, without white space around it
/// nor slashes behind it. That of FreshRSS ends with its path where the URL does
/// not hold that path already, and is the URL otherwise.
pub proof fn law_api_roots(url: Seq<char>)
    ensures
        ({
            let plain = text::trimmed_end_of(text::trimmed(url), '/');
            &&& plain_url(url) == plain
            &&& base_of(url, Provider::Miniflux) == plain
            &&& base_of(url, Provider::FreshRss) == plain || base_of(url, Provider::FreshRss)
                == plain + "/api/greader.php"@
            &&& base_of(url, Provider::FreshRss) == plain <==> (exists|i: int|
                #[trigger] text::occurs_at(plain, "/api/greader.php"@, i) && (i
                    + "/api/greader.php"@.len() == plain.len() || text::occurs_at(
                    plain,
                    "/api/greader.php/"@,
                    i,
                )))
        }),
{
    reveal_strlit("");
    reveal_strlit("/");
    reveal_strlit("/api/greader.php");
    reveal_strlit("/api/greader.php/");
    let plain = text::trimmed_end_of(text::trimmed(url), '/');
    let path = "/api/greader.php"@;
    assert("/api/greader.php/"@ =~= path + "/"@);
    assert(plain.subrange(plain.len() as int, plain.len() as int) =~= ""@);
    assert(text::ends(plain, ""@));
    assert((plain + path).len() != plain.len());
    if text::ends(plain, path) {
        let i = plain.len() - path.len();
        assert(text::occurs_at(plain, path, i));
    } else if text::contains(plain, path + "/"@) {
        let i = choose|i: int| text::occurs_at(plain, path + "/"@, i);
        assert(plain.subrange(i, i + path.len()) =~= plain.subrange(
            i,
            i + (path + "/"@).len(),
        ).take(path.len() as int));
        assert((path + "/"@).take(path.len() as int) =~= path);
        assert(text::occurs_at(plain, path, i));
    }
}

/// Requests of a session go to the server's API, under the session's token.
pub proof fn law_requests_are_authenticated(
    s: SessionView,
    path: Seq<char>,
    form: Seq<(Seq<char>, Seq<char>)>,
    base: Seq<char>,
    auth: Seq<char>,
)
    ensures
        get_request(s, path) == (RequestView {
            method: Method::Get,
            url: s.base + "/reader/api/0/"@ + path,
            headers: seq![("Authorization"@, "GoogleLogin auth="@ + s.auth)],
            body: BodyView::Empty,
            timeout: None,
        }),
        post_request(s, path, form) == (RequestView {
            method: Method::Post,
            url: s.base + "/reader/api/0/"@ + path,
            headers: seq![("Authorization"@, "GoogleLogin auth="@ + s.auth)],
            body: BodyView::Form(form),
            timeout: None,
        }),
        token_exchange(base, auth) == (RequestView {
            method: Method::Get,
            url: base + "/reader/api/0/token"@,
            headers: seq![("Authorization"@, "GoogleLogin auth="@ + auth)],
            body: BodyView::Empty,
            timeout: None,
        }),
{
}

/// A login hands over the user name and the password, and nothing else.
pub proof fn law_logins(base: Seq<char>, user: Seq<char>, pass: Seq<char>)
    ensures
        login_exchange(base, user, pass) == (RequestView {
            method: Method::Post,
            url: base + "/accounts/ClientLogin"@,
            headers: Seq::empty(),
            body: BodyView::Form(seq![("Email"@, user), ("Passwd"@, pass)]),
            timeout: None,
        }),
{
}

/// The token of a login is what follows `Auth=` in the first line that starts
/// so, whatever lines stand before and behind it.
pub proof fn law_tokens_are_found(
    before: Seq<char>,
    token: Seq<char>,
    rest: Seq<Seq<char>>,
    line: Seq<char>,
)
    ensures
        auth_line(Seq::empty()) is None,
        auth_line(seq!["Auth="@ + token] + rest) == Some(token),
        !(line.len() >= 5 && line.take(5) == "Auth="@) ==> auth_line(seq![line] + rest)
            == auth_line(rest),
        token_in(before) == (match auth_line(text::pieces(before, '\n')) {
            Some(t) => if text::trimmed(t).len() > 0 {
                Some(text::trimmed(t))
            } else {
                None
            },
            None => None,
        }),
{
    reveal_strlit("Auth=");
    let first = "Auth="@ + token;
    assert(first.subrange(0, 5) =~= "Auth="@);
    assert(first.skip(5) =~= token);
    assert((seq![first] + rest)[0] == first);
    assert((seq![line] + rest)[0] == line);
    assert((seq![line] + rest).drop_first() =~= rest);
    if text::begins(line, "Auth="@) {
        assert(line.subrange(0, 5) =~= line.take(5));
    }
}

/// A login succeeds exactly where the server accepted it and its answer holds a
/// token; a refusal, an answer without a token and a failed exchange are told
/// apart.
pub proof fn law_login_outcomes(reply: Reply)
    ensures
        reply matches Reply::Body(body) ==> token_in(body@) is Some ==> login_outcome(reply) == Ok::<
            Seq<char>,
            ErrorView,
        >(token_in(body@)->0),
        reply matches Reply::Body(body) ==> token_in(body@) is None ==> login_outcome(reply)
            == Err::<Seq<char>, ErrorView>(ErrorView::Code("freshrssNoToken"@)),
        reply is Refused ==> login_outcome(reply) == Err::<Seq<char>, ErrorView>(
            ErrorView::Code("freshrssLoginFailed"@),
        ),
        reply matches Reply::Failed(e) ==> login_outcome(reply) == Err::<Seq<char>, ErrorView>(
            ErrorView::Network(e@),
        ),
        reply matches Reply::Broken(e) ==> login_outcome(reply) == Err::<Seq<char>, ErrorView>(
            ErrorView::Network(e@),
        ),
{
}

/// A session is of the server and the token it was asked with, and its write
/// token is the answer, trimmed.
pub proof fn law_session_outcomes(base: Seq<char>, auth: Seq<char>, reply: Reply)
    ensures
        reply matches Reply::Body(token) ==> (session_outcome(base, auth, reply) matches Ok(s)
            && s.base == base && s.auth == auth && s.token == text::trimmed(token@)),
        reply is Refused || reply is Failed ==> session_outcome(base, auth, reply) == Err::<
            SessionView,
            ErrorView,
        >(ErrorView::Code("freshrssLoginFailed"@)),
        reply matches Reply::Broken(e) ==> session_outcome(base, auth, reply) == Err::<
            SessionView,
            ErrorView,
        >(ErrorView::Network(e@)),
{
}

/// A connection is stored exactly where there are a URL that is not blank, a
/// user, and a token or an old password; and it says what the settings say.
pub proof fn law_connections_are_complete(
    url: Option<Seq<char>>,
    user: Option<Seq<char>>,
    auth: Option<Seq<char>>,
    pass: Option<Seq<char>>,
    key: Option<Seq<char>>,
    provider: Option<Seq<char>>,
)
    ensures
        connection_of(url, user, auth, pass, key, provider) is Some <==> (url matches Some(s)
            && text::trimmed(s).len() > 0) && (user matches Some(s) && s.len() > 0) && ((
        auth matches Some(s) && s.len() > 0) || (pass matches Some(s) && s.len() > 0)),
        connection_of(url, user, auth, pass, key, provider) matches Some(c) ==> Some(c.url) == url
            && Some(c.user) == user && c.provider == provider_of(provider) && (
        auth matches Some(s) && s.len() > 0 ==> c.auth == auth) && (!(auth matches Some(s)
            && s.len() > 0) ==> c.auth is None) && (pass matches Some(s) && s.len() > 0
            ==> c.legacy_pass == pass) && (!(pass matches Some(s) && s.len() > 0)
            ==> c.legacy_pass is None) && (key matches Some(s) && s.len() > 0
            ==> c.miniflux_api_key == key) && (!(key matches Some(s) && s.len() > 0)
            ==> c.miniflux_api_key is None),
{
    text::law_blank_texts_trim_to_nothing(Seq::empty());
}

/// Each setting of a connection is read from its own name.
pub proof fn law_settings_by_name(stored: Stored, name: Seq<char>, value: Seq<char>)
    ensures
        setting(stored.insert(name, value), name) == Some(value),
        !stored.contains_key(name) ==> setting(stored, name) is None,
        written(stored, Seq::empty()) == stored,
        connection(stored) == connection_of(
            setting(stored, "freshrss_url"@),
            setting(stored, "freshrss_user"@),
            setting(stored, "freshrss_auth"@),
            setting(stored, "freshrss_pass"@),
            setting(stored, "miniflux_api_key"@),
            setting(stored, "freshrss_provider"@),
        ),
{
}

/// Settings are written one after the other, so that the last of a name stays.
pub proof fn law_settings_are_written(
    stored: Stored,
    settings: Seq<(Seq<char>, Seq<char>)>,
    entry: (Seq<char>, Seq<char>),
)
    ensures
        written(stored, settings.push(entry)) == written(stored, settings).insert(
            entry.0,
            entry.1,
        ),
{
    assert(settings.push(entry).drop_last() =~= settings);
}

/// No password is stored with a connection, and a disconnect leaves none of its
/// settings with a value.
pub proof fn law_no_password_is_kept(
    stored: Stored,
    url: Seq<char>,
    user: Seq<char>,
    auth: Seq<char>,
    provider: Provider,
    key: Option<Seq<char>>,
    i: int,
)
    ensures
        0 <= i < connect_settings(url, user, auth, provider, key).len() && connect_settings(
            url,
            user,
            auth,
            provider,
            key,
        )[i].0 == "freshrss_pass"@ ==> connect_settings(url, user, auth, provider, key)[i].1
            == ""@,
        0 <= i < disconnect_settings().len() ==> disconnect_settings()[i].1 == ""@,
        disconnect_settings().len() == 6,
{
    lemma_setting_names();
    let all = connect_settings(url, user, auth, provider, key);
    if 0 <= i < all.len() && all[i].0 == "freshrss_pass"@ {
        assert(i == 3);
    }
}

/// A connection is shown by its URL and its provider's name.
pub proof fn law_connections_are_shown(c: CredsView)
    ensures
        connected(None) is None,
        connected(Some(c)) == Some(
            (
                c.url,
                if c.provider == Provider::Miniflux {
                    "miniflux"@
                } else {
                    "freshrss"@
                },
            ),
        ),
{
}

/// A category's name is its label, trimmed, where that is not blank, and else
/// what follows the last `/label/` in its id, trimmed.
pub proof fn law_category_names(cat: SubCat, head: Seq<char>, name: Seq<char>)
    ensures
        cat.label matches Some(label) && text::trimmed(label@).len() > 0 ==> category_name(cat)
            == Some(text::trimmed(cat.label->0@)),
        !(cat.label matches Some(label) && text::trimmed(label@).len() > 0) ==> category_name(cat)
            == text::nonempty_of(text::trimmed_of(id_name(cat.id@))),
        !text::contains(cat.id@, "/label/"@) ==> id_name(cat.id@) is None,
        (forall|i: int| text::occurs_at(head + "/label/"@ + name, "/label/"@, i) ==> i
            <= head.len()) ==> id_name(head + "/label/"@ + name) == Some(name),
{
    let id = head + "/label/"@ + name;
    let p = "/label/"@;
    if forall|i: int| text::occurs_at(id, p, i) ==> i <= head.len() {
        assert(id.subrange(head.len() as int, (head.len() + p.len()) as int) =~= p);
        assert(text::occurs_at(id, p, head.len() as int));
        assert(text::last_at(id, p, head.len() as int));
        let at = choose|i: int| text::last_at(id, p, i);
        assert(text::last_at(id, p, at));
        assert(at == head.len());
        assert(id.skip(at + p.len()) =~= name);
    }
}

/// Every named category stands for a folder, but for the one under which
/// FreshRSS files what nobody filed, however it is written.
pub proof fn law_folders_of_categories(cat: SubCat, cats: Seq<SubCat>)
    ensures
        category_name(cat) is None ==> folder_of(cat) is None,
        category_name(cat) matches Some(name) ==> folder_of(cat) == (if text::same_but_case(
            name,
            "Uncategorized"@,
        ) {
            None
        } else {
            Some(name)
        }),
        folder_among(Seq::empty()) is None,
        folder_of(cat) is Some ==> folder_among(seq![cat] + cats) == folder_of(cat),
        folder_of(cat) is None ==> folder_among(seq![cat] + cats) == folder_among(cats),
{
    assert((seq![cat] + cats)[0] == cat);
    assert((seq![cat] + cats).drop_first() =~= cats);
}

/// A subscription's stream is its id, or the one that its URL makes where it has
/// none; a folder's tag is its name behind the user's labels; and a category
/// that stands for a folder is tagged by its own id where that is a label.
pub proof fn law_streams_and_tags(sub: Sub, url: Seq<char>, name: Seq<char>, cat: SubCat)
    ensures
        sub.id@.len() > 0 ==> stream_of(sub, url) == sub.id@,
        sub.id@.len() == 0 ==> stream_of(sub, url) == "feed/"@ + url,
        label_of(name) == "user/-/label/"@ + text::trimmed(name),
        folder_of(cat) is None ==> folder_tag_of(cat) is None,
        folder_of(cat) is Some && text::contains(cat.id@, "/label/"@) ==> folder_tag_of(cat)
            == Some(cat.id@),
        folder_of(cat) is Some && !text::contains(cat.id@, "/label/"@) ==> folder_tag_of(cat)
            == Some("user/-/label/"@ + text::trimmed(folder_of(cat)->0)),
{
}

/// Subscribing names the feed by its URL, and unsubscribing names its stream.
pub proof fn law_subscribing_and_unsubscribing(s: SessionView, url: Seq<char>, stream: Seq<char>)
    ensures
        subscribe_request(s, url) == post_request(
            s,
            "subscription/edit"@,
            seq![("ac"@, "subscribe"@), ("s"@, "feed/"@ + url), ("T"@, s.token)],
        ),
        unsubscribe_request(s, stream) == post_request(
            s,
            "subscription/edit"@,
            seq![("ac"@, "unsubscribe"@), ("s"@, stream), ("T"@, s.token)],
        ),
{
}

/// Filing a subscription adds the label of its folder exactly where one is
/// named, and takes away every tag that is to go, in order.
pub proof fn law_filing(
    token: Seq<char>,
    stream: Seq<char>,
    remove: Seq<Seq<char>>,
    folder: Option<Seq<char>>,
)
    ensures
        filing_form(token, stream, remove, folder) == seq![
            ("ac"@, "edit"@),
            ("s"@, stream),
            ("T"@, token),
        ] + (if folder matches Some(name) && text::trimmed(name).len() > 0 {
            seq![("a"@, "user/-/label/"@ + text::trimmed(folder->0))]
        } else {
            Seq::empty()
        }) + Seq::new(remove.len(), |i: int| ("r"@, remove[i])),
{
    let start = seq![("ac"@, "edit"@), ("s"@, stream), ("T"@, token)];
    assert(removals(remove) =~= Seq::new(remove.len(), |i: int| ("r"@, remove[i])));
    if folder matches Some(name) && text::trimmed(name).len() > 0 {
        let name = folder->0;
        text::law_trimming_is_done_once(name);
        assert(start.push(("a"@, label_of(text::trimmed(name)))) =~= start + seq![
            ("a"@, "user/-/label/"@ + text::trimmed(name)),
        ]);
    } else {
        assert(start + Seq::<(Seq<char>, Seq<char>)>::empty() =~= start);
    }
}

/// A state is set by adding its tag to the article and cleared by taking that
/// away: the tag of stars for that field, and that of read articles otherwise.
pub proof fn law_states_are_pushed(
    s: SessionView,
    remote_id: Seq<char>,
    field: Seq<char>,
)
    ensures
        state_request(s, remote_id, "starred"@, true) == post_request(
            s,
            "edit-tag"@,
            seq![("i"@, remote_id), ("a"@, "user/-/state/com.google/starred"@), ("T"@, s.token)],
        ),
        state_request(s, remote_id, "starred"@, false) == post_request(
            s,
            "edit-tag"@,
            seq![("i"@, remote_id), ("r"@, "user/-/state/com.google/starred"@), ("T"@, s.token)],
        ),
        field != "starred"@ ==> state_request(s, remote_id, field, true) == post_request(
            s,
            "edit-tag"@,
            seq![("i"@, remote_id), ("a"@, "user/-/state/com.google/read"@), ("T"@, s.token)],
        ),
        field != "starred"@ ==> state_request(s, remote_id, field, false) == post_request(
            s,
            "edit-tag"@,
            seq![("i"@, remote_id), ("r"@, "user/-/state/com.google/read"@), ("T"@, s.token)],
        ),
{
}

/// The subscription to a URL is the first that has exactly it.
pub proof fn law_subscriptions_are_found(subs: Seq<Sub>, sub: Sub, url: Seq<char>)
    ensures
        subscription_to(Seq::empty(), url) is None,
        text::view_of(sub.url) == Some(url) ==> subscription_to(seq![sub] + subs, url) == Some(sub),
        text::view_of(sub.url) != Some(url) ==> subscription_to(seq![sub] + subs, url)
            == subscription_to(subs, url),
{
    assert((seq![sub] + subs)[0] == sub);
    assert((seq![sub] + subs).drop_first() =~= subs);
}

/// A move of a feed that the server has is one request, for its own stream; one
/// that it lacks is subscribed to first and then filed.
pub proof fn law_moves(s: SessionView, subs: Seq<Sub>, url: Seq<char>, folder: Option<Seq<char>>)
    ensures
        subscription_to(subs, url) is None ==> move_requests(s, subs, url, folder) == seq![
            subscribe_request(s, url),
            post_request(
                s,
                "subscription/edit"@,
                filing_form(s.token, "feed/"@ + url, Seq::empty(), folder),
            ),
        ],
        subscription_to(subs, url) matches Some(sub) ==> move_requests(s, subs, url, folder)
            == seq![
            post_request(
                s,
                "subscription/edit"@,
                filing_form(
                    s.token,
                    stream_of(sub, url),
                    tags_to_remove(
                        sub.categories@,
                        if folder is Some {
                            Some("user/-/label/"@ + text::trimmed(folder->0))
                        } else {
                            None
                        },
                    ),
                    folder,
                ),
            ),
        ],
{
}

/// The tags to take away come in the order of the categories, each as often as
/// it is there.
pub proof fn law_removed_tags_keep_their_order(
    cats: Seq<SubCat>,
    cat: SubCat,
    keep: Option<Seq<char>>,
)
    ensures
        tags_to_remove(Seq::empty(), keep) == Seq::<Seq<char>>::empty(),
        tags_to_remove(cats.push(cat), keep) == (if folder_tag_of(cat) is Some && folder_tag_of(cat)
            != keep {
            tags_to_remove(cats, keep).push(folder_tag_of(cat)->0)
        } else {
            tags_to_remove(cats, keep)
        }),
{
    assert(cats.push(cat).drop_last() =~= cats);
}

/// Miniflux's own API is reached with the key, exactly where the connection is
/// to Miniflux and has one.
pub proof fn law_miniflux_access(c: CredsView, name: Seq<char>)
    ensures
        miniflux_access(c) is Some <==> c.provider == Provider::Miniflux && c.miniflux_api_key
            is Some,
        miniflux_access(c) matches Some(a) ==> a.0 == text::trimmed_end_of(
            text::trimmed(c.url),
            '/',
        ) && a.1 == c.miniflux_api_key->0,
        categories_request(c) is Some <==> miniflux_access(c) is Some,
        miniflux_access(c) matches Some(a) ==> categories_request(c) == Some(
            RequestView {
                method: Method::Get,
                url: a.0 + "/v1/categories"@,
                headers: seq![("X-Auth-Token"@, a.1)],
                body: BodyView::Empty,
                timeout: None,
            },
        ),
        title_body(name) == BodyView::Json(
            JsonTree::Object(seq![("title"@, JsonTree::Text(text::trimmed(name)))]),
        ),
{
}

/// A request to Miniflux's own API is what it is asked to be, under the key.
pub proof fn law_miniflux_requests(
    method: Method,
    url: Seq<char>,
    key: Seq<char>,
    body: BodyView,
)
    ensures
        ({
            let r = miniflux_request(method, url, key, body);
            r.method == method && r.url == url && r.headers == seq![("X-Auth-Token"@, key)]
                && r.body == body && r.timeout is None
        }),
{
}

/// A category is found by its name, white space around it and the case of its
/// letters aside, and it is the first of that name.
pub proof fn law_categories_are_found(
    categories: Seq<MinifluxCategory>,
    c: MinifluxCategory,
    name: Seq<char>,
)
    ensures
        category_id(Seq::empty(), name) is None,
        text::same_but_case(text::trimmed(c.title@), text::trimmed(name)) ==> category_id(
            seq![c] + categories,
            name,
        ) == Some(c.id),
        !text::same_but_case(text::trimmed(c.title@), text::trimmed(name)) ==> category_id(
            seq![c] + categories,
            name,
        ) == category_id(categories, name),
{
    assert((seq![c] + categories)[0] == c);
    assert((seq![c] + categories).drop_first() =~= categories);
}

/// Every category with a title that is not blank calls for a folder under it, in
/// order.
pub proof fn law_every_category_is_a_folder(categories: Seq<MinifluxCategory>, c: MinifluxCategory)
    ensures
        titles_of(Seq::empty()) == Seq::<Seq<char>>::empty(),
        titles_of(categories.push(c)) == (if text::trimmed(c.title@).len() > 0 {
            titles_of(categories).push(c.title@)
        } else {
            titles_of(categories)
        }),
{
    assert(categories.push(c).drop_last() =~= categories);
}

/// Sessions, connections and requests say what they hold.
pub proof fn law_sessions_say_what_they_hold(
    s: Session,
    c: Creds,
    e: AppError,
    v: Seq<Request>,
    i: int,
)
    ensures
        s@.base == s.base@ && s@.auth == s.auth@ && s@.token == s.token@,
        c@.url == c.url@ && c@.user == c.user@ && c@.provider == c.provider,
        c@.auth == text::view_of(c.auth),
        c@.legacy_pass == text::view_of(c.legacy_pass),
        c@.miniflux_api_key == text::view_of(c.miniflux_api_key),
        creds_of(Some(c)) == Some(c@),
        creds_of(None) is None,
        session_result(Ok(s)) == Ok::<SessionView, ErrorView>(s@),
        session_result(Err(e)) == Err::<SessionView, ErrorView>(e@),
        requests(v).len() == v.len(),
        0 <= i < v.len() ==> requests(v)[i] == v[i]@,
{
}

/// The tags of states and the stream of everything, as the protocol names them.
pub proof fn law_protocol_names()
    ensures
        READ_TAG@ == "user/-/state/com.google/read"@,
        STARRED_TAG@ == "user/-/state/com.google/starred"@,
        READING_LIST@ == "user/-/state/com.google/reading-list"@,
{
}

} // verus!
