//! New subscriptions: by URL, where a page may have to be searched for its
//! feed, and by the import of a subscription list. Both are runs that say
//! what they need next and are told how that went.

use vstd::prelude::*;
use crate::cli::{one_line, outcome, runtime_error, AxiError, AxiErrorView};
use crate::error::ErrorView;
use crate::opml::{
    all_feeds, are_portable, body_outlines, build, feed_views, grouped, listed, opml_text, parse,
    parsed, ImportedFeed, ImportedFeedView,
};
use crate::text;
use crate::toon::{header_to, help_to, kv_to, Out};

verus! {

// ─────────────────────────── by URL ───────────────────────────

/// Where a subscription stands.
#[derive(Debug, PartialEq, Eq)]
pub enum SubscribeStage {
    /// What is at the URL is fetched.
    Fetch,
    /// What was fetched from here is read as a feed.
    Parse { url: String },
    /// What was fetched from here is searched for links to feeds.
    Discover { url: String },
    /// The feed that was found is fetched.
    FetchFound { url: String },
    /// What was fetched from here is read as a feed.
    ParseFound { url: String },
    /// The feed is looked for among those subscribed to.
    Find { url: String, title: String },
    /// The feed is stored.
    Insert { url: String, title: String },
    /// The feed's articles are stored.
    Ingest { id: i64, url: String, title: String, kind: String },
    /// This is said.
    Done(Result<String, AxiError>),
}

/// What a [`SubscribeStage`] holds.
pub enum StageView {
    Fetch,
    Parse { url: Seq<char> },
    Discover { url: Seq<char> },
    FetchFound { url: Seq<char> },
    ParseFound { url: Seq<char> },
    Find { url: Seq<char>, title: Seq<char> },
    Insert { url: Seq<char>, title: Seq<char> },
    Ingest { id: i64, url: Seq<char>, title: Seq<char>, kind: Seq<char> },
    Done(Result<Seq<char>, AxiErrorView>),
}

impl View for SubscribeStage {
    type V = StageView;

    open spec fn view(&self) -> StageView {
        match *self {
            SubscribeStage::Fetch => StageView::Fetch,
            SubscribeStage::Parse { url } => StageView::Parse { url: url@ },
            SubscribeStage::Discover { url } => StageView::Discover { url: url@ },
            SubscribeStage::FetchFound { url } => StageView::FetchFound { url: url@ },
            SubscribeStage::ParseFound { url } => StageView::ParseFound { url: url@ },
            SubscribeStage::Find { url, title } => StageView::Find { url: url@, title: title@ },
            SubscribeStage::Insert { url, title } => StageView::Insert {
                url: url@,
                title: title@,
            },
            SubscribeStage::Ingest { id, url, title, kind } => StageView::Ingest {
                id,
                url: url@,
                title: title@,
                kind: kind@,
            },
            SubscribeStage::Done(r) => StageView::Done(outcome(r)),
        }
    }
}

/// What a subscription is told.
#[derive(Debug, PartialEq, Eq)]
pub enum SubscribeEvent {
    /// Where a fetch ended up, or the words for its failure.
    Fetched(Result<String, String>),
    /// The title of the feed that was read, or why there is none.
    Parsed(Result<Option<String>, String>),
    /// The links to feeds on a page.
    Discovered(Vec<String>),
    /// The feed that is subscribed to already.
    Found(Option<i64>),
    /// The new feed, and its kind.
    Inserted { id: i64, kind: String },
    /// How many articles were stored.
    Ingested(usize),
    /// The store failed; its words.
    StoreFailed(String),
}

/// A failed fetch.
pub open spec fn fetch_error(url: Seq<char>, e: Seq<char>) -> StageView {
    StageView::Done(Err(runtime_error("could not fetch "@ + url + ": "@ + e)))
}

/// What is said where nothing is a feed.
pub open spec fn no_feed(url: Seq<char>) -> AxiErrorView {
    AxiErrorView {
        message: "no feed found at "@ + url,
        help: seq!["Pass the feed URL directly if you have it"@],
        usage: false,
    }
}

/// What is said of a feed that is subscribed to already.
pub open spec fn already_text(id: int) -> Seq<char> {
    help_to(
        one_line("feed: #"@ + text::numeral(id) + " already subscribed (no-op)"@),
        seq!["Run `papr list --feed "@ + text::numeral(id) + "` to read it"@],
    )
}

/// What is said of a new feed.
pub open spec fn subscribed_text(
    id: int,
    url: Seq<char>,
    title: Seq<char>,
    kind: Seq<char>,
    articles: nat,
) -> Seq<char> {
    let d = header_to(Seq::empty(), 0, "feed"@);
    let d = kv_to(d, 1, "id"@, text::numeral(id));
    let d = kv_to(d, 1, "title"@, title);
    let d = kv_to(d, 1, "url"@, url);
    let d = kv_to(d, 1, "type"@, kind);
    let d = kv_to(d, 1, "articles"@, text::decimal(articles));
    help_to(
        d,
        seq![
            "Run `papr list --feed "@ + text::numeral(id) + "` to read it"@,
            "Run `papr refresh --feed "@ + text::numeral(id) + "` to fetch more later"@,
        ],
    )
}

/// What an event leads to, `asked` being the URL that was asked for: what is
/// a feed is taken, else the first feed that its page links to; a feed that
/// is subscribed to already stays as it is.
pub open spec fn subscribe_step_of(
    stage: StageView,
    asked: Seq<char>,
    event: SubscribeEvent,
) -> StageView {
    match (stage, event) {
        (StageView::Fetch, SubscribeEvent::Fetched(Ok(url))) => StageView::Parse { url: url@ },
        (StageView::Fetch, SubscribeEvent::Fetched(Err(e))) => fetch_error(asked, e@),
        (StageView::Parse { url }, SubscribeEvent::Parsed(Ok(title))) => StageView::Find {
            url,
            title: text::or_else(text::view_of(title), url),
        },
        (StageView::Parse { url }, SubscribeEvent::Parsed(Err(_))) => StageView::Discover { url },
        (StageView::Discover { .. }, SubscribeEvent::Discovered(links)) => if links@.len() > 0 {
            StageView::FetchFound { url: links@[0]@ }
        } else {
            StageView::Done(Err(no_feed(asked)))
        },
        (StageView::FetchFound { .. }, SubscribeEvent::Fetched(Ok(url))) => StageView::ParseFound {
            url: url@,
        },
        (StageView::FetchFound { url }, SubscribeEvent::Fetched(Err(e))) => fetch_error(url, e@),
        (StageView::ParseFound { url }, SubscribeEvent::Parsed(Ok(title))) => StageView::Find {
            url,
            title: text::or_else(text::view_of(title), url),
        },
        (StageView::ParseFound { .. }, SubscribeEvent::Parsed(Err(e))) => StageView::Done(
            Err(runtime_error("discovered feed did not parse: "@ + e@)),
        ),
        (StageView::Find { .. }, SubscribeEvent::Found(Some(id))) => StageView::Done(
            Ok(already_text(id as int)),
        ),
        (StageView::Find { url, title }, SubscribeEvent::Found(None)) => StageView::Insert {
            url,
            title,
        },
        (StageView::Insert { url, title }, SubscribeEvent::Inserted { id, kind }) => StageView::Ingest {
            id,
            url,
            title,
            kind: kind@,
        },
        (StageView::Ingest { id, url, title, kind }, SubscribeEvent::Ingested(n)) => StageView::Done(
            Ok(subscribed_text(id as int, url, title, kind, n as nat)),
        ),
        (StageView::Find { .. }, SubscribeEvent::StoreFailed(e)) => StageView::Done(
            Err(runtime_error(e@)),
        ),
        (StageView::Insert { .. }, SubscribeEvent::StoreFailed(e)) => StageView::Done(
            Err(runtime_error(e@)),
        ),
        _ => stage,
    }
}

fn fail(message: &str) -> (r: SubscribeStage)
    ensures
        r@ == StageView::Done(Err(runtime_error(message@))),
{
    SubscribeStage::Done(Err(AxiError::runtime(message)))
}

fn fetch_failed(url: &str, e: &str) -> (r: SubscribeStage)
    ensures
        r@ == fetch_error(url@, e@),
{
    let message = text::cat4("could not fetch ", url, ": ", e);
    fail(message.as_str())
}

fn found(url: String, title: Option<String>) -> (r: SubscribeStage)
    ensures
        r@ == (StageView::Find { url: url@, title: text::or_else(text::view_of(title), url@) }),
{
    let title = match title {
        Some(title) => title,
        None => url.clone(),
    };
    SubscribeStage::Find { url, title }
}

fn already(id: i64) -> (r: String)
    ensures
        r@ == already_text(id as int),
{
    let number = text::integer(id);
    let mut out = Out::new();
    let line = text::cat3("feed: #", number.as_str(), " already subscribed (no-op)");
    out.line(0, line.as_str());
    let hint = text::cat3("Run `papr list --feed ", number.as_str(), "` to read it");
    out.help(&text::list1(hint.as_str()));
    out.into_string()
}

fn subscribed(id: i64, url: &str, title: &str, kind: &str, articles: usize) -> (r: String)
    ensures
        r@ == subscribed_text(id as int, url@, title@, kind@, articles as nat),
{
    let number = text::integer(id);
    let mut out = Out::new();
    out.header(0, "feed");
    out.kv(1, "id", number.as_str());
    out.kv(1, "title", title);
    out.kv(1, "url", url);
    out.kv(1, "type", kind);
    out.kv(1, "articles", text::count(articles).as_str());
    let first = text::cat3("Run `papr list --feed ", number.as_str(), "` to read it");
    let second = text::cat3("Run `papr refresh --feed ", number.as_str(), "` to fetch more later");
    out.help(&text::list2(first.as_str(), second.as_str()));
    out.into_string()
}

/// A subscription by URL.
#[derive(Debug, PartialEq, Eq)]
pub struct Subscription {
    pub asked: String,
    pub stage: SubscribeStage,
}

/// What a subscription needs next.
#[derive(Debug, PartialEq, Eq)]
pub enum SubscribeAction {
    /// What is at this URL.
    Fetch(String),
    /// What was fetched last, read as a feed from this URL.
    Parse(String),
    /// The links to feeds in what was fetched last from this URL.
    Discover(String),
    /// The feed with this URL, where it is subscribed to.
    Find(String),
    /// A new feed with this URL and title.
    Insert { url: String, title: String },
    /// The articles of what was read last, under this feed.
    Ingest(i64),
    /// Nothing.
    Done,
}

impl Subscription {
    /// A subscription to what is at this URL.
    pub fn new(url: &str) -> (r: Subscription)
        ensures
            r.asked@ == url@,
            r.stage@ == StageView::Fetch,
    {
        Subscription { asked: url.to_owned(), stage: SubscribeStage::Fetch }
    }

    /// What the subscription needs next.
    pub fn action(&self) -> (r: SubscribeAction)
        ensures
            match self.stage@ {
                StageView::Fetch => r matches SubscribeAction::Fetch(u) && u@ == self.asked@,
                StageView::Parse { url } => r matches SubscribeAction::Parse(u) && u@ == url,
                StageView::Discover { url } => r matches SubscribeAction::Discover(u) && u@ == url,
                StageView::FetchFound { url } => r matches SubscribeAction::Fetch(u) && u@ == url,
                StageView::ParseFound { url } => r matches SubscribeAction::Parse(u) && u@ == url,
                StageView::Find { url, .. } => r matches SubscribeAction::Find(u) && u@ == url,
                StageView::Insert { url, title } => r matches SubscribeAction::Insert {
                    url: u,
                    title: t,
                } && u@ == url && t@ == title,
                StageView::Ingest { id, .. } => r == SubscribeAction::Ingest(id),
                StageView::Done(_) => r is Done,
            },
    {
        match &self.stage {
            SubscribeStage::Fetch => SubscribeAction::Fetch(self.asked.clone()),
            SubscribeStage::Parse { url } => SubscribeAction::Parse(url.clone()),
            SubscribeStage::Discover { url } => SubscribeAction::Discover(url.clone()),
            SubscribeStage::FetchFound { url } => SubscribeAction::Fetch(url.clone()),
            SubscribeStage::ParseFound { url } => SubscribeAction::Parse(url.clone()),
            SubscribeStage::Find { url, .. } => SubscribeAction::Find(url.clone()),
            SubscribeStage::Insert { url, title } => SubscribeAction::Insert {
                url: url.clone(),
                title: title.clone(),
            },
            SubscribeStage::Ingest { id, .. } => SubscribeAction::Ingest(*id),
            SubscribeStage::Done(_) => SubscribeAction::Done,
        }
    }

    /// Goes on behind the answer to the pending action. An event that answers
    /// another question changes nothing.
    pub fn answer(self, event: SubscribeEvent) -> (r: Subscription)
        ensures
            r.asked == self.asked,
            r.stage@ == subscribe_step_of(self.stage@, self.asked@, event),
    {
        let Subscription { asked, stage } = self;
        let next = match (stage, event) {
            (SubscribeStage::Fetch, SubscribeEvent::Fetched(fetched)) => match fetched {
                Ok(url) => SubscribeStage::Parse { url },
                Err(e) => fetch_failed(asked.as_str(), e.as_str()),
            },
            (SubscribeStage::Parse { url }, SubscribeEvent::Parsed(read)) => match read {
                Ok(title) => found(url, title),
                Err(_) => SubscribeStage::Discover { url },
            },
            (SubscribeStage::Discover { url }, SubscribeEvent::Discovered(links)) => {
                if links.len() > 0 {
                    SubscribeStage::FetchFound { url: links[0].clone() }
                } else {
                    let message = text::cat("no feed found at ", asked.as_str());
                    SubscribeStage::Done(
                        Err(
                            AxiError::runtime_help(
                                message.as_str(),
                                text::list1("Pass the feed URL directly if you have it"),
                            ),
                        ),
                    )
                }
            },
            (SubscribeStage::FetchFound { url }, SubscribeEvent::Fetched(fetched)) => match fetched {
                Ok(url) => SubscribeStage::ParseFound { url },
                Err(e) => fetch_failed(url.as_str(), e.as_str()),
            },
            (SubscribeStage::ParseFound { url }, SubscribeEvent::Parsed(read)) => match read {
                Ok(title) => found(url, title),
                Err(e) => {
                    let message = text::cat("discovered feed did not parse: ", e.as_str());
                    fail(message.as_str())
                },
            },
            (SubscribeStage::Find { url, title }, SubscribeEvent::Found(existing)) => match existing {
                Some(id) => SubscribeStage::Done(Ok(already(id))),
                None => SubscribeStage::Insert { url, title },
            },
            (
                SubscribeStage::Insert { url, title },
                SubscribeEvent::Inserted { id, kind },
            ) => SubscribeStage::Ingest { id, url, title, kind },
            (
                SubscribeStage::Ingest { id, url, title, kind },
                SubscribeEvent::Ingested(n),
            ) => SubscribeStage::Done(
                Ok(subscribed(id, url.as_str(), title.as_str(), kind.as_str(), n)),
            ),
            (SubscribeStage::Find { .. }, SubscribeEvent::StoreFailed(e)) => fail(e.as_str()),
            (SubscribeStage::Insert { .. }, SubscribeEvent::StoreFailed(e)) => fail(e.as_str()),
            (stage, _) => stage,
        };
        Subscription { asked, stage: next }
    }
}

/// How many answers a subscription can still need.
pub open spec fn answers_left(stage: StageView) -> nat {
    match stage {
        StageView::Fetch => 8,
        StageView::Parse { .. } => 7,
        StageView::Discover { .. } => 6,
        StageView::FetchFound { .. } => 5,
        StageView::ParseFound { .. } => 4,
        StageView::Find { .. } => 3,
        StageView::Insert { .. } => 2,
        StageView::Ingest { .. } => 1,
        StageView::Done(_) => 0,
    }
}

/// A subscription ends: each answer to its question brings it nearer to its
/// end, and any other event leaves it where it is.
pub proof fn law_subscriptions_advance(stage: StageView, asked: Seq<char>, event: SubscribeEvent)
    ensures
        subscribe_step_of(stage, asked, event) == stage || answers_left(
            subscribe_step_of(stage, asked, event),
        ) < answers_left(stage),
{
}

/// Subscribing is idempotent: a feed is stored only where the store says that
/// it has none with that URL.
pub proof fn law_resubscribing_is_a_no_op(
    stage: StageView,
    asked: Seq<char>,
    event: SubscribeEvent,
)
    ensures
        subscribe_step_of(stage, asked, event) matches StageView::Insert { url, title } ==> stage
            == (StageView::Insert { url, title }) || (stage == (StageView::Find { url, title })
            && event == SubscribeEvent::Found(None)),
{
}

// ─────────────────────────── by import ───────────────────────────

/// Where the import of one feed stands.
#[derive(Clone, Copy, Debug, PartialEq, Eq, Structural)]
pub enum ImportStage {
    /// The feed is looked for among those subscribed to.
    Find,
    /// Its folder's id is wanted.
    Folder,
    /// The feed is stored.
    Insert { folder: Option<i64> },
}

/// What the import of a feed is told.
#[derive(Clone, Copy, Debug, PartialEq, Eq, Structural)]
pub enum ImportEvent {
    /// Whether the feed is subscribed to already.
    Found(bool),
    /// The id of the folder of that name, which is made where it is missing.
    FolderId(i64),
    /// The feed was stored.
    Inserted,
}

/// What an event leads to.
#[derive(Clone, Copy, Debug, PartialEq, Eq, Structural)]
pub enum ImportStep {
    /// It answers another question: nothing changes.
    Stay,
    /// This comes next.
    To(ImportStage),
    /// The feed is there already; the next follows.
    Skip,
    /// The feed is new; the next follows.
    Added,
}

/// What an event leads to: a feed that is subscribed to already is skipped, a
/// new one is stored in its folder.
pub open spec fn import_step_of(
    stage: ImportStage,
    has_folder: bool,
    event: ImportEvent,
) -> ImportStep {
    match (stage, event) {
        (ImportStage::Find, ImportEvent::Found(true)) => ImportStep::Skip,
        (ImportStage::Find, ImportEvent::Found(false)) => if has_folder {
            ImportStep::To(ImportStage::Folder)
        } else {
            ImportStep::To(ImportStage::Insert { folder: None })
        },
        (ImportStage::Folder, ImportEvent::FolderId(id)) => ImportStep::To(
            ImportStage::Insert { folder: Some(id) },
        ),
        (ImportStage::Insert { .. }, ImportEvent::Inserted) => ImportStep::Added,
        _ => ImportStep::Stay,
    }
}

/// What an event leads to.
pub fn import_step(stage: ImportStage, has_folder: bool, event: ImportEvent) -> (r: ImportStep)
    ensures
        r == import_step_of(stage, has_folder, event),
{
    match (stage, event) {
        (ImportStage::Find, ImportEvent::Found(there)) => if there {
            ImportStep::Skip
        } else if has_folder {
            ImportStep::To(ImportStage::Folder)
        } else {
            ImportStep::To(ImportStage::Insert { folder: None })
        },
        (ImportStage::Folder, ImportEvent::FolderId(id)) => ImportStep::To(
            ImportStage::Insert { folder: Some(id) },
        ),
        (ImportStage::Insert { .. }, ImportEvent::Inserted) => ImportStep::Added,
        _ => ImportStep::Stay,
    }
}

/// The import of a subscription list.
#[derive(Debug, PartialEq, Eq)]
pub struct OpmlImport {
    pub feeds: Vec<ImportedFeed>,
    pub at: usize,
    pub stage: ImportStage,
    pub added: usize,
    pub skipped: usize,
}

/// What an import needs next. A failure of any of these ends it.
#[derive(Debug, PartialEq, Eq)]
pub enum OpmlAction {
    /// Whether a feed with this URL is subscribed to.
    Find(String),
    /// The id of the folder of this name, made where it is missing.
    FolderId(String),
    /// A new feed.
    Insert { url: String, title: String, folder: Option<i64> },
    /// Nothing: this is said.
    Done(String),
}

/// What an [`OpmlAction`] says.
pub enum OpmlActionView {
    Find(Seq<char>),
    FolderId(Seq<char>),
    Insert { url: Seq<char>, title: Seq<char>, folder: Option<i64> },
    Done(Seq<char>),
}

impl View for OpmlAction {
    type V = OpmlActionView;

    open spec fn view(&self) -> OpmlActionView {
        match self {
            OpmlAction::Find(url) => OpmlActionView::Find(url@),
            OpmlAction::FolderId(name) => OpmlActionView::FolderId(name@),
            OpmlAction::Insert { url, title, folder } => OpmlActionView::Insert {
                url: url@,
                title: title@,
                folder: *folder,
            },
            OpmlAction::Done(said) => OpmlActionView::Done(said@),
        }
    }
}

/// How far the import of a list has come.
pub struct ImportState {
    pub at: nat,
    pub stage: ImportStage,
    pub added: nat,
    pub skipped: nat,
}

/// The state that an event leads to.
pub open spec fn import_next(
    feeds: Seq<ImportedFeedView>,
    state: ImportState,
    event: ImportEvent,
) -> ImportState {
    if state.at < feeds.len() {
        match import_step_of(state.stage, feeds[state.at as int].folder is Some, event) {
            ImportStep::Stay => state,
            ImportStep::To(stage) => ImportState { stage, ..state },
            ImportStep::Skip => ImportState {
                at: state.at + 1,
                stage: ImportStage::Find,
                added: state.added,
                skipped: state.skipped + 1,
            },
            ImportStep::Added => ImportState {
                at: state.at + 1,
                stage: ImportStage::Find,
                added: state.added + 1,
                skipped: state.skipped,
            },
        }
    } else {
        state
    }
}

/// What an import needs next.
pub open spec fn import_action_of(
    feeds: Seq<ImportedFeedView>,
    state: ImportState,
) -> OpmlActionView {
    if state.at < feeds.len() {
        let feed = feeds[state.at as int];
        match state.stage {
            ImportStage::Find => OpmlActionView::Find(feed.feed_url),
            ImportStage::Folder => OpmlActionView::FolderId(feed.folder->0),
            ImportStage::Insert { folder } => OpmlActionView::Insert {
                url: feed.feed_url,
                title: feed.title,
                folder,
            },
        }
    } else {
        OpmlActionView::Done(import_text(state.added, state.skipped))
    }
}

/// What is said of an import.
pub open spec fn import_text(added: nat, skipped: nat) -> Seq<char> {
    let d = header_to(Seq::empty(), 0, "import"@);
    let d = kv_to(d, 1, "added"@, text::decimal(added));
    let d = kv_to(d, 1, "skipped"@, text::decimal(skipped));
    if added > 0 {
        help_to(d, seq!["Run `papr refresh` to fetch the imported feeds"@])
    } else {
        d
    }
}

fn imported(added: usize, skipped: usize) -> (r: String)
    ensures
        r@ == import_text(added as nat, skipped as nat),
{
    let mut out = Out::new();
    out.header(0, "import");
    out.kv(1, "added", text::count(added).as_str());
    out.kv(1, "skipped", text::count(skipped).as_str());
    if added > 0 {
        out.help(&text::list1("Run `papr refresh` to fetch the imported feeds"));
    }
    out.into_string()
}

impl OpmlImport {
    /// What holds of every import: every feed gone through is either added or
    /// skipped.
    pub open spec fn wf(self) -> bool {
        &&& self.at <= self.feeds@.len()
        &&& self.added + self.skipped == self.at
        &&& self.at < self.feeds@.len() && self.stage == ImportStage::Folder
            ==> self.feeds@[self.at as int].folder is Some
    }

    /// How far the import has come.
    pub open spec fn state(self) -> ImportState {
        ImportState {
            at: self.at as nat,
            stage: self.stage,
            added: self.added as nat,
            skipped: self.skipped as nat,
        }
    }

    /// The import of these feeds.
    pub fn new(feeds: Vec<ImportedFeed>) -> (r: OpmlImport)
        ensures
            r.wf(),
            r.feeds == feeds,
            r.state() == import_start(),
    {
        OpmlImport { feeds, at: 0, stage: ImportStage::Find, added: 0, skipped: 0 }
    }

    /// What the import needs next.
    pub fn action(&self) -> (r: OpmlAction)
        requires
            self.wf(),
        ensures
            r@ == import_action_of(feed_views(self.feeds@), self.state()),
    {
        if self.at == self.feeds.len() {
            return OpmlAction::Done(imported(self.added, self.skipped));
        }
        let feed = &self.feeds[self.at];
        match self.stage {
            ImportStage::Find => OpmlAction::Find(feed.feed_url.clone()),
            ImportStage::Folder => match &feed.folder {
                Some(name) => OpmlAction::FolderId(name.clone()),
                None => OpmlAction::Done(imported(self.added, self.skipped)),
            },
            ImportStage::Insert { folder } => OpmlAction::Insert {
                url: feed.feed_url.clone(),
                title: feed.title.clone(),
                folder,
            },
        }
    }

    /// Goes on behind the store's answer to the pending action.
    pub fn answer(&mut self, event: ImportEvent)
        requires
            old(self).wf(),
        ensures
            final(self).wf(),
            final(self).feeds == old(self).feeds,
            final(self).state() == import_next(
                feed_views(old(self).feeds@),
                old(self).state(),
                event,
            ),
    {
        if self.at == self.feeds.len() {
            return;
        }
        let has_folder = self.feeds[self.at].folder.is_some();
        match import_step(self.stage, has_folder, event) {
            ImportStep::Stay => {},
            ImportStep::To(stage) => {
                self.stage = stage;
            },
            ImportStep::Skip => {
                self.skipped = self.skipped + 1;
                self.at = self.at + 1;
                self.stage = ImportStage::Find;
            },
            ImportStep::Added => {
                self.added = self.added + 1;
                self.at = self.at + 1;
                self.stage = ImportStage::Find;
            },
        }
    }
}

/// A feed as it is stored under its URL.
pub struct StoredFeed {
    pub title: Seq<char>,
    pub folder: Option<i64>,
}

/// What a store with these feeds, by URL, and these ids for folders answers.
pub open spec fn store_answer(
    store: Map<Seq<char>, StoredFeed>,
    ids: spec_fn(Seq<char>) -> i64,
    action: OpmlActionView,
) -> ImportEvent {
    match action {
        OpmlActionView::Find(url) => ImportEvent::Found(store.dom().contains(url)),
        OpmlActionView::FolderId(name) => ImportEvent::FolderId(ids(name)),
        _ => ImportEvent::Inserted,
    }
}

/// The store's feeds behind an action.
pub open spec fn store_after(
    store: Map<Seq<char>, StoredFeed>,
    action: OpmlActionView,
) -> Map<Seq<char>, StoredFeed> {
    match action {
        OpmlActionView::Insert { url, title, folder } => store.insert(
            url,
            StoredFeed { title, folder },
        ),
        _ => store,
    }
}

/// Where an import begins.
pub open spec fn import_start() -> ImportState {
    ImportState { at: 0, stage: ImportStage::Find, added: 0, skipped: 0 }
}

/// How many answers an import still needs for its present feed.
pub open spec fn import_rank(stage: ImportStage) -> nat {
    match stage {
        ImportStage::Find => 2,
        ImportStage::Folder => 1,
        ImportStage::Insert { .. } => 0,
    }
}

/// Where an import ends and what the store then holds, where the store
/// performs each action and the import is told what it answers.
pub open spec fn import_end(
    feeds: Seq<ImportedFeedView>,
    state: ImportState,
    store: Map<Seq<char>, StoredFeed>,
    ids: spec_fn(Seq<char>) -> i64,
) -> (ImportState, Map<Seq<char>, StoredFeed>)
    decreases feeds.len() - state.at, import_rank(state.stage),
{
    if state.at < feeds.len() {
        let action = import_action_of(feeds, state);
        import_end(
            feeds,
            import_next(feeds, state, store_answer(store, ids, action)),
            store_after(store, action),
            ids,
        )
    } else {
        (state, store)
    }
}

/// The URLs of feeds.
pub open spec fn urls_of(feeds: Seq<ImportedFeedView>) -> Set<Seq<char>> {
    feeds.map_values(|f: ImportedFeedView| f.feed_url).to_set()
}

/// A feed as an import stores it.
pub open spec fn stored_as(feed: ImportedFeedView, ids: spec_fn(Seq<char>) -> i64) -> StoredFeed {
    StoredFeed {
        title: feed.title,
        folder: match feed.folder {
            Some(name) => Some(ids(name)),
            None => None,
        },
    }
}

/// That a feed is the first of a list with its URL.
pub open spec fn is_first_of_url(feeds: Seq<ImportedFeedView>, i: int) -> bool {
    forall|j: int| 0 <= j < i ==> (#[trigger] feeds[j]).feed_url != feeds[i].feed_url
}

proof fn lemma_urls_of(feeds: Seq<ImportedFeedView>)
    ensures
        urls_of(feeds).finite(),
        forall|i: int|
            0 <= i < feeds.len() ==> urls_of(feeds).contains((#[trigger] feeds[i]).feed_url),
        feeds.len() > 0 ==> urls_of(feeds) == urls_of(feeds.drop_first()).insert(
            feeds[0].feed_url,
        ),
{
    let urls = feeds.map_values(|f: ImportedFeedView| f.feed_url);
    vstd::seq_lib::seq_to_set_is_finite(urls);
    assert forall|i: int| 0 <= i < feeds.len() implies urls_of(feeds).contains(
        (#[trigger] feeds[i]).feed_url,
    ) by {
        assert(urls[i] == feeds[i].feed_url);
    }
    if feeds.len() > 0 {
        let rest = feeds.drop_first().map_values(|f: ImportedFeedView| f.feed_url);
        assert(rest =~= urls.drop_first());
        assert forall|u: Seq<char>| urls.contains(u) == (u == urls[0] || rest.contains(u)) by {
            if urls.contains(u) && u != urls[0] {
                let k = choose|k: int| 0 <= k < urls.len() && urls[k] == u;
                assert(rest[k - 1] == u);
            }
            if rest.contains(u) {
                let k = choose|k: int| 0 <= k < rest.len() && rest[k] == u;
                assert(urls[k + 1] == u);
            }
        }
        assert(urls.to_set() =~= rest.to_set().insert(urls[0]));
    }
}

proof fn lemma_import_rest(
    feeds: Seq<ImportedFeedView>,
    state: ImportState,
    store: Map<Seq<char>, StoredFeed>,
    ids: spec_fn(Seq<char>) -> i64,
)
    requires
        state.at <= feeds.len(),
        state.stage == ImportStage::Find,
    ensures
        ({
            let rest = feeds.skip(state.at as int);
            let end = import_end(feeds, state, store, ids);
            &&& end.0.at == feeds.len()
            &&& end.0.stage == ImportStage::Find
            &&& end.0.added == state.added + urls_of(rest).difference(store.dom()).len()
            &&& end.0.added + end.0.skipped == state.added + state.skipped + rest.len()
            &&& end.1.dom() == store.dom().union(urls_of(rest))
            &&& forall|url: Seq<char>| #[trigger]
                store.dom().contains(url) ==> end.1[url] == store[url]
            &&& forall|i: int|
                0 <= i < rest.len() && !store.dom().contains((#[trigger] rest[i]).feed_url)
                    && is_first_of_url(rest, i) ==> end.1[rest[i].feed_url] == stored_as(
                    rest[i],
                    ids,
                )
        }),
    decreases feeds.len() - state.at,
{
    let rest = feeds.skip(state.at as int);
    lemma_urls_of(rest);
    if state.at == feeds.len() {
        assert(rest.len() == 0);
        assert(urls_of(rest) =~= Set::<Seq<char>>::empty());
        assert(urls_of(rest).difference(store.dom()) =~= Set::<Seq<char>>::empty());
        assert(store.dom().union(urls_of(rest)) =~= store.dom());
    } else {
        reveal_with_fuel(import_end, 4);
        let feed = feeds[state.at as int];
        let url = feed.feed_url;
        let tail = feeds.skip(state.at as int + 1);
        assert(rest[0] == feed);
        assert(rest.drop_first() =~= tail);
        lemma_urls_of(tail);
        let known = store.dom().contains(url);
        let next = ImportState {
            at: state.at + 1,
            stage: ImportStage::Find,
            added: state.added + if known {
                0nat
            } else {
                1nat
            },
            skipped: state.skipped + if known {
                1nat
            } else {
                0nat
            },
        };
        let held = if known {
            store
        } else {
            store.insert(url, stored_as(feed, ids))
        };
        assert(import_end(feeds, state, store, ids) == import_end(feeds, next, held, ids));
        lemma_import_rest(feeds, next, held, ids);
        let end = import_end(feeds, state, store, ids);
        let new = urls_of(tail).difference(held.dom());
        if known {
            assert(urls_of(rest).difference(store.dom()) =~= new);
        } else {
            assert(urls_of(rest).difference(store.dom()) =~= new.insert(url));
            assert(!new.contains(url));
            assert(new.finite());
        }
        assert(end.1.dom() =~= store.dom().union(urls_of(rest)));
        assert forall|u: Seq<char>| #[trigger] store.dom().contains(u) implies end.1[u]
            == store[u] by {
            assert(held.dom().contains(u));
        }
        assert forall|i: int|
            0 <= i < rest.len() && !store.dom().contains((#[trigger] rest[i]).feed_url)
                && is_first_of_url(rest, i) implies end.1[rest[i].feed_url] == stored_as(
            rest[i],
            ids,
        ) by {
            if i > 0 {
                assert(rest[0].feed_url != rest[i].feed_url);
                assert(tail[i - 1] == rest[i]);
                assert(is_first_of_url(tail, i - 1)) by {
                    assert forall|j: int| 0 <= j < i - 1 implies (#[trigger] tail[j]).feed_url
                        != tail[i - 1].feed_url by {
                        assert(tail[j] == rest[j + 1]);
                    }
                }
            } else {
                assert(held.dom().contains(url));
            }
        }
    }
}

/// An import goes through the whole list: every feed is either added or
/// skipped, as many are added as the list has different URLs that were not
/// subscribed to, and then every URL of the list is. What was subscribed to
/// stays as it was, and a new feed has the title and folder under which the
/// list first names it.
pub proof fn law_an_import_adds_what_is_new(
    feeds: Seq<ImportedFeedView>,
    store: Map<Seq<char>, StoredFeed>,
    ids: spec_fn(Seq<char>) -> i64,
)
    ensures
        ({
            let end = import_end(feeds, import_start(), store, ids);
            let new = urls_of(feeds).difference(store.dom()).len();
            &&& end.0.added == new
            &&& end.0.added + end.0.skipped == feeds.len()
            &&& import_action_of(feeds, end.0) == OpmlActionView::Done(
                import_text(new, (feeds.len() - new) as nat),
            )
            &&& end.1.dom() == store.dom().union(urls_of(feeds))
            &&& forall|url: Seq<char>| #[trigger]
                store.dom().contains(url) ==> end.1[url] == store[url]
            &&& forall|i: int|
                0 <= i < feeds.len() && !store.dom().contains((#[trigger] feeds[i]).feed_url)
                    && is_first_of_url(feeds, i) ==> end.1[feeds[i].feed_url] == stored_as(
                    feeds[i],
                    ids,
                )
        }),
{
    lemma_import_rest(feeds, import_start(), store, ids);
    assert(feeds.skip(0) =~= feeds);
}

/// Importing a list a second time adds nothing: every feed is skipped, and what
/// is subscribed to stays as it is, whatever ids the folders have by then.
pub proof fn law_importing_again_adds_nothing(
    feeds: Seq<ImportedFeedView>,
    store: Map<Seq<char>, StoredFeed>,
    ids: spec_fn(Seq<char>) -> i64,
    later_ids: spec_fn(Seq<char>) -> i64,
)
    ensures
        ({
            let first = import_end(feeds, import_start(), store, ids);
            let second = import_end(feeds, import_start(), first.1, later_ids);
            &&& second.0.added == 0
            &&& second.0.skipped == feeds.len()
            &&& second.1 == first.1
        }),
{
    let first = import_end(feeds, import_start(), store, ids);
    let second = import_end(feeds, import_start(), first.1, later_ids);
    law_an_import_adds_what_is_new(feeds, store, ids);
    law_an_import_adds_what_is_new(feeds, first.1, later_ids);
    assert(urls_of(feeds).difference(first.1.dom()) =~= Set::<Seq<char>>::empty());
    assert(second.1.dom() =~= first.1.dom());
    assert(second.1 =~= first.1);
}

/// The words of an error.
pub open spec fn words_of(e: ErrorView) -> Seq<char> {
    match e {
        ErrorView::Code(s) => s,
        ErrorView::Other(s) => s,
        ErrorView::Network(s) => s,
        ErrorView::Store(s) => s,
        ErrorView::Opml(s) => s,
    }
}

/// The import of a subscription list. `content` is the file's text, or the
/// words for why it could not be read.
pub fn cmd_opml_import(file: &str, content: Result<String, String>) -> (r: Result<
    OpmlImport,
    AxiError,
>)
    ensures
        match content {
            Err(e) => r matches Err(said) && said@ == runtime_error(
                "could not read "@ + file@ + ": "@ + e@,
            ),
            Ok(text) => match parsed(text@) {
                Err(e) => r matches Err(said) && said@ == runtime_error(
                    "invalid OPML: "@ + words_of(e),
                ),
                Ok(feeds) => r matches Ok(import) && import.wf() && feed_views(import.feeds@)
                    == feeds && import.state() == import_start(),
            },
        },
{
    match content {
        Err(e) => {
            let message = text::cat4("could not read ", file, ": ", e.as_str());
            Err(AxiError::runtime(message.as_str()))
        },
        Ok(text) => match parse(text.as_str()) {
            Err(e) => {
                let message = text::cat("invalid OPML: ", e.message().as_str());
                Err(AxiError::runtime(message.as_str()))
            },
            Ok(feeds) => Ok(OpmlImport::new(feeds)),
        },
    }
}

/// The text of an exported subscription list. Importing it gives the same
/// feeds back, by folder, where the document can carry them.
pub fn cmd_opml_export(feeds: &Vec<(String, String, Option<String>)>) -> (r: Result<
    String,
    AxiError,
>)
    ensures
        r matches Ok(xml) && xml@ == opml_text(
            "Papr Subscriptions"@,
            body_outlines(grouped(listed(feeds@))),
        ) && (are_portable(listed(feeds@)) ==> parsed(xml@) == Ok::<
            Seq<ImportedFeedView>,
            ErrorView,
        >(all_feeds(grouped(listed(feeds@))))),
{
    match build(feeds) {
        Ok(xml) => Ok(xml),
        Err(e) => {
            let message = text::cat("OPML build failed: ", e.message().as_str());
            Err(AxiError::runtime(message.as_str()))
        },
    }
}

/// What is said of an export into a file; `failed` are the words for why it
/// could not be written.
pub fn exported(feeds: usize, file: &str, failed: Option<&str>) -> (r: Result<String, AxiError>)
    ensures
        outcome(r) == (match failed {
            Some(e) => Err::<Seq<char>, AxiErrorView>(
                runtime_error("could not write "@ + file@ + ": "@ + e@),
            ),
            None => Ok(
                one_line("exported "@ + text::decimal(feeds as nat) + " feeds to "@ + file@),
            ),
        }),
{
    match failed {
        Some(e) => {
            let message = text::cat4("could not write ", file, ": ", e);
            Err(AxiError::runtime(message.as_str()))
        },
        None => {
            let line = text::cat4("exported ", text::count(feeds).as_str(), " feeds to ", file);
            crate::cli::ok_line(line.as_str())
        },
    }
}

// ───────────────────────────── laws ─────────────────────────────

/// What is at a URL is taken as a feed where it is one, under its title or else
/// where it was found; else the first feed that its page links to is, and where
/// there is none that is said.
pub proof fn law_how_feeds_are_found(
    asked: Seq<char>,
    url: Seq<char>,
    at: String,
    title: String,
    links: Vec<String>,
    e: String,
)
    ensures
        subscribe_step_of(StageView::Fetch, asked, SubscribeEvent::Fetched(Ok(at)))
            == (StageView::Parse { url: at@ }),
        subscribe_step_of(StageView::Fetch, asked, SubscribeEvent::Fetched(Err(e)))
            == StageView::Done(Err(runtime_error("could not fetch "@ + asked + ": "@ + e@))),
        subscribe_step_of(
            StageView::Parse { url },
            asked,
            SubscribeEvent::Parsed(Ok(Some(title))),
        ) == (StageView::Find { url, title: title@ }),
        subscribe_step_of(StageView::Parse { url }, asked, SubscribeEvent::Parsed(Ok(None)))
            == (StageView::Find { url, title: url }),
        subscribe_step_of(StageView::Parse { url }, asked, SubscribeEvent::Parsed(Err(e)))
            == (StageView::Discover { url }),
        links@.len() > 0 ==> subscribe_step_of(
            StageView::Discover { url },
            asked,
            SubscribeEvent::Discovered(links),
        ) == (StageView::FetchFound { url: links@[0]@ }),
        links@.len() == 0 ==> (subscribe_step_of(
            StageView::Discover { url },
            asked,
            SubscribeEvent::Discovered(links),
        ) matches StageView::Done(Err(said)) && said.message == "no feed found at "@ + asked
            && !said.usage && said.help == seq!["Pass the feed URL directly if you have it"@]),
        subscribe_step_of(
            StageView::FetchFound { url },
            asked,
            SubscribeEvent::Fetched(Ok(at)),
        ) == (StageView::ParseFound { url: at@ }),
        subscribe_step_of(StageView::FetchFound { url }, asked, SubscribeEvent::Fetched(Err(e)))
            == StageView::Done(Err(runtime_error("could not fetch "@ + url + ": "@ + e@))),
        subscribe_step_of(
            StageView::ParseFound { url },
            asked,
            SubscribeEvent::Parsed(Ok(Some(title))),
        ) == (StageView::Find { url, title: title@ }),
        subscribe_step_of(StageView::ParseFound { url }, asked, SubscribeEvent::Parsed(Ok(None)))
            == (StageView::Find { url, title: url }),
        subscribe_step_of(StageView::ParseFound { url }, asked, SubscribeEvent::Parsed(Err(e)))
            == StageView::Done(Err(runtime_error("discovered feed did not parse: "@ + e@))),
{
}

/// A feed that is found is stored, with its articles, exactly where it is not
/// subscribed to already; what is said at the end is of that feed.
pub proof fn law_how_feeds_are_stored(
    asked: Seq<char>,
    url: Seq<char>,
    title: Seq<char>,
    id: i64,
    kind: String,
    n: usize,
    e: String,
)
    ensures
        subscribe_step_of(
            StageView::Find { url, title },
            asked,
            SubscribeEvent::Found(Some(id)),
        ) == StageView::Done(Ok::<Seq<char>, AxiErrorView>(already_text(id as int))),
        subscribe_step_of(StageView::Find { url, title }, asked, SubscribeEvent::Found(None))
            == (StageView::Insert { url, title }),
        subscribe_step_of(
            StageView::Insert { url, title },
            asked,
            SubscribeEvent::Inserted { id, kind },
        ) == (StageView::Ingest { id, url, title, kind: kind@ }),
        subscribe_step_of(
            StageView::Ingest { id, url, title, kind: kind@ },
            asked,
            SubscribeEvent::Ingested(n),
        ) == StageView::Done(
            Ok::<Seq<char>, AxiErrorView>(subscribed_text(id as int, url, title, kind@, n as nat)),
        ),
        subscribe_step_of(StageView::Find { url, title }, asked, SubscribeEvent::StoreFailed(e))
            == StageView::Done(Err(runtime_error(e@))),
        subscribe_step_of(StageView::Insert { url, title }, asked, SubscribeEvent::StoreFailed(e))
            == StageView::Done(Err(runtime_error(e@))),
{
}

/// What is said of a new feed names it by its id, title, URL and type and says
/// how many articles it brought; of one that was there already, that it was.
pub proof fn law_subscriptions_are_reported(
    id: int,
    url: Seq<char>,
    title: Seq<char>,
    kind: Seq<char>,
    articles: nat,
)
    ensures
        already_text(id) == "feed: #"@ + text::numeral(id) + " already subscribed (no-op)"@ + "\n"@
            + help_to(
            Seq::empty(),
            seq!["Run `papr list --feed "@ + text::numeral(id) + "` to read it"@],
        ),
        subscribed_text(id, url, title, kind, articles) == "feed"@ + ":\n"@ + ("  "@ + "id"@ + ": "@
            + crate::toon::scalar_of(text::numeral(id)) + "\n"@) + ("  "@ + "title"@ + ": "@
            + crate::toon::scalar_of(title) + "\n"@) + ("  "@ + "url"@ + ": "@
            + crate::toon::scalar_of(url) + "\n"@) + ("  "@ + "type"@ + ": "@
            + crate::toon::scalar_of(kind) + "\n"@) + ("  "@ + "articles"@ + ": "@
            + crate::toon::scalar_of(text::decimal(articles)) + "\n"@) + help_to(
            Seq::empty(),
            seq![
                "Run `papr list --feed "@ + text::numeral(id) + "` to read it"@,
                "Run `papr refresh --feed "@ + text::numeral(id) + "` to fetch more later"@,
            ],
        ),
{
    let none = Seq::<char>::empty();
    let line = "feed: #"@ + text::numeral(id) + " already subscribed (no-op)"@;
    crate::cli::law_store_failures_keep_their_words(line);
    crate::toon::law_documents_only_grow(
        one_line(line),
        0,
        none,
        none,
        seq!["Run `papr list --feed "@ + text::numeral(id) + "` to read it"@],
        Seq::empty(),
    );
    crate::toon::law_documents_grow_by_lines(none, 0, none, "feed"@, none);
    let d0 = header_to(none, 0, "feed"@);
    assert(d0 =~= "feed"@ + ":\n"@);
    crate::toon::law_nested_values(d0, "id"@, text::numeral(id));
    let d1 = kv_to(d0, 1, "id"@, text::numeral(id));
    crate::toon::law_nested_values(d1, "title"@, title);
    let d2 = kv_to(d1, 1, "title"@, title);
    crate::toon::law_nested_values(d2, "url"@, url);
    let d3 = kv_to(d2, 1, "url"@, url);
    crate::toon::law_nested_values(d3, "type"@, kind);
    let d4 = kv_to(d3, 1, "type"@, kind);
    crate::toon::law_nested_values(d4, "articles"@, text::decimal(articles));
    let d5 = kv_to(d4, 1, "articles"@, text::decimal(articles));
    crate::toon::law_documents_only_grow(
        d5,
        0,
        none,
        none,
        seq![
            "Run `papr list --feed "@ + text::numeral(id) + "` to read it"@,
            "Run `papr refresh --feed "@ + text::numeral(id) + "` to fetch more later"@,
        ],
        Seq::empty(),
    );
}

/// What is said of an import is how many feeds were added and how many skipped,
/// and how to fetch the new ones where there are any.
pub proof fn law_imports_are_reported(added: nat, skipped: nat)
    ensures
        import_text(added, skipped) == "import"@ + ":\n"@ + ("  "@ + "added"@ + ": "@
            + crate::toon::scalar_of(text::decimal(added)) + "\n"@) + ("  "@ + "skipped"@ + ": "@
            + crate::toon::scalar_of(text::decimal(skipped)) + "\n"@) + help_to(
            Seq::empty(),
            if added > 0 {
                seq!["Run `papr refresh` to fetch the imported feeds"@]
            } else {
                Seq::empty()
            },
        ),
{
    let none = Seq::<char>::empty();
    crate::toon::law_documents_grow_by_lines(none, 0, none, "import"@, none);
    let d0 = header_to(none, 0, "import"@);
    assert(d0 =~= "import"@ + ":\n"@);
    crate::toon::law_nested_values(d0, "added"@, text::decimal(added));
    let d1 = kv_to(d0, 1, "added"@, text::decimal(added));
    crate::toon::law_nested_values(d1, "skipped"@, text::decimal(skipped));
    let d2 = kv_to(d1, 1, "skipped"@, text::decimal(skipped));
    crate::toon::law_documents_only_grow(
        d2,
        0,
        none,
        none,
        seq!["Run `papr refresh` to fetch the imported feeds"@],
        Seq::empty(),
    );
    assert(d2 + none =~= d2);
}

/// An error is reported in its own words, whatever kind it is of.
pub proof fn law_errors_keep_their_words(s: Seq<char>)
    ensures
        words_of(ErrorView::Code(s)) == s,
        words_of(ErrorView::Other(s)) == s,
        words_of(ErrorView::Network(s)) == s,
        words_of(ErrorView::Store(s)) == s,
        words_of(ErrorView::Opml(s)) == s,
{
}

/// A list is imported feed by feed: a feed that is subscribed to is skipped, and
/// a new one is stored in its folder, whose id is asked for where it has one.
pub proof fn law_how_lists_are_imported(has_folder: bool, folder: Option<i64>, id: i64)
    ensures
        import_step_of(ImportStage::Find, has_folder, ImportEvent::Found(true)) == ImportStep::Skip,
        import_step_of(ImportStage::Find, true, ImportEvent::Found(false)) == ImportStep::To(
            ImportStage::Folder,
        ),
        import_step_of(ImportStage::Find, false, ImportEvent::Found(false)) == ImportStep::To(
            ImportStage::Insert { folder: None },
        ),
        import_step_of(ImportStage::Folder, has_folder, ImportEvent::FolderId(id))
            == ImportStep::To(ImportStage::Insert { folder: Some(id) }),
        import_step_of(ImportStage::Insert { folder }, has_folder, ImportEvent::Inserted)
            == ImportStep::Added,
{
}

/// An import counts each feed once, as skipped or as added, and goes on to the
/// next; nothing else counts.
pub proof fn law_imports_count_each_feed(
    feeds: Seq<ImportedFeedView>,
    state: ImportState,
    event: ImportEvent,
)
    requires
        state.at < feeds.len(),
    ensures
        ({
            let step = import_step_of(
                state.stage,
                feeds[state.at as int].folder is Some,
                event,
            );
            let next = import_next(feeds, state, event);
            &&& step is Stay ==> next == state
            &&& step matches ImportStep::To(stage) ==> next.stage == stage && next.at == state.at
                && next.added == state.added && next.skipped == state.skipped
            &&& step is Skip ==> next.stage == ImportStage::Find && next.at == state.at + 1
                && next.added == state.added && next.skipped == state.skipped + 1
            &&& step is Added ==> next.stage == ImportStage::Find && next.at == state.at + 1
                && next.added == state.added + 1 && next.skipped == state.skipped
        }),
        import_start() == (ImportState {
            at: 0,
            stage: ImportStage::Find,
            added: 0,
            skipped: 0,
        }),
{
}

/// What an import asks for is of its present feed: whether its own URL is there,
/// the id of its own folder, and to be stored under its own title.
pub proof fn law_imports_ask_for_their_feed(
    feeds: Seq<ImportedFeedView>,
    state: ImportState,
    folder: Option<i64>,
)
    ensures
        state.at < feeds.len() && state.stage == ImportStage::Find ==> import_action_of(feeds, state)
            == OpmlActionView::Find(feeds[state.at as int].feed_url),
        state.at < feeds.len() && state.stage == ImportStage::Folder
            && feeds[state.at as int].folder is Some ==> import_action_of(feeds, state)
            == OpmlActionView::FolderId(feeds[state.at as int].folder->0),
        state.at < feeds.len() && state.stage == (ImportStage::Insert { folder })
            ==> import_action_of(feeds, state) == (OpmlActionView::Insert {
            url: feeds[state.at as int].feed_url,
            title: feeds[state.at as int].title,
            folder,
        }),
        state.at >= feeds.len() ==> import_action_of(feeds, state) == OpmlActionView::Done(
            import_text(state.added, state.skipped),
        ),
{
}

/// A store says whether it has a URL, gives a folder's id, and holds a feed behind
/// its having been stored and not before.
pub proof fn law_stores_are_honest(
    store: Map<Seq<char>, StoredFeed>,
    ids: spec_fn(Seq<char>) -> i64,
    url: Seq<char>,
    title: Seq<char>,
    folder: Option<i64>,
)
    ensures
        store_answer(store, ids, OpmlActionView::Find(url)) == ImportEvent::Found(
            store.dom().contains(url),
        ),
        store_answer(store, ids, OpmlActionView::FolderId(url)) == ImportEvent::FolderId(ids(url)),
        store_answer(store, ids, OpmlActionView::Insert { url, title, folder })
            == ImportEvent::Inserted,
        store_after(store, OpmlActionView::Find(url)) == store,
        store_after(store, OpmlActionView::FolderId(url)) == store,
        store_after(store, OpmlActionView::Insert { url, title, folder }) == store.insert(
            url,
            StoredFeed { title, folder },
        ),
{
}

/// An import's state and actions say what they hold.
pub proof fn law_imports_say_what_they_hold(run: OpmlImport, a: OpmlAction)
    ensures
        run.state().at == run.at,
        run.state().stage == run.stage,
        run.state().added == run.added,
        run.state().skipped == run.skipped,
        a matches OpmlAction::Find(url) ==> a@ == OpmlActionView::Find(url@),
        a matches OpmlAction::FolderId(name) ==> a@ == OpmlActionView::FolderId(name@),
        a matches OpmlAction::Insert { url, title, folder } ==> a@ == (OpmlActionView::Insert {
            url: url@,
            title: title@,
            folder,
        }),
        a matches OpmlAction::Done(said) ==> a@ == OpmlActionView::Done(said@),
{
}

} // verus!
