//! The desktop app's synchronisation: like [`crate::sync`], but it only
//! reconciles the state of articles it already has, keeps local changes that
//! the server has not seen yet, and leaves a feed in the folder the user
//! filed it under.

use vstd::prelude::*;
use crate::error::{AppError, ErrorView};
use crate::greader::{
    category_name, connection, get_request, has_exact_tag, lemma_setting_names,
    list_subscriptions, session_result, setting, written, Session, SessionView, Stored, Sub,
    SubCat, READ_TAG, STARRED_TAG,
};
use crate::models::SyncEntry;
use crate::net::{pairs, put_pair, Reply, Request};
use crate::sync::{contents_request, first_href, Item, PushAction, PushRun};
use crate::text;

verus! {

// ─────────────────────────── session and settings ───────────────────────────

/// The session that a write token's reply opens: an error status means that
/// the auth token is no longer valid, no answer at all is the client's error.
pub open spec fn session_outcome(base: Seq<char>, auth: Seq<char>, reply: Reply) -> Result<
    SessionView,
    ErrorView,
> {
    match reply {
        Reply::Body(token) => Ok(SessionView { base, auth, token: text::trimmed(token@) }),
        Reply::Refused { .. } => Err(ErrorView::Code("freshrssLoginFailed"@)),
        Reply::Failed(e) => Err(ErrorView::Network(e@)),
        Reply::Broken(e) => Err(ErrorView::Network(e@)),
    }
}

/// The session that a write token's reply opens.
pub fn session_with_token(base: &str, auth: String, reply: Reply) -> (r: Result<Session, AppError>)
    ensures
        session_result(r) == session_outcome(base@, auth@, reply),
{
    match reply {
        Reply::Body(token) => Ok(
            Session { base: base.to_owned(), auth, token: text::trim(token.as_str()) },
        ),
        Reply::Refused { .. } => Err(AppError::code("freshrssLoginFailed")),
        Reply::Failed(e) => Err(AppError::Network(e)),
        Reply::Broken(e) => Err(AppError::Network(e)),
    }
}

/// The settings to write to forget a connection.
pub open spec fn disconnect_settings() -> Seq<(Seq<char>, Seq<char>)> {
    seq![
        ("freshrss_url"@, ""@),
        ("freshrss_user"@, ""@),
        ("freshrss_auth"@, ""@),
        ("freshrss_pass"@, ""@),
        ("freshrss_provider"@, ""@),
    ]
}

/// The settings to write to forget a connection.
pub fn disconnect() -> (r: Vec<(String, String)>)
    ensures
        pairs(r@) == disconnect_settings(),
{
    let mut v: Vec<(String, String)> = Vec::new();
    put_pair(&mut v, "freshrss_url", "");
    put_pair(&mut v, "freshrss_user", "");
    put_pair(&mut v, "freshrss_auth", "");
    put_pair(&mut v, "freshrss_pass", "");
    put_pair(&mut v, "freshrss_provider", "");
    assert(pairs(v@) =~= disconnect_settings());
    v
}

/// After a disconnect no connection is stored, whatever was before.
pub proof fn law_disconnect_forgets(stored: Stored)
    ensures
        connection(written(stored, disconnect_settings())) is None,
{
    lemma_setting_names();
    reveal_with_fuel(written, 6);
    let d = disconnect_settings();
    assert(d.drop_last().drop_last().drop_last().drop_last().drop_last().len() == 0);
    assert(setting(written(stored, d), "freshrss_url"@) == Some(""@));
    assert(text::trimmed(""@) =~= ""@);
}

/// The request for the server's recent articles.
pub fn pull_contents(session: &Session) -> (r: Request)
    ensures
        r@ == contents_request(session@),
{
    session.get("stream/contents/user/-/state/com.google/reading-list?output=json&n=1000")
}

// ─────────────────────── taking over subscriptions ───────────────────────

/// The folder a category stands for: the name it carries.
pub fn folder_name(cat: &SubCat) -> (r: Option<String>)
    ensures
        text::view_of(r) == category_name(*cat),
{
    cat.name()
}

/// The name of the first category that carries one.
pub open spec fn name_among(cats: Seq<SubCat>) -> Option<Seq<char>>
    decreases cats.len(),
{
    if cats.len() == 0 {
        None
    } else {
        match category_name(cats[0]) {
            Some(name) => Some(name),
            None => name_among(cats.drop_first()),
        }
    }
}

fn subscription_folder(categories: &Vec<SubCat>) -> (r: Option<String>)
    ensures
        text::view_of(r) == name_among(categories@),
{
    assert(categories@.skip(0) =~= categories@);
    for i in 0..categories.len()
        invariant
            name_among(categories@) == name_among(categories@.skip(i as int)),
    {
        assert(categories@.skip(i as int)[0] == categories@[i as int]);
        assert(categories@.skip(i as int).drop_first() =~= categories@.skip(i + 1));
        match folder_name(&categories[i]) {
            Some(name) => {
                return Some(name);
            },
            None => {},
        }
    }
    assert(categories@.skip(categories@.len() as int).len() == 0);
    None
}

/// What a server-side subscription calls for locally: a folder, and a feed
/// with this URL and title.
#[derive(Debug, PartialEq, Eq)]
pub struct SubPlan {
    pub folder: Option<String>,
    pub feed: Option<(String, String)>,
}

/// What a [`SubPlan`] says.
pub struct SubPlanView {
    pub folder: Option<Seq<char>>,
    pub feed: Option<(Seq<char>, Seq<char>)>,
}

impl View for SubPlan {
    type V = SubPlanView;

    open spec fn view(&self) -> SubPlanView {
        SubPlanView {
            folder: text::view_of(self.folder),
            feed: match self.feed {
                Some(f) => Some((f.0@, f.1@)),
                None => None,
            },
        }
    }
}

/// What a subscription calls for.
pub open spec fn plan_of(sub: Sub) -> SubPlanView {
    SubPlanView {
        folder: name_among(sub.categories@),
        feed: match text::nonempty_of(text::view_of(sub.url)) {
            Some(url) => Some((url, text::or_else(text::view_of(sub.title), url))),
            None => None,
        },
    }
}

/// What a subscription calls for.
pub fn plan_subscription(sub: &Sub) -> (r: SubPlan)
    ensures
        r@ == plan_of(*sub),
{
    let folder = subscription_folder(&sub.categories);
    let feed = match &sub.url {
        Some(url) => if url.as_str().is_empty() {
            None
        } else {
            let title = match &sub.title {
                Some(title) => title.clone(),
                None => url.clone(),
            };
            Some((url.clone(), title))
        },
        None => None,
    };
    SubPlan { folder, feed }
}

/// What the subscriptions call for, those left out that call for nothing.
pub open spec fn plans_of(subs: Seq<Sub>) -> Seq<SubPlanView>
    decreases subs.len(),
{
    if subs.len() == 0 {
        Seq::empty()
    } else {
        let before = plans_of(subs.drop_last());
        let plan = plan_of(subs.last());
        if plan.folder is None && plan.feed is None {
            before
        } else {
            before.push(plan)
        }
    }
}

/// What a list of plans says.
pub open spec fn plan_views(v: Seq<SubPlan>) -> Seq<SubPlanView> {
    v.map_values(|p: SubPlan| p@)
}

/// Where the import of one subscription stands.
#[derive(Clone, Copy, Debug, PartialEq, Eq, Structural)]
pub enum ImportStage {
    /// Its folder's id is wanted.
    Folder,
    /// The feed is looked for; the server has it in `folder`.
    Find { folder: Option<i64> },
    /// The feed is made.
    Insert { folder: Option<i64> },
    /// The feed is there; its folder is wanted.
    Current { id: i64, into: i64 },
    /// The feed is moved.
    Move { id: i64, into: i64 },
}

/// What the store says to the import of a subscription.
#[derive(Clone, Copy, Debug, PartialEq, Eq, Structural)]
pub enum ImportEvent {
    /// The id of the folder of that name, which is made where it is missing.
    FolderId(i64),
    /// The feed with that URL.
    Found(Option<i64>),
    /// The feed was made, or could not be.
    Inserted,
    /// The folder the feed is in.
    InFolder(Option<i64>),
    /// The feed was moved.
    Moved,
}

/// What an event leads to.
#[derive(Clone, Copy, Debug, PartialEq, Eq, Structural)]
pub enum ImportStep {
    /// It answers another question: nothing changes.
    Stay,
    /// This comes next.
    To(ImportStage),
    /// The next subscription follows.
    Next,
}

/// What an event leads to: a feed that is missing is made in the server's
/// folder; one that is there is moved into it only where it is in no folder.
pub open spec fn import_step_of(
    stage: ImportStage,
    has_feed: bool,
    event: ImportEvent,
) -> ImportStep {
    match (stage, event) {
        (ImportStage::Folder, ImportEvent::FolderId(id)) => if has_feed {
            ImportStep::To(ImportStage::Find { folder: Some(id) })
        } else {
            ImportStep::Next
        },
        (ImportStage::Find { folder }, ImportEvent::Found(None)) => ImportStep::To(
            ImportStage::Insert { folder },
        ),
        (ImportStage::Find { folder: Some(folder) }, ImportEvent::Found(Some(id))) => ImportStep::To(
            ImportStage::Current { id, into: folder },
        ),
        (ImportStage::Find { folder: None }, ImportEvent::Found(Some(id))) => ImportStep::Next,
        (ImportStage::Insert { .. }, ImportEvent::Inserted) => ImportStep::Next,
        (ImportStage::Current { id, into }, ImportEvent::InFolder(None)) => ImportStep::To(
            ImportStage::Move { id, into },
        ),
        (ImportStage::Current { .. }, ImportEvent::InFolder(Some(_))) => ImportStep::Next,
        (ImportStage::Move { .. }, ImportEvent::Moved) => ImportStep::Next,
        _ => ImportStep::Stay,
    }
}

/// What an event leads to.
pub fn import_step(stage: ImportStage, has_feed: bool, event: ImportEvent) -> (r: ImportStep)
    ensures
        r == import_step_of(stage, has_feed, event),
{
    match (stage, event) {
        (ImportStage::Folder, ImportEvent::FolderId(id)) => if has_feed {
            ImportStep::To(ImportStage::Find { folder: Some(id) })
        } else {
            ImportStep::Next
        },
        (ImportStage::Find { folder }, ImportEvent::Found(found)) => match found {
            None => ImportStep::To(ImportStage::Insert { folder }),
            Some(id) => match folder {
                Some(folder) => ImportStep::To(ImportStage::Current { id, into: folder }),
                None => ImportStep::Next,
            },
        },
        (ImportStage::Insert { .. }, ImportEvent::Inserted) => ImportStep::Next,
        (ImportStage::Current { id, into }, ImportEvent::InFolder(now)) => match now {
            None => ImportStep::To(ImportStage::Move { id, into }),
            Some(_) => ImportStep::Next,
        },
        (ImportStage::Move { .. }, ImportEvent::Moved) => ImportStep::Next,
        _ => ImportStep::Stay,
    }
}

/// How many answers the import of a subscription can still need.
pub open spec fn import_answers_left(stage: ImportStage) -> nat {
    match stage {
        ImportStage::Folder => 4,
        ImportStage::Find { .. } => 3,
        ImportStage::Insert { .. } => 1,
        ImportStage::Current { .. } => 2,
        ImportStage::Move { .. } => 1,
    }
}

/// The import of a subscription ends: each answer to its question brings it
/// on to another subscription, or nearer to that.
pub proof fn law_import_advances(stage: ImportStage, has_feed: bool, event: ImportEvent)
    ensures
        import_step_of(stage, has_feed, event) matches ImportStep::To(next)
            ==> import_answers_left(next) < import_answers_left(stage),
{
}

/// A feed that the user filed is never moved: a move comes only where the
/// feed is in no folder.
pub proof fn law_filed_feeds_stay(stage: ImportStage, has_feed: bool, event: ImportEvent)
    ensures
        import_step_of(stage, has_feed, event) matches ImportStep::To(ImportStage::Move { .. })
            ==> event == ImportEvent::InFolder(None),
{
}

/// The import of the server's subscriptions.
#[derive(Debug, PartialEq, Eq)]
pub struct ImportRun {
    pub plans: Vec<SubPlan>,
    pub at: usize,
    pub stage: ImportStage,
}

/// What an [`ImportRun`] needs next. A failure ends the sync, but for that of
/// making a feed.
#[derive(Debug, PartialEq, Eq)]
pub enum ImportAction {
    /// The id of the folder of this name, made where it is missing.
    FolderId(String),
    /// The feed with this URL.
    FindFeed(String),
    /// A new feed.
    InsertFeed { url: String, title: String, folder: Option<i64> },
    /// The folder that this feed is in.
    FeedFolder(i64),
    /// This feed moved into this folder.
    MoveFeed { id: i64, into: i64 },
    /// Nothing.
    Done,
}

/// Where the import of the subscription with this plan starts.
pub open spec fn first_stage(plans: Seq<SubPlan>, at: int) -> ImportStage {
    if 0 <= at < plans.len() && plans[at].folder is None {
        ImportStage::Find { folder: None }
    } else {
        ImportStage::Folder
    }
}

fn first(plans: &Vec<SubPlan>, at: usize) -> (r: ImportStage)
    ensures
        r == first_stage(plans@, at as int),
{
    if at < plans.len() && plans[at].folder.is_none() {
        ImportStage::Find { folder: None }
    } else {
        ImportStage::Folder
    }
}

impl ImportRun {
    /// What holds of every import: each plan calls for something, and the
    /// stage asks for something that its plan has.
    pub open spec fn wf(self) -> bool {
        &&& self.at <= self.plans@.len()
        &&& forall|i: int|
            0 <= i < self.plans@.len() ==> (#[trigger] self.plans@[i]).folder is Some
                || self.plans@[i].feed is Some
        &&& self.at < self.plans@.len() ==> match self.stage {
            ImportStage::Folder => self.plans@[self.at as int].folder is Some,
            _ => self.plans@[self.at as int].feed is Some,
        }
    }

    /// The run is the beginning of the import of these subscriptions.
    pub open spec fn starts(self, subs: Seq<Sub>) -> bool {
        &&& plan_views(self.plans@) == plans_of(subs)
        &&& self.at == 0
        &&& self.stage == first_stage(self.plans@, 0)
    }

    /// No subscription is left.
    pub open spec fn is_done(self) -> bool {
        self.at == self.plans@.len()
    }

    /// The run is `before` behind the store's answer to its pending action.
    pub open spec fn follows(self, before: ImportRun, event: ImportEvent) -> bool {
        let at = before.at as int;
        let plans = before.plans@;
        let step = if at < plans.len() {
            import_step_of(before.stage, plans[at].feed is Some, event)
        } else {
            ImportStep::Stay
        };
        &&& self.plans == before.plans
        &&& match step {
            ImportStep::Stay => self == before,
            ImportStep::To(stage) => self.at == at && self.stage == stage,
            ImportStep::Next => self.at == at + 1 && self.stage == first_stage(plans, at + 1),
        }
    }

    /// The import of these subscriptions.
    pub fn new(subs: &Vec<Sub>) -> (r: ImportRun)
        ensures
            r.wf(),
            r.starts(subs@),
    {
        let mut plans: Vec<SubPlan> = Vec::new();
        assert(subs@.take(0) =~= Seq::<Sub>::empty());
        assert(plan_views(plans@) =~= Seq::<SubPlanView>::empty());
        for i in 0..subs.len()
            invariant
                plan_views(plans@) == plans_of(subs@.take(i as int)),
                forall|j: int|
                    0 <= j < plans@.len() ==> (#[trigger] plans@[j]).folder is Some
                        || plans@[j].feed is Some,
        {
            assert(subs@.take(i + 1).drop_last() =~= subs@.take(i as int));
            let ghost before = plans@;
            let plan = plan_subscription(&subs[i]);
            let ghost said = plan@;
            if plan.folder.is_some() || plan.feed.is_some() {
                plans.push(plan);
                assert(plan_views(plans@) =~= plan_views(before).push(said));
            }
        }
        assert(subs@.take(subs@.len() as int) =~= subs@);
        let stage = first(&plans, 0);
        ImportRun { plans, at: 0, stage }
    }

    /// This is what the import needs next.
    pub open spec fn wants(self, r: ImportAction) -> bool {
        if self.at == self.plans@.len() {
            r is Done
        } else {
            let plan = self.plans@[self.at as int]@;
            match self.stage {
                ImportStage::Folder => r matches ImportAction::FolderId(name) && Some(name@)
                    == plan.folder,
                ImportStage::Find { .. } => r matches ImportAction::FindFeed(url) && url@
                    == plan.feed->Some_0.0,
                ImportStage::Insert { folder } => r matches ImportAction::InsertFeed {
                    url,
                    title,
                    folder: place,
                } && url@ == plan.feed->Some_0.0 && title@ == plan.feed->Some_0.1 && place
                    == folder,
                ImportStage::Current { id, .. } => r == ImportAction::FeedFolder(id),
                ImportStage::Move { id, into } => r == (ImportAction::MoveFeed { id, into }),
            }
        }
    }

    /// What the import needs next.
    pub fn action(&self) -> (r: ImportAction)
        requires
            self.wf(),
        ensures
            self.wants(r),
    {
        if self.at == self.plans.len() {
            return ImportAction::Done;
        }
        let plan = &self.plans[self.at];
        match self.stage {
            ImportStage::Folder => match &plan.folder {
                Some(name) => ImportAction::FolderId(name.clone()),
                None => ImportAction::Done,
            },
            ImportStage::Find { .. } => match &plan.feed {
                Some(feed) => ImportAction::FindFeed(feed.0.clone()),
                None => ImportAction::Done,
            },
            ImportStage::Insert { folder } => match &plan.feed {
                Some(feed) => ImportAction::InsertFeed {
                    url: feed.0.clone(),
                    title: feed.1.clone(),
                    folder,
                },
                None => ImportAction::Done,
            },
            ImportStage::Current { id, .. } => ImportAction::FeedFolder(id),
            ImportStage::Move { id, into } => ImportAction::MoveFeed { id, into },
        }
    }

    /// Goes on behind the store's answer to the pending action.
    pub fn answer(&mut self, event: ImportEvent)
        requires
            old(self).wf(),
        ensures
            final(self).wf(),
            final(self).follows(*old(self), event),
    {
        if self.at == self.plans.len() {
            return;
        }
        let has_feed = self.plans[self.at].feed.is_some();
        match import_step(self.stage, has_feed, event) {
            ImportStep::Stay => {},
            ImportStep::To(stage) => {
                self.stage = stage;
            },
            ImportStep::Next => {
                self.at = self.at + 1;
                self.stage = first(&self.plans, self.at);
            },
        }
    }
}

// ─────────────────────────── reconciling articles ───────────────────────────

/// What a sync has to know of an item: its id, its URL, and its state on the
/// server.
#[derive(Debug, PartialEq, Eq)]
pub struct ItemPlan {
    pub id: String,
    pub url: String,
    pub read: bool,
    pub starred: bool,
}

/// What an [`ItemPlan`] says.
pub struct ItemPlanView {
    pub id: Seq<char>,
    pub url: Seq<char>,
    pub read: bool,
    pub starred: bool,
}

impl View for ItemPlan {
    type V = ItemPlanView;

    open spec fn view(&self) -> ItemPlanView {
        ItemPlanView { id: self.id@, url: self.url@, read: self.read, starred: self.starred }
    }
}

/// What has to be known of the items that have a link, in order: the first
/// canonical link, or else the first alternate one, as it is written.
pub open spec fn item_plans(items: Seq<Item>) -> Seq<ItemPlanView>
    decreases items.len(),
{
    if items.len() == 0 {
        Seq::empty()
    } else {
        let before = item_plans(items.drop_last());
        let item = items.last();
        match first_href(item.canonical@, item.alternate@) {
            Some(url) => before.push(
                ItemPlanView {
                    id: item.id@,
                    url,
                    read: text::views(item.categories@).contains(
                        "user/-/state/com.google/read"@,
                    ),
                    starred: text::views(item.categories@).contains(
                        "user/-/state/com.google/starred"@,
                    ),
                },
            ),
            None => before,
        }
    }
}

/// What a list of plans says.
pub open spec fn item_plan_views(v: Seq<ItemPlan>) -> Seq<ItemPlanView> {
    v.map_values(|p: ItemPlan| p@)
}

/// Where the reconciliation of one item stands.
#[derive(Clone, Copy, Debug, PartialEq, Eq, Structural)]
pub enum ItemStage {
    /// The article with its URL is looked for.
    Find,
    /// The article gets the item's id.
    RemoteId { article: i64 },
    /// The article gets the item's state.
    State { article: i64 },
}

/// What the store says to the reconciliation of an item.
#[derive(Clone, Copy, Debug, PartialEq, Eq, Structural)]
pub enum ItemEvent {
    /// The article that was looked for.
    Found(Option<i64>),
    /// What was asked for is done.
    Done,
}

/// What an event leads to.
#[derive(Clone, Copy, Debug, PartialEq, Eq, Structural)]
pub enum ItemStep {
    /// It answers another question: nothing changes.
    Stay,
    /// This comes next.
    To(ItemStage),
    /// The item is reconciled; the next follows.
    Settle,
    /// There is no such article; the next item follows.
    Skip,
}

/// What an event leads to. An article with local changes that are still
/// unsent gets the item's id but keeps its own state.
pub open spec fn item_step_of(stage: ItemStage, pending: Seq<i64>, event: ItemEvent) -> ItemStep {
    match (stage, event) {
        (ItemStage::Find, ItemEvent::Found(Some(article))) => ItemStep::To(
            ItemStage::RemoteId { article },
        ),
        (ItemStage::Find, ItemEvent::Found(None)) => ItemStep::Skip,
        (ItemStage::RemoteId { article }, ItemEvent::Done) => if pending.contains(article) {
            ItemStep::Settle
        } else {
            ItemStep::To(ItemStage::State { article })
        },
        (ItemStage::State { .. }, ItemEvent::Done) => ItemStep::Settle,
        _ => ItemStep::Stay,
    }
}

fn is_pending(pending: &Vec<i64>, article: i64) -> (r: bool)
    ensures
        r == pending@.contains(article),
{
    for i in 0..pending.len()
        invariant
            forall|j: int| 0 <= j < i ==> pending@[j] != article,
    {
        if pending[i] == article {
            return true;
        }
    }
    false
}

/// What an event leads to.
pub fn item_step(stage: ItemStage, pending: &Vec<i64>, event: ItemEvent) -> (r: ItemStep)
    ensures
        r == item_step_of(stage, pending@, event),
{
    match (stage, event) {
        (ItemStage::Find, ItemEvent::Found(found)) => match found {
            Some(article) => ItemStep::To(ItemStage::RemoteId { article }),
            None => ItemStep::Skip,
        },
        (ItemStage::RemoteId { article }, ItemEvent::Done) => if is_pending(pending, article) {
            ItemStep::Settle
        } else {
            ItemStep::To(ItemStage::State { article })
        },
        (ItemStage::State { .. }, ItemEvent::Done) => ItemStep::Settle,
        _ => ItemStep::Stay,
    }
}

/// How many answers the reconciliation of an item can still need.
pub open spec fn item_answers_left(stage: ItemStage) -> nat {
    match stage {
        ItemStage::Find => 3,
        ItemStage::RemoteId { .. } => 2,
        ItemStage::State { .. } => 1,
    }
}

/// The reconciliation of an item ends: each answer to its question brings it
/// on to another item, or nearer to that.
pub proof fn law_items_advance(stage: ItemStage, pending: Seq<i64>, event: ItemEvent)
    ensures
        item_step_of(stage, pending, event) matches ItemStep::To(next) ==> item_answers_left(next)
            < item_answers_left(stage),
{
}

/// Unsent local changes are never overwritten: the state of an article with
/// such changes is not set, whatever the server and the store say.
pub proof fn law_pending_changes_are_kept(stage: ItemStage, pending: Seq<i64>, event: ItemEvent)
    ensures
        item_step_of(stage, pending, event) matches ItemStep::To(ItemStage::State { article })
            ==> !pending.contains(article),
{
}

/// The reconciliation of the server's state of articles with the local one.
#[derive(Debug, PartialEq, Eq)]
pub struct ItemRun {
    pub plans: Vec<ItemPlan>,
    pub pending: Vec<i64>,
    pub at: usize,
    pub stage: ItemStage,
    pub reconciled: usize,
}

/// What an [`ItemRun`] needs next. A failure of any of these ends the sync.
#[derive(Debug, PartialEq, Eq)]
pub enum ItemAction {
    /// The article with this URL.
    ArticleByUrl(String),
    /// This article's id on the server.
    SetRemoteId { article: i64, remote_id: String },
    /// This article's state.
    SetState { article: i64, read: bool, starred: bool },
    /// Nothing: so many articles were reconciled.
    Done(usize),
}

impl ItemRun {
    /// What holds of every reconciliation: no more articles are reconciled
    /// than were gone through.
    pub open spec fn wf(self) -> bool {
        self.reconciled <= self.at <= self.plans@.len()
    }

    /// The run is the beginning of the reconciliation of these items,
    /// `pending` being the articles with unsent local changes.
    pub open spec fn starts(self, items: Seq<Item>, pending: Vec<i64>) -> bool {
        &&& item_plan_views(self.plans@) == item_plans(items)
        &&& self.pending == pending
        &&& self.at == 0
        &&& self.stage == ItemStage::Find
        &&& self.reconciled == 0
    }

    /// No item is left.
    pub open spec fn is_done(self) -> bool {
        self.at == self.plans@.len()
    }

    /// The run is `before` behind the store's answer to its pending action.
    pub open spec fn follows(self, before: ItemRun, event: ItemEvent) -> bool {
        let at = before.at as int;
        let step = if at < before.plans@.len() {
            item_step_of(before.stage, before.pending@, event)
        } else {
            ItemStep::Stay
        };
        &&& self.plans == before.plans
        &&& self.pending == before.pending
        &&& match step {
            ItemStep::Stay => self == before,
            ItemStep::To(stage) => self.at == at && self.stage == stage && self.reconciled
                == before.reconciled,
            ItemStep::Settle => self.at == at + 1 && self.stage == ItemStage::Find
                && self.reconciled == before.reconciled + 1,
            ItemStep::Skip => self.at == at + 1 && self.stage == ItemStage::Find
                && self.reconciled == before.reconciled,
        }
    }

    /// The reconciliation of these items, `pending` being the articles with
    /// unsent local changes.
    pub fn new(items: &Vec<Item>, pending: Vec<i64>) -> (r: ItemRun)
        ensures
            r.wf(),
            r.starts(items@, pending),
    {
        let mut plans: Vec<ItemPlan> = Vec::new();
        assert(items@.take(0) =~= Seq::<Item>::empty());
        assert(item_plan_views(plans@) =~= Seq::<ItemPlanView>::empty());
        for i in 0..items.len()
            invariant
                item_plan_views(plans@) == item_plans(items@.take(i as int)),
        {
            assert(items@.take(i + 1).drop_last() =~= items@.take(i as int));
            let ghost before = plans@;
            let item = &items[i];
            let url = if item.canonical.len() > 0 {
                Some(item.canonical[0].clone())
            } else if item.alternate.len() > 0 {
                Some(item.alternate[0].clone())
            } else {
                None
            };
            if let Some(url) = url {
                let plan = ItemPlan {
                    id: item.id.clone(),
                    url,
                    read: has_exact_tag(&item.categories, READ_TAG),
                    starred: has_exact_tag(&item.categories, STARRED_TAG),
                };
                let ghost said = plan@;
                plans.push(plan);
                assert(item_plan_views(plans@) =~= item_plan_views(before).push(said));
            }
        }
        assert(items@.take(items@.len() as int) =~= items@);
        ItemRun { plans, pending, at: 0, stage: ItemStage::Find, reconciled: 0 }
    }

    /// This is what the reconciliation needs next.
    pub open spec fn wants(self, r: ItemAction) -> bool {
        if self.at == self.plans@.len() {
            r == ItemAction::Done(self.reconciled)
        } else {
            let plan = self.plans@[self.at as int]@;
            match self.stage {
                ItemStage::Find => r matches ItemAction::ArticleByUrl(url) && url@ == plan.url,
                ItemStage::RemoteId { article } => r matches ItemAction::SetRemoteId {
                    article: a,
                    remote_id,
                } && a == article && remote_id@ == plan.id,
                ItemStage::State { article } => r == (ItemAction::SetState {
                    article,
                    read: plan.read,
                    starred: plan.starred,
                }),
            }
        }
    }

    /// What the reconciliation needs next.
    pub fn action(&self) -> (r: ItemAction)
        requires
            self.wf(),
        ensures
            self.wants(r),
    {
        if self.at == self.plans.len() {
            return ItemAction::Done(self.reconciled);
        }
        let plan = &self.plans[self.at];
        match self.stage {
            ItemStage::Find => ItemAction::ArticleByUrl(plan.url.clone()),
            ItemStage::RemoteId { article } => ItemAction::SetRemoteId {
                article,
                remote_id: plan.id.clone(),
            },
            ItemStage::State { article } => ItemAction::SetState {
                article,
                read: plan.read,
                starred: plan.starred,
            },
        }
    }

    /// Goes on behind the store's answer to the pending action.
    pub fn answer(&mut self, event: ItemEvent)
        requires
            old(self).wf(),
        ensures
            final(self).wf(),
            final(self).follows(*old(self), event),
    {
        if self.at == self.plans.len() {
            return;
        }
        match item_step(self.stage, &self.pending, event) {
            ItemStep::Stay => {},
            ItemStep::To(stage) => {
                self.stage = stage;
            },
            ItemStep::Settle => {
                self.reconciled = self.reconciled + 1;
                self.at = self.at + 1;
                self.stage = ItemStage::Find;
            },
            ItemStep::Skip => {
                self.at = self.at + 1;
                self.stage = ItemStage::Find;
            },
        }
    }
}

// ─────────────────────────── the course of a sync ───────────────────────────

/// Where a sync stands.
#[derive(Debug, PartialEq, Eq)]
pub enum SyncStage {
    /// The queue of local changes is taken.
    TakeQueue,
    /// The queued changes are pushed.
    Push(PushRun),
    /// The server's subscriptions are asked for.
    List,
    /// The subscriptions are taken over.
    Import(ImportRun),
    /// The server's articles are asked for.
    Pull,
    /// The articles with unsent local changes are asked for.
    Pending { items: Vec<Item> },
    /// The state of the server's articles is taken over.
    Items(ItemRun),
    /// The number of reconciled articles, or the error that ended the sync.
    Done(Result<usize, AppError>),
}

/// What a [`SyncRun`] needs next.
#[derive(Debug, PartialEq, Eq)]
pub enum SyncAction {
    /// The queue of local changes, which is empty then.
    TakeQueue,
    /// What the push of queued changes needs.
    Push(PushAction),
    /// The subscriptions that this request gives.
    Subscriptions(Request),
    /// What the import of subscriptions needs.
    Import(ImportAction),
    /// The articles that this request gives.
    Items(Request),
    /// The articles with unsent local changes.
    Pending,
    /// What the reconciliation of articles needs.
    Item(ItemAction),
    /// Nothing.
    Done,
}

/// What a [`SyncRun`] is told.
#[derive(Debug, PartialEq, Eq)]
pub enum SyncEvent {
    /// The queue of local changes.
    Queue(Vec<SyncEntry>),
    /// How a push went.
    Sent(bool),
    /// The server's subscriptions.
    Subscriptions(Vec<Sub>),
    /// The store's answer to the import.
    Import(ImportEvent),
    /// The server's articles.
    Items(Vec<Item>),
    /// The articles with unsent local changes.
    Pending(Vec<i64>),
    /// The store's answer to the reconciliation.
    Item(ItemEvent),
    /// What was asked for failed.
    Failed(AppError),
}

/// The stage of a push, or the one behind it.
pub open spec fn push_stage(run: PushRun) -> SyncStage {
    if run.is_done() {
        SyncStage::List
    } else {
        SyncStage::Push(run)
    }
}

/// The stage of an import, or the one behind it.
pub open spec fn import_stage(run: ImportRun) -> SyncStage {
    if run.is_done() {
        SyncStage::Pull
    } else {
        SyncStage::Import(run)
    }
}

/// The stage of a reconciliation, or the end behind it.
pub open spec fn items_stage(run: ItemRun) -> SyncStage {
    if run.is_done() {
        SyncStage::Done(Ok(run.reconciled))
    } else {
        SyncStage::Items(run)
    }
}

/// `after` is the stage that an event leads to from `before`. A failure ends
/// the sync with its error, and an event that answers another question
/// changes nothing.
pub open spec fn leads_to(before: SyncStage, event: SyncEvent, after: SyncStage) -> bool {
    match (before, event) {
        (SyncStage::TakeQueue, SyncEvent::Queue(queue)) => exists|run: PushRun| #[trigger]
            run.starts(queue@) && after == push_stage(run),
        (SyncStage::Push(was), SyncEvent::Sent(ok)) => exists|run: PushRun| #[trigger]
            run.follows(was, ok) && after == push_stage(run),
        (SyncStage::List, SyncEvent::Subscriptions(subs)) => exists|run: ImportRun| #[trigger]
            run.starts(subs@) && after == import_stage(run),
        (SyncStage::Import(was), SyncEvent::Import(event)) => exists|run: ImportRun| #[trigger]
            run.follows(was, event) && after == import_stage(run),
        (SyncStage::Pull, SyncEvent::Items(items)) => after == (SyncStage::Pending { items }),
        (SyncStage::Pending { items }, SyncEvent::Pending(pending)) => exists|run: ItemRun| #[trigger]
            run.starts(items@, pending) && after == items_stage(run),
        (SyncStage::Items(was), SyncEvent::Item(event)) => exists|run: ItemRun| #[trigger]
            run.follows(was, event) && after == items_stage(run),
        (SyncStage::Push(_), _) => after == before,
        (SyncStage::Done(_), _) => after == before,
        (_, SyncEvent::Failed(e)) => after == SyncStage::Done(Err(e)),
        _ => after == before,
    }
}

/// One sync of the desktop app with a server.
#[derive(Debug, PartialEq, Eq)]
pub struct SyncRun {
    session: Session,
    stage: SyncStage,
}

fn enter_push(run: PushRun) -> (r: SyncStage)
    ensures
        r == push_stage(run),
{
    if run.done() {
        SyncStage::List
    } else {
        SyncStage::Push(run)
    }
}

fn enter_import(run: ImportRun) -> (r: SyncStage)
    ensures
        r == import_stage(run),
{
    if run.at == run.plans.len() {
        SyncStage::Pull
    } else {
        SyncStage::Import(run)
    }
}

fn enter_items(run: ItemRun) -> (r: SyncStage)
    ensures
        r == items_stage(run),
{
    if run.at == run.plans.len() {
        SyncStage::Done(Ok(run.reconciled))
    } else {
        SyncStage::Items(run)
    }
}

impl SyncRun {
    /// The session that the sync uses.
    pub closed spec fn session(self) -> SessionView {
        self.session@
    }

    /// Where the sync stands.
    pub closed spec fn stage(self) -> SyncStage {
        self.stage
    }

    /// What holds of every sync: a part that is under way is not done.
    #[verifier::type_invariant]
    spec fn wf(self) -> bool {
        match self.stage {
            SyncStage::Push(run) => !run.is_done(),
            SyncStage::Import(run) => run.wf() && !run.is_done(),
            SyncStage::Items(run) => run.wf() && !run.is_done(),
            _ => true,
        }
    }

    /// A sync over this session.
    pub fn new(session: Session) -> (r: SyncRun)
        ensures
            r.session() == session@,
            r.stage() is TakeQueue,
    {
        SyncRun { session, stage: SyncStage::TakeQueue }
    }

    /// What the sync needs next.
    pub fn action(&self) -> (r: SyncAction)
        ensures
            match self.stage() {
                SyncStage::TakeQueue => r is TakeQueue,
                SyncStage::Push(run) => r matches SyncAction::Push(action) && run.wants(
                    self.session(),
                    action,
                ),
                SyncStage::List => r matches SyncAction::Subscriptions(request) && request@
                    == get_request(self.session(), "subscription/list?output=json"@),
                SyncStage::Import(run) => r matches SyncAction::Import(action) && run.wants(action),
                SyncStage::Pull => r matches SyncAction::Items(request) && request@
                    == contents_request(self.session()),
                SyncStage::Pending { .. } => r is Pending,
                SyncStage::Items(run) => r matches SyncAction::Item(action) && run.wants(action),
                SyncStage::Done(_) => r is Done,
            },
    {
        proof {
            use_type_invariant(self);
        }
        match &self.stage {
            SyncStage::TakeQueue => SyncAction::TakeQueue,
            SyncStage::Push(run) => SyncAction::Push(run.action(&self.session)),
            SyncStage::List => SyncAction::Subscriptions(list_subscriptions(&self.session)),
            SyncStage::Import(run) => SyncAction::Import(run.action()),
            SyncStage::Pull => SyncAction::Items(pull_contents(&self.session)),
            SyncStage::Pending { .. } => SyncAction::Pending,
            SyncStage::Items(run) => SyncAction::Item(run.action()),
            SyncStage::Done(_) => SyncAction::Done,
        }
    }

    /// Goes on behind the answer to the pending action.
    pub fn answer(self, event: SyncEvent) -> (r: SyncRun)
        ensures
            r.session() == self.session(),
            leads_to(self.stage(), event, r.stage()),
    {
        proof {
            use_type_invariant(&self);
        }
        let SyncRun { session, stage } = self;
        let stage = match stage {
            SyncStage::TakeQueue => match event {
                SyncEvent::Queue(queue) => enter_push(PushRun::new(queue)),
                SyncEvent::Failed(e) => SyncStage::Done(Err(e)),
                _ => SyncStage::TakeQueue,
            },
            SyncStage::Push(run) => match event {
                SyncEvent::Sent(ok) => enter_push(run.answer(ok)),
                _ => SyncStage::Push(run),
            },
            SyncStage::List => match event {
                SyncEvent::Subscriptions(subs) => enter_import(ImportRun::new(&subs)),
                SyncEvent::Failed(e) => SyncStage::Done(Err(e)),
                _ => SyncStage::List,
            },
            SyncStage::Import(mut run) => match event {
                SyncEvent::Import(answer) => {
                    run.answer(answer);
                    enter_import(run)
                },
                SyncEvent::Failed(e) => SyncStage::Done(Err(e)),
                _ => SyncStage::Import(run),
            },
            SyncStage::Pull => match event {
                SyncEvent::Items(items) => SyncStage::Pending { items },
                SyncEvent::Failed(e) => SyncStage::Done(Err(e)),
                _ => SyncStage::Pull,
            },
            SyncStage::Pending { items } => match event {
                SyncEvent::Pending(pending) => enter_items(ItemRun::new(&items, pending)),
                SyncEvent::Failed(e) => SyncStage::Done(Err(e)),
                _ => SyncStage::Pending { items },
            },
            SyncStage::Items(mut run) => match event {
                SyncEvent::Item(answer) => {
                    run.answer(answer);
                    enter_items(run)
                },
                SyncEvent::Failed(e) => SyncStage::Done(Err(e)),
                _ => SyncStage::Items(run),
            },
            SyncStage::Done(result) => SyncStage::Done(result),
        };
        SyncRun { session, stage }
    }

    /// The number of reconciled articles, or the error that ended the sync,
    /// where it has ended.
    pub fn result(self) -> (r: Option<Result<usize, AppError>>)
        ensures
            match self.stage() {
                SyncStage::Done(result) => r == Some(result),
                _ => r is None,
            },
    {
        match self.stage {
            SyncStage::Done(result) => Some(result),
            _ => None,
        }
    }
}

/// The place of a stage in the course of a sync.
pub open spec fn place_of(stage: SyncStage) -> nat {
    match stage {
        SyncStage::TakeQueue => 0,
        SyncStage::Push(_) => 1,
        SyncStage::List => 2,
        SyncStage::Import(_) => 3,
        SyncStage::Pull => 4,
        SyncStage::Pending { .. } => 5,
        SyncStage::Items(_) => 6,
        SyncStage::Done(_) => 7,
    }
}

/// A sync never goes back, and only a failure ends it with an error: with
/// that error.
pub proof fn law_parts_run_in_order(before: SyncStage, event: SyncEvent, after: SyncStage)
    requires
        leads_to(before, event, after),
    ensures
        place_of(before) <= place_of(after),
        before is Done ==> after == before,
        !(before is Done) ==> (after matches SyncStage::Done(Err(e)) ==> event == SyncEvent::Failed(
            e,
        ) && !(before is Push)),
{
}

// ───────────────────────────── laws ─────────────────────────────

/// A session is of the server and the token it was asked with; an error status
/// means that the token is no longer valid, and no answer is the client's error.
pub proof fn law_session_outcomes(base: Seq<char>, auth: Seq<char>, reply: Reply)
    ensures
        reply matches Reply::Body(token) ==> (session_outcome(base, auth, reply) matches Ok(s)
            && s.base == base && s.auth == auth && s.token == text::trimmed(token@)),
        reply is Refused ==> session_outcome(base, auth, reply) == Err::<SessionView, ErrorView>(
            ErrorView::Code("freshrssLoginFailed"@),
        ),
        reply matches Reply::Failed(e) ==> session_outcome(base, auth, reply) == Err::<
            SessionView,
            ErrorView,
        >(ErrorView::Network(e@)),
        reply matches Reply::Broken(e) ==> session_outcome(base, auth, reply) == Err::<
            SessionView,
            ErrorView,
        >(ErrorView::Network(e@)),
{
}

/// A subscription's folder is the first of its categories with a name.
pub proof fn law_folders_by_name(cats: Seq<SubCat>, cat: SubCat)
    ensures
        name_among(Seq::empty()) is None,
        category_name(cat) is Some ==> name_among(seq![cat] + cats) == category_name(cat),
        category_name(cat) is None ==> name_among(seq![cat] + cats) == name_among(cats),
{
    assert((seq![cat] + cats)[0] == cat);
    assert((seq![cat] + cats).drop_first() =~= cats);
}

/// A subscription calls for its folder, and for a feed exactly where it has a
/// URL, under its own title or else the URL; and every one that calls for
/// anything is taken over, in order.
pub proof fn law_every_subscription_is_taken_over(subs: Seq<Sub>, sub: Sub)
    ensures
        plan_of(sub).folder == name_among(sub.categories@),
        plan_of(sub).feed is Some <==> (sub.url matches Some(u) && u@.len() > 0),
        plan_of(sub).feed matches Some(feed) ==> feed.0 == sub.url->0@ && feed.1 == (
        match sub.title {
            Some(title) => title@,
            None => sub.url->0@,
        }),
        plans_of(Seq::empty()) == Seq::<SubPlanView>::empty(),
        plans_of(subs.push(sub)) == (if plan_of(sub).folder is Some || plan_of(sub).feed is Some {
            plans_of(subs).push(plan_of(sub))
        } else {
            plans_of(subs)
        }),
{
    assert(subs.push(sub).drop_last() =~= subs);
}

/// A subscription is taken over by its steps: its folder's id lets its feed be
/// looked for, a feed that is missing is made in that folder, and one that is
/// there is moved exactly where the server has a folder for it and it is in none.
pub proof fn law_how_subscriptions_are_taken_over(
    id: i64,
    into: i64,
    now: i64,
    folder: Option<i64>,
    has_feed: bool,
)
    ensures
        import_step_of(ImportStage::Folder, true, ImportEvent::FolderId(id)) == ImportStep::To(
            ImportStage::Find { folder: Some(id) },
        ),
        import_step_of(ImportStage::Folder, false, ImportEvent::FolderId(id)) == ImportStep::Next,
        import_step_of(ImportStage::Find { folder }, has_feed, ImportEvent::Found(None))
            == ImportStep::To(ImportStage::Insert { folder }),
        import_step_of(
            ImportStage::Find { folder: Some(into) },
            has_feed,
            ImportEvent::Found(Some(id)),
        ) == ImportStep::To(ImportStage::Current { id, into }),
        import_step_of(
            ImportStage::Find { folder: None },
            has_feed,
            ImportEvent::Found(Some(id)),
        ) == ImportStep::Next,
        import_step_of(ImportStage::Insert { folder }, has_feed, ImportEvent::Inserted)
            == ImportStep::Next,
        import_step_of(
            ImportStage::Current { id, into },
            has_feed,
            ImportEvent::InFolder(None),
        ) == ImportStep::To(ImportStage::Move { id, into }),
        import_step_of(
            ImportStage::Current { id, into },
            has_feed,
            ImportEvent::InFolder(Some(now)),
        ) == ImportStep::Next,
        import_step_of(ImportStage::Move { id, into }, has_feed, ImportEvent::Moved)
            == ImportStep::Next,
{
}

/// What the import asks for is what the present subscription calls for.
pub proof fn law_imports_ask_for_their_subscription(run: ImportRun, r: ImportAction)
    requires
        run.wf(),
        run.wants(r),
    ensures
        run.at == run.plans@.len() <==> r is Done,
        run.at < run.plans@.len() ==> {
            let plan = run.plans@[run.at as int];
            &&& run.stage is Folder ==> (r matches ImportAction::FolderId(name) && Some(name@)
                == text::view_of(plan.folder))
            &&& run.stage is Find ==> (r matches ImportAction::FindFeed(url)
                && (plan.feed matches Some(f) && f.0@ == url@))
            &&& run.stage matches ImportStage::Insert { folder: into } ==> (
            r matches ImportAction::InsertFeed { url, title, folder } && folder == into && (
            plan.feed matches Some(f) && f.0@ == url@ && f.1@ == title@))
            &&& run.stage matches ImportStage::Current { id, into } ==> r
                == ImportAction::FeedFolder(id)
            &&& run.stage matches ImportStage::Move { id, into } ==> r == (ImportAction::MoveFeed {
                id,
                into,
            })
        },
{
}

/// An import goes through its subscriptions in order: one with a folder starts
/// with that, one without with its feed.
pub proof fn law_imports_go_on(
    before: ImportRun,
    after: ImportRun,
    event: ImportEvent,
    subs: Seq<Sub>,
)
    ensures
        before.starts(subs) ==> plan_views(before.plans@) == plans_of(subs) && before.at == 0 && (
        before.plans@.len() > 0 ==> before.stage == (if before.plans@[0].folder is Some {
            ImportStage::Folder
        } else {
            ImportStage::Find { folder: None }
        })),
        after.follows(before, event) && before.at < before.plans@.len() ==> {
            let step = import_step_of(
                before.stage,
                before.plans@[before.at as int].feed is Some,
                event,
            );
            &&& after.plans == before.plans
            &&& step is Stay ==> after == before
            &&& step matches ImportStep::To(stage) ==> after.at == before.at && after.stage == stage
            &&& step is Next ==> after.at == before.at + 1 && (after.at < after.plans@.len()
                ==> after.stage == (if after.plans@[after.at as int].folder is Some {
                ImportStage::Folder
            } else {
                ImportStage::Find { folder: None }
            }))
        },
        before.is_done() <==> before.at == before.plans@.len(),
{
}

/// Every item with a link is reconciled, in order, by its first canonical link or
/// else its first alternate one, and with the state that its categories say.
pub proof fn law_every_linked_item_is_planned(items: Seq<Item>, item: Item)
    ensures
        item_plans(Seq::empty()) == Seq::<ItemPlanView>::empty(),
        item.canonical@.len() == 0 && item.alternate@.len() == 0 ==> item_plans(items.push(item))
            == item_plans(items),
        item.canonical@.len() > 0 || item.alternate@.len() > 0 ==> item_plans(items.push(item))
            == item_plans(items).push(
            ItemPlanView {
                id: item.id@,
                url: if item.canonical@.len() > 0 {
                    item.canonical@[0]@
                } else {
                    item.alternate@[0]@
                },
                read: text::views(item.categories@).contains("user/-/state/com.google/read"@),
                starred: text::views(item.categories@).contains(
                    "user/-/state/com.google/starred"@,
                ),
            },
        ),
{
    assert(items.push(item).drop_last() =~= items);
}

/// An item is reconciled by its steps: the article with its URL gets the item's
/// id, and then its state unless it has local changes that are still unsent.
pub proof fn law_how_items_are_reconciled(pending: Seq<i64>, article: i64)
    ensures
        item_step_of(ItemStage::Find, pending, ItemEvent::Found(Some(article))) == ItemStep::To(
            ItemStage::RemoteId { article },
        ),
        item_step_of(ItemStage::Find, pending, ItemEvent::Found(None)) == ItemStep::Skip,
        !pending.contains(article) ==> item_step_of(
            ItemStage::RemoteId { article },
            pending,
            ItemEvent::Done,
        ) == ItemStep::To(ItemStage::State { article }),
        pending.contains(article) ==> item_step_of(
            ItemStage::RemoteId { article },
            pending,
            ItemEvent::Done,
        ) == ItemStep::Settle,
        item_step_of(ItemStage::State { article }, pending, ItemEvent::Done) == ItemStep::Settle,
{
}

/// What the reconciliation asks for is what the present item says.
pub proof fn law_reconciliation_asks_for_its_item(run: ItemRun, r: ItemAction)
    requires
        run.wf(),
        run.wants(r),
    ensures
        run.at == run.plans@.len() ==> r == ItemAction::Done(run.reconciled),
        run.at < run.plans@.len() ==> {
            let plan = run.plans@[run.at as int];
            &&& run.stage is Find ==> (r matches ItemAction::ArticleByUrl(url) && url@ == plan.url@)
            &&& run.stage matches ItemStage::RemoteId { article: a } ==> (
            r matches ItemAction::SetRemoteId { article, remote_id } && article == a && remote_id@
                == plan.id@)
            &&& run.stage matches ItemStage::State { article: a } ==> (
            r matches ItemAction::SetState { article, read, starred } && article == a && read
                == plan.read && starred == plan.starred)
        },
{
}

/// The reconciliation goes through its items in order, and counts those whose
/// article was found.
pub proof fn law_reconciliation_goes_on(
    before: ItemRun,
    after: ItemRun,
    event: ItemEvent,
    items: Seq<Item>,
    pending: Vec<i64>,
)
    ensures
        before.starts(items, pending) ==> item_plan_views(before.plans@) == item_plans(items)
            && before.pending == pending && before.at == 0 && before.stage == ItemStage::Find
            && before.reconciled == 0,
        after.follows(before, event) && before.at < before.plans@.len() ==> {
            let step = item_step_of(before.stage, before.pending@, event);
            &&& after.plans == before.plans && after.pending == before.pending
            &&& step is Stay ==> after == before
            &&& step matches ItemStep::To(stage) ==> after.at == before.at && after.stage == stage
                && after.reconciled == before.reconciled
            &&& step is Settle ==> after.at == before.at + 1 && after.stage == ItemStage::Find
                && after.reconciled == before.reconciled + 1
            &&& step is Skip ==> after.at == before.at + 1 && after.stage == ItemStage::Find
                && after.reconciled == before.reconciled
        },
        before.is_done() <==> before.at == before.plans@.len(),
{
}

/// A sync goes through its parts: each part runs until it is done and hands over
/// to the next, the articles come to be reconciled with those that have unsent
/// changes in mind, and the end gives how many were.
pub proof fn law_a_sync_runs_its_course(before: SyncStage, event: SyncEvent, after: SyncStage)
    requires
        leads_to(before, event, after),
    ensures
        before is TakeQueue ==> (event matches SyncEvent::Queue(queue) ==> exists|run: PushRun|
            #[trigger] run.starts(queue@) && after == (if run.is_done() {
                SyncStage::List
            } else {
                SyncStage::Push(run)
            })),
        before matches SyncStage::Push(was) ==> (event matches SyncEvent::Sent(ok) ==> exists|
            run: PushRun,
        | #[trigger]
            run.follows(was, ok) && after == (if run.is_done() {
                SyncStage::List
            } else {
                SyncStage::Push(run)
            })),
        before is List ==> (event matches SyncEvent::Subscriptions(subs) ==> exists|run: ImportRun|
            #[trigger] run.starts(subs@) && after == (if run.is_done() {
                SyncStage::Pull
            } else {
                SyncStage::Import(run)
            })),
        before matches SyncStage::Import(was) ==> (event matches SyncEvent::Import(e) ==> exists|
            run: ImportRun,
        | #[trigger]
            run.follows(was, e) && after == (if run.is_done() {
                SyncStage::Pull
            } else {
                SyncStage::Import(run)
            })),
        before is Pull ==> (event matches SyncEvent::Items(items) ==> after
            == (SyncStage::Pending { items })),
        before matches SyncStage::Pending { items } ==> (event matches SyncEvent::Pending(pending)
            ==> exists|run: ItemRun| #[trigger]
            run.starts(items@, pending) && after == (if run.is_done() {
                SyncStage::Done(Ok(run.reconciled))
            } else {
                SyncStage::Items(run)
            })),
        before matches SyncStage::Items(was) ==> (event matches SyncEvent::Item(e) ==> exists|
            run: ItemRun,
        | #[trigger]
            run.follows(was, e) && after == (if run.is_done() {
                SyncStage::Done(Ok(run.reconciled))
            } else {
                SyncStage::Items(run)
            })),
        event matches SyncEvent::Failed(e) ==> !(before is Push) && !(before is Done) ==> after
            == SyncStage::Done(Err(e)),
{
}

/// A disconnect empties the five settings of a connection.
pub proof fn law_disconnect_settings()
    ensures
        disconnect_settings() == seq![
            ("freshrss_url"@, ""@),
            ("freshrss_user"@, ""@),
            ("freshrss_auth"@, ""@),
            ("freshrss_pass"@, ""@),
            ("freshrss_provider"@, ""@),
        ],
{
}

} // verus!
